use vstd::prelude::*;
use crate::record::{Alloc, Budget, BudgetView, Checkpoint, Expense, Income, Record, categories_view};
use crate::blob::{
    alloc_bytes, categories_bytes, decode_alloc, decode_alloc_blob, decode_categories,
    decode_categories_blob, encode_alloc, encode_categories, names_fit,
};

verus! {

/// A stored budget: its start day and its nested values as blobs.
#[derive(Clone, Debug)]
pub struct BudgetRow {
    pub start: i32,
    pub savings: Vec<u8>,
    pub expenditure: Vec<u8>,
    pub spend_categories: Vec<u8>,
}

pub ghost struct BudgetRowView {
    pub start: i32,
    pub savings: Seq<u8>,
    pub expenditure: Seq<u8>,
    pub spend_categories: Seq<u8>,
}

impl View for BudgetRow {
    type V = BudgetRowView;

    open spec fn view(&self) -> BudgetRowView {
        BudgetRowView {
            start: self.start,
            savings: self.savings@,
            expenditure: self.expenditure@,
            spend_categories: self.spend_categories@,
        }
    }
}

/// Failures of the store.
#[derive(Clone, Copy, Debug, PartialEq, Eq, Structural)]
pub enum LedgerError {
    /// A table is absent: the schema was not made ready.
    MissingTable,
    /// The table holds no row to select.
    NoRows,
    /// A stored blob does not decode.
    CorruptBlob,
    /// A category name is too long for the blob encoding.
    NameTooLong,
}

/// The store: four tables, each of which may be absent until the schema is made ready.
/// An absent table holds no rows.
pub struct Ledger {
    expense: Option<Vec<Expense>>,
    income: Option<Vec<Income>>,
    budget: Option<Vec<BudgetRow>>,
    checkpoint: Option<Vec<Checkpoint>>,
}

pub ghost struct LedgerView {
    pub expense: Option<Seq<Expense>>,
    pub income: Option<Seq<Income>>,
    pub budget: Option<Seq<BudgetRowView>>,
    pub checkpoint: Option<Seq<Checkpoint>>,
}

impl View for Ledger {
    type V = LedgerView;

    closed spec fn view(&self) -> LedgerView {
        LedgerView {
            expense: match self.expense {
                Some(v) => Some(v@),
                None => None,
            },
            income: match self.income {
                Some(v) => Some(v@),
                None => None,
            },
            budget: match self.budget {
                Some(v) => Some(v@.map_values(|r: BudgetRow| r@)),
                None => None,
            },
            checkpoint: match self.checkpoint {
                Some(v) => Some(v@),
                None => None,
            },
        }
    }
}

pub open spec fn is_ready(l: LedgerView) -> bool {
    l.expense.is_some() && l.income.is_some() && l.budget.is_some() && l.checkpoint.is_some()
}

/// The store after `ensure_ready`: unchanged when all four tables exist, else
/// all four recreated empty.
pub open spec fn made_ready(l: LedgerView) -> LedgerView {
    if is_ready(l) {
        l
    } else {
        LedgerView {
            expense: Some(Seq::empty()),
            income: Some(Seq::empty()),
            budget: Some(Seq::empty()),
            checkpoint: Some(Seq::empty()),
        }
    }
}

pub open spec fn budget_row_of(b: BudgetView) -> BudgetRowView {
    BudgetRowView {
        start: b.start,
        savings: alloc_bytes(b.savings),
        expenditure: alloc_bytes(b.expenditure),
        spend_categories: categories_bytes(b.spend_categories),
    }
}

/// Row `i` is the one selected as most recent: no row has a later day, and
/// rows after it have earlier days (the last stored of equal days wins).
pub open spec fn is_latest(days: Seq<i32>, i: int) -> bool {
    &&& 0 <= i < days.len()
    &&& forall|j: int| 0 <= j < days.len() ==> days[j] <= days[i]
    &&& forall|j: int| i < j < days.len() ==> days[j] < days[i]
}

pub open spec fn budget_days(rows: Seq<BudgetRowView>) -> Seq<i32> {
    rows.map_values(|r: BudgetRowView| r.start)
}

pub open spec fn checkpoint_days(rows: Seq<Checkpoint>) -> Seq<i32> {
    rows.map_values(|c: Checkpoint| c.day)
}

pub open spec fn decode_budget_row(r: BudgetRowView) -> Result<BudgetView, LedgerError> {
    match (decode_alloc(r.savings), decode_alloc(r.expenditure), decode_categories(r.spend_categories)) {
        (Some(s), Some(e), Some(c)) => Ok(
            BudgetView { start: r.start, savings: s, expenditure: e, spend_categories: c },
        ),
        _ => Err(LedgerError::CorruptBlob),
    }
}

/// What `latest_budget` returns.
pub open spec fn latest_budget_of(l: LedgerView) -> Result<BudgetView, LedgerError> {
    match l.budget {
        None => Err(LedgerError::MissingTable),
        Some(rows) => if rows.len() == 0 {
            Err(LedgerError::NoRows)
        } else {
            let i = choose|i: int| is_latest(budget_days(rows), i);
            decode_budget_row(rows[i])
        },
    }
}

/// What `latest_checkpoint` returns.
pub open spec fn latest_checkpoint_of(l: LedgerView) -> Result<Checkpoint, LedgerError> {
    match l.checkpoint {
        None => Err(LedgerError::MissingTable),
        Some(rows) => if rows.len() == 0 {
            Err(LedgerError::NoRows)
        } else {
            let i = choose|i: int| is_latest(checkpoint_days(rows), i);
            Ok(rows[i])
        },
    }
}

pub open spec fn income_sum(rows: Seq<Income>, from: int, to: int) -> int
    decreases rows.len(),
{
    if rows.len() == 0 {
        0
    } else {
        let r = rows.last();
        income_sum(rows.drop_last(), from, to) + if from <= r.day <= to {
            r.amount as int
        } else {
            0
        }
    }
}

pub open spec fn expense_sum(rows: Seq<Expense>, from: int, to: int) -> int
    decreases rows.len(),
{
    if rows.len() == 0 {
        0
    } else {
        let r = rows.last();
        expense_sum(rows.drop_last(), from, to) + if from <= r.day <= to {
            r.amount as int
        } else {
            0
        }
    }
}

pub open spec fn view_budget_result(r: Result<Budget, LedgerError>) -> Result<BudgetView, LedgerError> {
    match r {
        Ok(b) => Ok(b@),
        Err(e) => Err(e),
    }
}

/// Rows past the latest are dated earlier, so there is at most one latest row.
proof fn lemma_latest_unique(days: Seq<i32>, i: int, k: int)
    requires
        is_latest(days, i),
        is_latest(days, k),
    ensures
        i == k,
{
    if i < k {
        assert(days[k] < days[i]);
        assert(days[i] <= days[k]);
    } else if k < i {
        assert(days[i] < days[k]);
        assert(days[k] <= days[i]);
    }
}

/// Making the store ready leaves it ready, and making a ready store ready again
/// changes nothing: no row is lost. A store missing any table comes back with
/// all four tables empty.
pub proof fn lemma_ensure_ready_twice(l: LedgerView)
    ensures
        is_ready(made_ready(l)),
        made_ready(made_ready(l)) == made_ready(l),
        is_ready(l) ==> made_ready(l) == l,
        !is_ready(l) ==> made_ready(l).expense == Some(Seq::<Expense>::empty())
            && made_ready(l).income == Some(Seq::<Income>::empty())
            && made_ready(l).budget == Some(Seq::<BudgetRowView>::empty())
            && made_ready(l).checkpoint == Some(Seq::<Checkpoint>::empty()),
{
}

/// A budget stored with a start no earlier than any stored budget's is what
/// the latest-budget query gives back: start, allocations and categories.
pub proof fn lemma_budget_round_trip(l: LedgerView, b: Budget)
    requires
        l.budget.is_some(),
        forall|j: int| 0 <= j < l.budget.unwrap().len() ==> l.budget.unwrap()[j].start <= b.start,
        names_fit(b@.spend_categories),
    ensures
        inserted(l, Record::Budget(b)).0 == Ok::<(), LedgerError>(()),
        latest_budget_of(inserted(l, Record::Budget(b)).1) == Ok::<BudgetView, LedgerError>(b@),
{
    let rows = l.budget.unwrap();
    let after = rows.push(budget_row_of(b@));
    let days = budget_days(after);
    let n = rows.len() as int;
    assert(days[n] == b.start);
    assert forall|j: int| 0 <= j < days.len() implies days[j] <= days[n] by {
        if j < n {
            assert(after[j] == rows[j]);
        }
    }
    assert(is_latest(days, n));
    let c = choose|c: int| is_latest(days, c);
    lemma_latest_unique(days, n, c);
    crate::blob::lemma_alloc_round_trip(b.savings);
    crate::blob::lemma_alloc_round_trip(b.expenditure);
    crate::blob::lemma_categories_round_trip(b@.spend_categories);
}

/// A checkpoint stored with a day no earlier than any stored checkpoint's is
/// what the latest-checkpoint query gives back.
pub proof fn lemma_checkpoint_round_trip(l: LedgerView, c: Checkpoint)
    requires
        l.checkpoint.is_some(),
        forall|j: int| 0 <= j < l.checkpoint.unwrap().len() ==> l.checkpoint.unwrap()[j].day <= c.day,
    ensures
        inserted(l, Record::Checkpoint(c)).0 == Ok::<(), LedgerError>(()),
        latest_checkpoint_of(inserted(l, Record::Checkpoint(c)).1) == Ok::<Checkpoint, LedgerError>(c),
{
    let rows = l.checkpoint.unwrap();
    let after = rows.push(c);
    let days = checkpoint_days(after);
    let n = rows.len() as int;
    assert(days[n] == c.day);
    assert forall|j: int| 0 <= j < days.len() implies days[j] <= days[n] by {
        if j < n {
            assert(after[j] == rows[j]);
        }
    }
    assert(is_latest(days, n));
    let k = choose|k: int| is_latest(days, k);
    lemma_latest_unique(days, n, k);
}

/// Expenses and income are stored as given: the inserted record is the table's last row.
pub proof fn lemma_transaction_round_trip(l: LedgerView, e: Expense, i: Income)
    requires
        is_ready(l),
    ensures
        inserted(l, Record::Expense(e)).0 == Ok::<(), LedgerError>(()),
        inserted(l, Record::Expense(e)).1.expense.unwrap().last() == e,
        inserted(l, Record::Income(i)).0 == Ok::<(), LedgerError>(()),
        inserted(l, Record::Income(i)).1.income.unwrap().last() == i,
{
}

fn latest_index_of_days(days: &Vec<i32>) -> (r: usize)
    requires
        days@.len() > 0,
    ensures
        is_latest(days@, r as int),
{
    let mut best: usize = 0;
    let mut i: usize = 1;
    while i < days.len()
        invariant
            1 <= i <= days@.len(),
            best < i,
            forall|j: int| 0 <= j < i ==> days@[j] <= days@[best as int],
            forall|j: int| best < j < i ==> days@[j] < days@[best as int],
        decreases days@.len() - i,
    {
        if days[i] >= days[best] {
            best = i;
        }
        i = i + 1;
    }
    best
}

/// The outcome of `insert` and the store after it.
pub open spec fn inserted(l: LedgerView, r: Record) -> (Result<(), LedgerError>, LedgerView) {
    match r {
        Record::Expense(e) => match l.expense {
            None => (Err(LedgerError::MissingTable), l),
            Some(rows) => (Ok(()), LedgerView { expense: Some(rows.push(e)), ..l }),
        },
        Record::Income(i) => match l.income {
            None => (Err(LedgerError::MissingTable), l),
            Some(rows) => (Ok(()), LedgerView { income: Some(rows.push(i)), ..l }),
        },
        Record::Budget(b) => match l.budget {
            None => (Err(LedgerError::MissingTable), l),
            Some(rows) => if names_fit(b@.spend_categories) {
                (Ok(()), LedgerView { budget: Some(rows.push(budget_row_of(b@))), ..l })
            } else {
                (Err(LedgerError::NameTooLong), l)
            },
        },
        Record::Checkpoint(c) => match l.checkpoint {
            None => (Err(LedgerError::MissingTable), l),
            Some(rows) => (Ok(()), LedgerView { checkpoint: Some(rows.push(c)), ..l }),
        },
    }
}

impl Ledger {
    /// A store with no tables yet.
    pub fn new() -> (r: Ledger)
        ensures
            r@.expense.is_none(),
            r@.income.is_none(),
            r@.budget.is_none(),
            r@.checkpoint.is_none(),
    {
        Ledger { expense: None, income: None, budget: None, checkpoint: None }
    }

    /// A store whose named tables exist, empty, and whose others are absent.
    pub fn with_tables(expense: bool, income: bool, budget: bool, checkpoint: bool) -> (r: Ledger)
        ensures
            r@.expense == (if expense { Some(Seq::<Expense>::empty()) } else { None }),
            r@.income == (if income { Some(Seq::<Income>::empty()) } else { None }),
            r@.budget == (if budget { Some(Seq::<BudgetRowView>::empty()) } else { None }),
            r@.checkpoint == (if checkpoint { Some(Seq::<Checkpoint>::empty()) } else { None }),
    {
        let r = Ledger {
            expense: if expense { Some(Vec::new()) } else { None },
            income: if income { Some(Vec::new()) } else { None },
            budget: if budget { Some(Vec::new()) } else { None },
            checkpoint: if checkpoint { Some(Vec::new()) } else { None },
        };
        assert(r@.budget == (if budget { Some(Seq::<BudgetRowView>::empty()) } else { None }));
        r
    }

    /// The expense table's rows, in insertion order.
    pub fn expenses(&self) -> (r: Option<&Vec<Expense>>)
        ensures
            match r {
                Some(v) => self@.expense == Some(v@),
                None => self@.expense is None,
            },
    {
        match &self.expense {
            Some(v) => Some(v),
            None => None,
        }
    }

    /// The income table's rows, in insertion order.
    pub fn incomes(&self) -> (r: Option<&Vec<Income>>)
        ensures
            match r {
                Some(v) => self@.income == Some(v@),
                None => self@.income is None,
            },
    {
        match &self.income {
            Some(v) => Some(v),
            None => None,
        }
    }

    /// The budget table's rows, in insertion order.
    pub fn budget_rows(&self) -> (r: Option<&Vec<BudgetRow>>)
        ensures
            match r {
                Some(v) => self@.budget == Some(v@.map_values(|b: BudgetRow| b@)),
                None => self@.budget is None,
            },
    {
        match &self.budget {
            Some(v) => Some(v),
            None => None,
        }
    }

    /// The checkpoint table's rows, in insertion order.
    pub fn checkpoints(&self) -> (r: Option<&Vec<Checkpoint>>)
        ensures
            match r {
                Some(v) => self@.checkpoint == Some(v@),
                None => self@.checkpoint is None,
            },
    {
        match &self.checkpoint {
            Some(v) => Some(v),
            None => None,
        }
    }

    /// Whether all four tables exist.
    pub fn is_ready(&self) -> (r: bool)
        ensures
            r == is_ready(self@),
    {
        self.expense.is_some() && self.income.is_some() && self.budget.is_some()
            && self.checkpoint.is_some()
    }

    /// Checks that all four tables exist; if any is missing, destroys and
    /// recreates all four, empty. Returns whether the store was reset.
    pub fn ensure_ready(&mut self) -> (reset: bool)
        ensures
            final(self)@ == made_ready(old(self)@),
            reset == !is_ready(old(self)@),
    {
        if self.is_ready() {
            false
        } else {
            self.expense = Some(Vec::new());
            self.income = Some(Vec::new());
            self.budget = Some(Vec::new());
            self.checkpoint = Some(Vec::new());
            assert(final(self)@.budget == Some(Seq::<BudgetRowView>::empty()));
            true
        }
    }

    /// Appends a record to its table.
    pub fn insert(&mut self, rec: Record) -> (res: Result<(), LedgerError>)
        ensures
            (res, final(self)@) == inserted(old(self)@, rec),
    {
        match rec {
            Record::Expense(e) => match &mut self.expense {
                Some(rows) => {
                    rows.push(e);
                    Ok(())
                },
                None => Err(LedgerError::MissingTable),
            },
            Record::Income(i) => match &mut self.income {
                Some(rows) => {
                    rows.push(i);
                    Ok(())
                },
                None => Err(LedgerError::MissingTable),
            },
            Record::Checkpoint(c) => match &mut self.checkpoint {
                Some(rows) => {
                    rows.push(c);
                    Ok(())
                },
                None => Err(LedgerError::MissingTable),
            },
            Record::Budget(b) => {
                if self.budget.is_none() {
                    return Err(LedgerError::MissingTable);
                }
                match encode_categories(&b.spend_categories) {
                    None => Err(LedgerError::NameTooLong),
                    Some(cats) => {
                        let row = BudgetRow {
                            start: b.start,
                            savings: encode_alloc(b.savings),
                            expenditure: encode_alloc(b.expenditure),
                            spend_categories: cats,
                        };
                        assert(row@ == budget_row_of(b@));
                        self.push_budget_row(row);
                        Ok(())
                    },
                }
            },
        }
    }

    fn push_budget_row(&mut self, row: BudgetRow)
        requires
            old(self)@.budget.is_some(),
        ensures
            final(self)@ == (LedgerView {
                budget: Some(old(self)@.budget.unwrap().push(row@)),
                ..old(self)@
            }),
    {
        match &mut self.budget {
            Some(rows) => {
                let ghost prev = rows@;
                rows.push(row);
                assert(rows@.map_values(|r: BudgetRow| r@) =~= prev.map_values(
                    |r: BudgetRow| r@,
                ).push(row@));
            },
            None => {},
        }
    }

    /// The budget with the latest start, decoded from its row.
    pub fn latest_budget(&self) -> (r: Result<Budget, LedgerError>)
        ensures
            view_budget_result(r) == latest_budget_of(self@),
    {
        match &self.budget {
            None => Err(LedgerError::MissingTable),
            Some(rows) => {
                if rows.len() == 0 {
                    return Err(LedgerError::NoRows);
                }
                let ghost rv = rows@.map_values(|r: BudgetRow| r@);
                let mut days: Vec<i32> = Vec::new();
                let mut k: usize = 0;
                while k < rows.len()
                    invariant
                        k <= rows@.len(),
                        rv == rows@.map_values(|r: BudgetRow| r@),
                        days@ =~= budget_days(rv).take(k as int),
                    decreases rows@.len() - k,
                {
                    days.push(rows[k].start);
                    k = k + 1;
                }
                assert(budget_days(rv).take(k as int) =~= budget_days(rv));
                let i = latest_index_of_days(&days);
                proof {
                    let c = choose|c: int| is_latest(budget_days(rv), c);
                    lemma_latest_unique(budget_days(rv), i as int, c);
                }
                let row = &rows[i];
                assert(rv[i as int] == row@);
                match (
                    decode_alloc_blob(&row.savings),
                    decode_alloc_blob(&row.expenditure),
                    decode_categories_blob(&row.spend_categories),
                ) {
                    (Some(sv), Some(ex), Some(cats)) => Ok(
                        Budget { start: row.start, savings: sv, expenditure: ex, spend_categories: cats },
                    ),
                    _ => Err(LedgerError::CorruptBlob),
                }
            },
        }
    }

    /// The checkpoint with the latest day.
    pub fn latest_checkpoint(&self) -> (r: Result<Checkpoint, LedgerError>)
        ensures
            r == latest_checkpoint_of(self@),
    {
        match &self.checkpoint {
            None => Err(LedgerError::MissingTable),
            Some(rows) => {
                if rows.len() == 0 {
                    return Err(LedgerError::NoRows);
                }
                let mut days: Vec<i32> = Vec::new();
                let mut k: usize = 0;
                while k < rows.len()
                    invariant
                        k <= rows@.len(),
                        days@ =~= checkpoint_days(rows@).take(k as int),
                    decreases rows@.len() - k,
                {
                    days.push(rows[k].day);
                    k = k + 1;
                }
                assert(checkpoint_days(rows@).take(k as int) =~= checkpoint_days(rows@));
                let i = latest_index_of_days(&days);
                proof {
                    let c = choose|c: int| is_latest(checkpoint_days(rows@), c);
                    lemma_latest_unique(checkpoint_days(rows@), i as int, c);
                }
                Ok(rows[i])
            },
        }
    }

    /// Total income dated within `[from, to]`; zero when no row is.
    pub fn sum_income_since(&self, from: i32, to: i32) -> (r: Result<u128, LedgerError>)
        ensures
            match self@.income {
                None => r == Err::<u128, LedgerError>(LedgerError::MissingTable),
                Some(rows) => r == Ok::<u128, LedgerError>(income_sum(rows, from as int, to as int) as u128)
                    && 0 <= income_sum(rows, from as int, to as int) < 0x1_0000_0000_0000_0000_0000_0000,
            },
    {
        match &self.income {
            None => Err(LedgerError::MissingTable),
            Some(rows) => {
                let mut total: u128 = 0;
                let mut k: usize = 0;
                while k < rows.len()
                    invariant
                        k <= rows@.len(),
                        total == income_sum(rows@.take(k as int), from as int, to as int),
                        total <= k * 0xffff_ffff,
                    decreases rows@.len() - k,
                {
                    assert(rows@.take(k + 1).drop_last() =~= rows@.take(k as int));
                    let r = &rows[k];
                    if from <= r.day && r.day <= to {
                        total = total + r.amount as u128;
                    }
                    k = k + 1;
                }
                assert(rows@.take(k as int) =~= rows@);
                assert(usize::MAX < 0x1_0000_0000_0000_0000);
                Ok(total)
            },
        }
    }

    /// Total spending dated within `[from, to]`; zero when no row is.
    pub fn sum_expense_since(&self, from: i32, to: i32) -> (r: Result<u128, LedgerError>)
        ensures
            match self@.expense {
                None => r == Err::<u128, LedgerError>(LedgerError::MissingTable),
                Some(rows) => r == Ok::<u128, LedgerError>(expense_sum(rows, from as int, to as int) as u128)
                    && 0 <= expense_sum(rows, from as int, to as int) < 0x1_0000_0000_0000_0000_0000_0000,
            },
    {
        match &self.expense {
            None => Err(LedgerError::MissingTable),
            Some(rows) => {
                let mut total: u128 = 0;
                let mut k: usize = 0;
                while k < rows.len()
                    invariant
                        k <= rows@.len(),
                        total == expense_sum(rows@.take(k as int), from as int, to as int),
                        total <= k * 0xffff_ffff,
                    decreases rows@.len() - k,
                {
                    assert(rows@.take(k + 1).drop_last() =~= rows@.take(k as int));
                    let r = &rows[k];
                    if from <= r.day && r.day <= to {
                        total = total + r.amount as u128;
                    }
                    k = k + 1;
                }
                assert(rows@.take(k as int) =~= rows@);
                assert(usize::MAX < 0x1_0000_0000_0000_0000);
                Ok(total)
            },
        }
    }

    /// Appends a stored budget row as it is, blobs included.
    pub fn insert_budget_row(&mut self, row: BudgetRow) -> (res: Result<(), LedgerError>)
        ensures
            match old(self)@.budget {
                None => res == Err::<(), LedgerError>(LedgerError::MissingTable) && final(self)@
                    == old(self)@,
                Some(rows) => res == Ok::<(), LedgerError>(()) && final(self)@ == (LedgerView {
                    budget: Some(rows.push(row@)),
                    ..old(self)@
                }),
            },
    {
        if self.budget.is_none() {
            return Err(LedgerError::MissingTable);
        }
        self.push_budget_row(row);
        Ok(())
    }
}

} // verus!
