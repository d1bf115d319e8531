use vstd::prelude::*;
use crate::record::{Alloc, Budget, Checkpoint, Expense, Income, Record, categories_view};

verus! {

/// A value of an input document: the untyped tree that a document reader hands over.
/// Dates are day counts from the common era; floats are `f32` bit patterns.
#[derive(Debug)]
pub enum Node {
    Integer(i64),
    Float(u32),
    Text(String),
    Date(i32),
    Table(Vec<(String, Node)>),
}

/// The fields that the record shapes read.
#[derive(Clone, Copy, Debug, PartialEq, Eq, Structural)]
pub enum FieldName {
    Amount,
    IncomeAmount,
    Category,
    Detail,
    Day,
    Start,
    Savings,
    Expenditure,
    SpendCategories,
    Assets,
}

/// No record shape accepted the document; for each shape, in priority order,
/// one field that it needed and did not find with the right type.
#[derive(Clone, Debug)]
pub enum ParseError {
    NoMatchingSchema(Vec<FieldName>),
}

pub open spec fn key_of(f: FieldName) -> Seq<char> {
    match f {
        FieldName::Amount => "amount"@,
        FieldName::IncomeAmount => "income"@,
        FieldName::Category => "category"@,
        FieldName::Detail => "detail"@,
        FieldName::Day => "day"@,
        FieldName::Start => "start"@,
        FieldName::Savings => "savings"@,
        FieldName::Expenditure => "expenditure"@,
        FieldName::SpendCategories => "spend_categories"@,
        FieldName::Assets => "assets"@,
    }
}

/// The value under the first entry named `key`.
pub open spec fn find(fields: Seq<(String, Node)>, key: Seq<char>) -> Option<Node>
    decreases fields.len(),
{
    if fields.len() == 0 {
        None
    } else if fields[0].0@ == key {
        Some(fields[0].1)
    } else {
        find(fields.drop_first(), key)
    }
}

pub open spec fn u32_of(n: Option<Node>) -> Option<u32> {
    match n {
        Some(Node::Integer(i)) => if 0 <= i <= u32::MAX {
            Some(i as u32)
        } else {
            None
        },
        _ => None,
    }
}

pub open spec fn text_of(n: Option<Node>) -> Option<Seq<char>> {
    match n {
        Some(Node::Text(s)) => Some(s@),
        _ => None,
    }
}

pub open spec fn date_of(n: Option<Node>) -> Option<i32> {
    match n {
        Some(Node::Date(d)) => Some(d),
        _ => None,
    }
}

pub open spec fn alloc_of(n: Option<Node>) -> Option<Alloc> {
    match n {
        Some(Node::Table(t)) => match (find(t@, "rate"@), u32_of(find(t@, "flat"@))) {
            (Some(Node::Float(b)), Some(f)) => Some(Alloc { rate_bits: b, flat: f }),
            _ => None,
        },
        _ => None,
    }
}

pub open spec fn categories_of(n: Option<Node>) -> Option<Seq<(Seq<char>, Alloc)>> {
    match n {
        Some(Node::Table(t)) => if distinct_names(t@) && forall|i: int|
            0 <= i < t@.len() ==> (#[trigger] alloc_of(Some(t@[i].1))).is_some() {
            Some(entries_view(t@))
        } else {
            None
        },
        _ => None,
    }
}

/// No two entries share a name.
pub open spec fn distinct_names(t: Seq<(String, Node)>) -> bool {
    forall|i: int, j: int| 0 <= i < j < t.len() ==> t[i].0@ != t[j].0@
}

pub open spec fn entries_view(t: Seq<(String, Node)>) -> Seq<(Seq<char>, Alloc)> {
    Seq::new(t.len(), |k: int| (t[k].0@, alloc_of(Some(t[k].1)).unwrap()))
}

/// Whether the field is present with the type that its shapes read.
pub open spec fn field_ok(d: Seq<(String, Node)>, f: FieldName) -> bool {
    let n = find(d, key_of(f));
    match f {
        FieldName::Amount | FieldName::IncomeAmount | FieldName::Assets => u32_of(n).is_some(),
        FieldName::Category | FieldName::Detail => text_of(n).is_some(),
        FieldName::Day | FieldName::Start => date_of(n).is_some(),
        FieldName::Savings | FieldName::Expenditure => alloc_of(n).is_some(),
        FieldName::SpendCategories => categories_of(n).is_some(),
    }
}

pub open spec fn is_expense(d: Seq<(String, Node)>) -> bool {
    field_ok(d, FieldName::Amount) && field_ok(d, FieldName::Category) && field_ok(
        d,
        FieldName::Detail,
    ) && field_ok(d, FieldName::Day)
}

/// Income names its amount `amount`, or `income` in older documents.
pub open spec fn is_income(d: Seq<(String, Node)>) -> bool {
    (field_ok(d, FieldName::Amount) || field_ok(d, FieldName::IncomeAmount)) && field_ok(
        d,
        FieldName::Category,
    ) && field_ok(d, FieldName::Day)
}

pub open spec fn is_budget(d: Seq<(String, Node)>) -> bool {
    field_ok(d, FieldName::Start) && field_ok(d, FieldName::Savings) && field_ok(
        d,
        FieldName::Expenditure,
    ) && field_ok(d, FieldName::SpendCategories)
}

pub open spec fn is_checkpoint(d: Seq<(String, Node)>) -> bool {
    field_ok(d, FieldName::Assets) && field_ok(d, FieldName::Day)
}

pub open spec fn expense_from(d: Seq<(String, Node)>, e: Expense) -> bool {
    &&& u32_of(find(d, key_of(FieldName::Amount))) == Some(e.amount)
    &&& text_of(find(d, key_of(FieldName::Category))) == Some(e.category@)
    &&& text_of(find(d, key_of(FieldName::Detail))) == Some(e.detail@)
    &&& date_of(find(d, key_of(FieldName::Day))) == Some(e.day)
}

pub open spec fn income_amount(d: Seq<(String, Node)>) -> Option<u32> {
    if field_ok(d, FieldName::Amount) {
        u32_of(find(d, key_of(FieldName::Amount)))
    } else {
        u32_of(find(d, key_of(FieldName::IncomeAmount)))
    }
}

pub open spec fn income_from(d: Seq<(String, Node)>, i: Income) -> bool {
    &&& income_amount(d) == Some(i.amount)
    &&& text_of(find(d, key_of(FieldName::Category))) == Some(i.category@)
    &&& date_of(find(d, key_of(FieldName::Day))) == Some(i.day)
}

pub open spec fn budget_from(d: Seq<(String, Node)>, b: Budget) -> bool {
    &&& date_of(find(d, key_of(FieldName::Start))) == Some(b.start)
    &&& alloc_of(find(d, key_of(FieldName::Savings))) == Some(b.savings)
    &&& alloc_of(find(d, key_of(FieldName::Expenditure))) == Some(b.expenditure)
    &&& categories_of(find(d, key_of(FieldName::SpendCategories))) == Some(
        categories_view(b.spend_categories@),
    )
}

pub open spec fn checkpoint_from(d: Seq<(String, Node)>, c: Checkpoint) -> bool {
    &&& u32_of(find(d, key_of(FieldName::Assets))) == Some(c.assets)
    &&& date_of(find(d, key_of(FieldName::Day))) == Some(c.day)
}

/// What `parse` returns: the first shape, in the order Expense, Income, Budget,
/// Checkpoint, whose fields the document holds, read from the document.
pub open spec fn parsed_as(d: Seq<(String, Node)>, r: Result<Record, ParseError>) -> bool {
    match r {
        Ok(Record::Expense(e)) => is_expense(d) && expense_from(d, e),
        Ok(Record::Income(i)) => !is_expense(d) && is_income(d) && income_from(d, i),
        Ok(Record::Budget(b)) => !is_expense(d) && !is_income(d) && is_budget(d) && budget_from(
            d,
            b,
        ),
        Ok(Record::Checkpoint(c)) => !is_expense(d) && !is_income(d) && !is_budget(d)
            && is_checkpoint(d) && checkpoint_from(d, c),
        Err(ParseError::NoMatchingSchema(m)) => {
            &&& !is_expense(d)
            &&& !is_income(d)
            &&& !is_budget(d)
            &&& !is_checkpoint(d)
            &&& m@.len() == 4
            &&& forall|k: int| 0 <= k < 4 ==> !field_ok(d, #[trigger] m@[k])
        },
    }
}

pub open spec fn owned(n: Option<&Node>) -> Option<Node> {
    match n {
        Some(x) => Some(*x),
        None => None,
    }
}

/// Shapes are tried in a fixed order: a document with the Expense fields is an
/// Expense whatever else it holds, then Income, then Budget, then Checkpoint; a
/// document with only the Checkpoint fields is never a Budget, nor the reverse.
pub proof fn lemma_parse_priority(d: Seq<(String, Node)>, r: Result<Record, ParseError>)
    requires
        parsed_as(d, r),
    ensures
        is_expense(d) ==> r is Ok && r->Ok_0 is Expense,
        !is_expense(d) && is_income(d) ==> r is Ok && r->Ok_0 is Income,
        !is_expense(d) && !is_income(d) && is_budget(d) ==> r is Ok && r->Ok_0 is Budget,
        !is_expense(d) && !is_income(d) && !is_budget(d) && is_checkpoint(d) ==> r is Ok
            && r->Ok_0 is Checkpoint,
        r is Err <==> !is_expense(d) && !is_income(d) && !is_budget(d) && !is_checkpoint(d),
        !is_budget(d) ==> !(r is Ok && r->Ok_0 is Budget),
        !is_checkpoint(d) ==> !(r is Ok && r->Ok_0 is Checkpoint),
{
}

fn key_string(f: FieldName) -> (r: String)
    ensures
        r@ == key_of(f),
{
    match f {
        FieldName::Amount => "amount".to_owned(),
        FieldName::IncomeAmount => "income".to_owned(),
        FieldName::Category => "category".to_owned(),
        FieldName::Detail => "detail".to_owned(),
        FieldName::Day => "day".to_owned(),
        FieldName::Start => "start".to_owned(),
        FieldName::Savings => "savings".to_owned(),
        FieldName::Expenditure => "expenditure".to_owned(),
        FieldName::SpendCategories => "spend_categories".to_owned(),
        FieldName::Assets => "assets".to_owned(),
    }
}

/// Index of the first entry named `key`.
pub fn position(fields: &Vec<(String, Node)>, key: &String) -> (r: Option<usize>)
    ensures
        match r {
            Some(i) => i < fields@.len() && find(fields@, key@) == Some(fields@[i as int].1),
            None => find(fields@, key@) == None::<Node>,
        },
{
    let mut i: usize = 0;
    assert(fields@.subrange(0, fields@.len() as int) =~= fields@);
    while i < fields.len()
        invariant
            i <= fields@.len(),
            find(fields@, key@) == find(fields@.subrange(i as int, fields@.len() as int), key@),
        decreases fields@.len() - i,
    {
        let ghost rest = fields@.subrange(i as int, fields@.len() as int);
        assert(rest.drop_first() =~= fields@.subrange(i + 1, fields@.len() as int));
        if fields[i].0 == *key {
            return Some(i);
        }
        i = i + 1;
    }
    None
}

fn lookup<'a>(fields: &'a Vec<(String, Node)>, f: FieldName) -> (r: Option<&'a Node>)
    ensures
        owned(r) == find(fields@, key_of(f)),
{
    let key = key_string(f);
    match position(fields, &key) {
        Some(i) => Some(&fields[i].1),
        None => None,
    }
}

fn read_u32(n: Option<&Node>) -> (r: Option<u32>)
    ensures
        r == u32_of(owned(n)),
{
    match n {
        Some(Node::Integer(i)) => if 0 <= *i && *i <= u32::MAX as i64 {
            Some(*i as u32)
        } else {
            None
        },
        _ => None,
    }
}

fn read_text(n: Option<&Node>) -> (r: Option<String>)
    ensures
        match r {
            Some(s) => text_of(owned(n)) == Some(s@),
            None => text_of(owned(n)) == None::<Seq<char>>,
        },
{
    match n {
        Some(Node::Text(s)) => Some(s.clone()),
        _ => None,
    }
}

fn read_date(n: Option<&Node>) -> (r: Option<i32>)
    ensures
        r == date_of(owned(n)),
{
    match n {
        Some(Node::Date(d)) => Some(*d),
        _ => None,
    }
}

fn read_alloc(n: Option<&Node>) -> (r: Option<Alloc>)
    ensures
        r == alloc_of(owned(n)),
{
    match n {
        Some(Node::Table(t)) => {
            let rate = match position(t, &"rate".to_owned()) {
                Some(i) => Some(&t[i].1),
                None => None,
            };
            let flat = match position(t, &"flat".to_owned()) {
                Some(i) => Some(&t[i].1),
                None => None,
            };
            match (rate, read_u32(flat)) {
                (Some(Node::Float(b)), Some(f)) => Some(Alloc { rate_bits: *b, flat: f }),
                _ => None,
            }
        },
        _ => None,
    }
}

fn names_distinct(t: &Vec<(String, Node)>) -> (r: bool)
    ensures
        r == distinct_names(t@),
{
    let mut i: usize = 0;
    while i < t.len()
        invariant
            i <= t@.len(),
            forall|a: int, b: int| 0 <= a < i && a < b < t@.len() ==> t@[a].0@ != t@[b].0@,
        decreases t@.len() - i,
    {
        let mut j: usize = i + 1;
        while j < t.len()
            invariant
                i < t@.len(),
                i < j <= t@.len(),
                forall|a: int, b: int| 0 <= a < i && a < b < t@.len() ==> t@[a].0@ != t@[b].0@,
                forall|b: int| i < b < j ==> t@[i as int].0@ != t@[b].0@,
            decreases t@.len() - j,
        {
            if t[i].0 == t[j].0 {
                return false;
            }
            j = j + 1;
        }
        i = i + 1;
    }
    true
}

fn read_categories(n: Option<&Node>) -> (r: Option<Vec<(String, Alloc)>>)
    ensures
        match r {
            Some(v) => categories_of(owned(n)) == Some(categories_view(v@)),
            None => categories_of(owned(n)) == None::<Seq<(Seq<char>, Alloc)>>,
        },
{
    match n {
        Some(Node::Table(t)) => {
            if !names_distinct(t) {
                return None;
            }
            let ghost want = entries_view(t@);
            let mut out: Vec<(String, Alloc)> = Vec::new();
            let mut i: usize = 0;
            while i < t.len()
                invariant
                    i <= t@.len(),
                    out@.len() == i,
                    want == entries_view(t@),
                    owned(n) == Some(Node::Table(*t)),
                    distinct_names(t@),
                    forall|k: int| 0 <= k < i ==> (#[trigger] alloc_of(Some(t@[k].1))).is_some(),
                    categories_view(out@) =~= want.take(i as int),
                decreases t@.len() - i,
            {
                let ghost prev = out@;
                match read_alloc(Some(&t[i].1)) {
                    Some(a) => {
                        let name = t[i].0.clone();
                        out.push((name, a));
                        assert(out@ =~= prev.push((name, a)));
                        assert(want.len() == t@.len());
                        assert(want[i as int] == (
                            t@[i as int].0@,
                            alloc_of(Some(t@[i as int].1)).unwrap(),
                        ));
                        assert(categories_view(out@)[i as int] == (name@, a));
                    },
                    None => {
                        assert(alloc_of(Some(t@[i as int].1)).is_none());
                        assert(categories_of(owned(n)).is_none());
                        return None;
                    },
                }
                i = i + 1;
                assert(categories_view(out@) =~= want.take(i as int));
            }
            assert(want.take(i as int) =~= want);
            Some(out)
        },
        _ => None,
    }
}

/// Decides which record shape a document holds and reads it: the first of
/// Expense, Income, Budget and Checkpoint whose fields are all present with
/// the right types wins; other fields are ignored.
pub fn parse(fields: &Vec<(String, Node)>) -> (r: Result<Record, ParseError>)
    ensures
        parsed_as(fields@, r),
{
    let amount = read_u32(lookup(fields, FieldName::Amount));
    let income = read_u32(lookup(fields, FieldName::IncomeAmount));
    let category = read_text(lookup(fields, FieldName::Category));
    let detail = read_text(lookup(fields, FieldName::Detail));
    let day = read_date(lookup(fields, FieldName::Day));
    let start = read_date(lookup(fields, FieldName::Start));
    let savings = read_alloc(lookup(fields, FieldName::Savings));
    let expenditure = read_alloc(lookup(fields, FieldName::Expenditure));
    let cats = read_categories(lookup(fields, FieldName::SpendCategories));
    let assets = read_u32(lookup(fields, FieldName::Assets));
    let mut missing: Vec<FieldName> = Vec::new();
    match (amount, &category, &detail, day) {
        (Some(a), Some(c), Some(t), Some(d)) => {
            return Ok(
                Record::Expense(Expense { amount: a, category: c.clone(), detail: t.clone(), day: d }),
            );
        },
        _ => {
            missing.push(
                if amount.is_none() {
                    FieldName::Amount
                } else if category.is_none() {
                    FieldName::Category
                } else if detail.is_none() {
                    FieldName::Detail
                } else {
                    FieldName::Day
                },
            );
        },
    }
    let income_amount = if amount.is_some() {
        amount
    } else {
        income
    };
    match (income_amount, &category, day) {
        (Some(a), Some(c), Some(d)) => {
            return Ok(Record::Income(Income { amount: a, category: c.clone(), day: d }));
        },
        _ => {
            missing.push(
                if income_amount.is_none() {
                    FieldName::Amount
                } else if category.is_none() {
                    FieldName::Category
                } else {
                    FieldName::Day
                },
            );
        },
    }
    match (start, savings, expenditure, cats) {
        (Some(s), Some(sv), Some(ex), Some(c)) => {
            return Ok(
                Record::Budget(
                    Budget { start: s, savings: sv, expenditure: ex, spend_categories: c },
                ),
            );
        },
        _ => {
            missing.push(
                if start.is_none() {
                    FieldName::Start
                } else if savings.is_none() {
                    FieldName::Savings
                } else if expenditure.is_none() {
                    FieldName::Expenditure
                } else {
                    FieldName::SpendCategories
                },
            );
        },
    }
    match (assets, day) {
        (Some(a), Some(d)) => Ok(Record::Checkpoint(Checkpoint { assets: a, day: d })),
        _ => {
            missing.push(
                if assets.is_none() {
                    FieldName::Assets
                } else {
                    FieldName::Day
                },
            );
            Err(ParseError::NoMatchingSchema(missing))
        },
    }
}

} // verus!
