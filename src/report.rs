use vstd::prelude::*;
use vstd::string::StringExecFns;
use crate::record::Checkpoint;
use crate::ledger::{Ledger, LedgerError, LedgerView, latest_budget_of, latest_checkpoint_of, income_sum, expense_sum};

verus! {

/// Why no report could be made.
#[derive(Clone, Copy, Debug, PartialEq, Eq, Structural)]
pub enum ReportError {
    /// No checkpoint is stored: there is no anchor for the figures.
    NoCheckpoint,
    /// No budget is stored.
    NoBudget,
    /// The store failed otherwise.
    Storage(LedgerError),
}

/// The figures of a report, amounts in cents.
#[derive(Clone, Copy, Debug, PartialEq, Eq, Structural)]
pub struct Summary {
    pub checkpoint: Checkpoint,
    pub budget_start: i32,
    pub income_total: u128,
    pub expense_total: u128,
    /// Percentage of income kept, truncated toward zero; `None` when there was no income.
    pub savings_rate: Option<i128>,
    pub projected_balance: i128,
}

pub open spec fn trunc_div(a: int, b: int) -> int {
    if a >= 0 {
        a / b
    } else {
        -((-a) / b)
    }
}

/// The savings rate as a whole percentage: undefined without income.
pub open spec fn savings_rate_of(income: int, expense: int) -> Option<int> {
    if income == 0 {
        None
    } else {
        Some(trunc_div((income - expense) * 100, income))
    }
}

pub open spec fn storage_error(e: LedgerError, missing: ReportError) -> ReportError {
    if e == LedgerError::NoRows {
        missing
    } else {
        ReportError::Storage(e)
    }
}

/// What `summarize` returns: the latest checkpoint and budget, the income and
/// spending dated from the checkpoint's day to `today`, and the figures drawn from them.
pub open spec fn summary_of(l: LedgerView, today: int) -> Result<Summary, ReportError> {
    match latest_checkpoint_of(l) {
        Err(e) => Err(storage_error(e, ReportError::NoCheckpoint)),
        Ok(c) => match latest_budget_of(l) {
            Err(e) => Err(storage_error(e, ReportError::NoBudget)),
            Ok(b) => match (l.income, l.expense) {
                (Some(inc), Some(exp)) => {
                    let i = income_sum(inc, c.day as int, today);
                    let e = expense_sum(exp, c.day as int, today);
                    Ok(
                        Summary {
                            checkpoint: c,
                            budget_start: b.start,
                            income_total: i as u128,
                            expense_total: e as u128,
                            savings_rate: match savings_rate_of(i, e) {
                                Some(r) => Some(r as i128),
                                None => None,
                            },
                            projected_balance: (c.assets + i - e) as i128,
                        },
                    )
                },
                _ => Err(ReportError::Storage(LedgerError::MissingTable)),
            },
        },
    }
}

fn from_storage(e: LedgerError, missing: ReportError) -> (r: ReportError)
    ensures
        r == storage_error(e, missing),
{
    match e {
        LedgerError::NoRows => missing,
        _ => ReportError::Storage(e),
    }
}

/// Computes the report's figures from the store, counting transactions dated
/// from the latest checkpoint's day through `today`.
pub fn summarize(ledger: &Ledger, today: i32) -> (r: Result<Summary, ReportError>)
    ensures
        r == summary_of(ledger@, today as int),
{
    let c = match ledger.latest_checkpoint() {
        Ok(c) => c,
        Err(e) => {
            return Err(from_storage(e, ReportError::NoCheckpoint));
        },
    };
    let b = match ledger.latest_budget() {
        Ok(b) => b,
        Err(e) => {
            return Err(from_storage(e, ReportError::NoBudget));
        },
    };
    let income = match ledger.sum_income_since(c.day, today) {
        Ok(v) => v,
        Err(e) => {
            return Err(ReportError::Storage(e));
        },
    };
    let expense = match ledger.sum_expense_since(c.day, today) {
        Ok(v) => v,
        Err(e) => {
            return Err(ReportError::Storage(e));
        },
    };
    let rate: Option<i128> = if income == 0 {
        None
    } else if income >= expense {
        let num: u128 = (income - expense) * 100;
        let q: u128 = num / income;
        assert(q <= num) by (nonlinear_arith)
            requires
                income >= 1,
                q == num / income,
        ;
        Some(q as i128)
    } else {
        let num: u128 = (expense - income) * 100;
        let q: u128 = num / income;
        assert(q <= num) by (nonlinear_arith)
            requires
                income >= 1,
                q == num / income,
        ;
        Some(-(q as i128))
    };
    let projected: i128 = c.assets as i128 + income as i128 - expense as i128;
    Ok(
        Summary {
            checkpoint: c,
            budget_start: b.start,
            income_total: income,
            expense_total: expense,
            savings_rate: rate,
            projected_balance: projected,
        },
    )
}

pub open spec fn digit(d: nat) -> char {
    seq!['0', '1', '2', '3', '4', '5', '6', '7', '8', '9'][d as int]
}

/// Decimal digits of `n`, most significant first, without leading zeros.
pub open spec fn decimal_of(n: nat) -> Seq<char>
    decreases n,
{
    if n < 10 {
        seq![digit(n)]
    } else {
        decimal_of(n / 10).push(digit(n % 10))
    }
}

pub open spec fn signed_decimal(x: int) -> Seq<char> {
    if x < 0 {
        seq!['-'] + decimal_of((-x) as nat)
    } else {
        decimal_of(x as nat)
    }
}

/// An amount in cents shown in whole currency units, the cents truncated.
pub open spec fn money_text(x: int) -> Seq<char> {
    signed_decimal(trunc_div(x, 100))
}

/// The ISO 8601 text of the date `day` days from the common era, where the
/// date library can represent it.
pub uninterp spec fn iso_date(day: int) -> Option<Seq<char>>;

pub open spec fn day_text(day: int) -> Seq<char> {
    match iso_date(day) {
        Some(t) => t,
        None => "day "@ + signed_decimal(day),
    }
}

pub open spec fn rate_text(r: Option<i128>) -> Seq<char> {
    match r {
        Some(p) => signed_decimal(p as int) + "%"@,
        None => "n/a (no income)"@,
    }
}

/// The text of a report.
pub open spec fn report_text(s: Summary) -> Seq<char> {
    "Checkpoint: "@ + day_text(s.checkpoint.day as int) + "\n"@
    + "Assets at checkpoint: "@ + money_text(s.checkpoint.assets as int) + "\n"@
    + "Budget in effect since: "@ + day_text(s.budget_start as int) + "\n"@
    + "Income since checkpoint: "@ + money_text(s.income_total as int) + "\n"@
    + "Expenses since checkpoint: "@ + money_text(s.expense_total as int) + "\n"@
    + "Savings rate: "@ + rate_text(s.savings_rate) + "\n"@
    + "Projected balance: "@ + money_text(s.projected_balance as int) + "\n"@
}

/// Relies on the `Display` of `u128` (`to_string`): decimal digits without
/// leading zeros.
#[verifier::external_body]
fn u128_text(n: u128) -> (r: String)
    ensures
        r@ == decimal_of(n as nat),
{
    n.to_string()
}

/// Relies on chrono's `NaiveDate::from_num_days_from_ce_opt`, shown through
/// its `Display`: the date's text depends on the day number alone.
#[verifier::external_body]
fn iso_date_text(day: i32) -> (r: Option<String>)
    ensures
        match r {
            Some(t) => iso_date(day as int) == Some(t@),
            None => iso_date(day as int) == None::<Seq<char>>,
        },
{
    match chrono::NaiveDate::from_num_days_from_ce_opt(day) {
        Some(d) => Some(d.to_string()),
        None => None,
    }
}

fn signed_text(x: i128) -> (r: String)
    ensures
        r@ == signed_decimal(x as int),
{
    if x < 0 {
        let mag: u128 = if x == i128::MIN {
            0x8000_0000_0000_0000_0000_0000_0000_0000u128
        } else {
            (-x) as u128
        };
        proof {
            reveal_strlit("-");
        }
        let mut out = "-".to_owned();
        let digits = u128_text(mag);
        out.append(digits.as_str());
        out
    } else {
        u128_text(x as u128)
    }
}

fn day_label(day: i32) -> (r: String)
    ensures
        r@ == day_text(day as int),
{
    match iso_date_text(day) {
        Some(t) => t,
        None => {
            let mut out = "day ".to_owned();
            let n = signed_text(day as i128);
            out.append(n.as_str());
            out
        },
    }
}

fn money_label(x: i128) -> (r: String)
    ensures
        r@ == money_text(x as int),
{
    let units: i128 = if x >= 0 {
        x / 100
    } else {
        let m: u128 = (-(x + 1)) as u128 + 1;
        -((m / 100) as i128)
    };
    assert(units == trunc_div(x as int, 100));
    signed_text(units)
}

fn cents_label(x: u128) -> (r: String)
    ensures
        r@ == money_text(x as int),
{
    u128_text(x / 100)
}

fn rate_label(r: Option<i128>) -> (t: String)
    ensures
        t@ == rate_text(r),
{
    match r {
        Some(p) => {
            let mut out = signed_text(p);
            out.append("%");
            out
        },
        None => "n/a (no income)".to_owned(),
    }
}

fn add_line(out: &mut String, label: &str, value: &String)
    ensures
        final(out)@ == old(out)@ + label@ + value@ + "\n"@,
{
    out.append(label);
    out.append(value.as_str());
    out.append("\n");
}

/// Renders the figures as the report's text; amounts in whole currency units.
pub fn render(s: &Summary) -> (r: String)
    ensures
        r@ == report_text(*s),
{
    let mut out = String::new();
    add_line(&mut out, "Checkpoint: ", &day_label(s.checkpoint.day));
    add_line(&mut out, "Assets at checkpoint: ", &money_label(s.checkpoint.assets as i128));
    add_line(&mut out, "Budget in effect since: ", &day_label(s.budget_start));
    add_line(&mut out, "Income since checkpoint: ", &cents_label(s.income_total));
    add_line(&mut out, "Expenses since checkpoint: ", &cents_label(s.expense_total));
    add_line(&mut out, "Savings rate: ", &rate_label(s.savings_rate));
    add_line(&mut out, "Projected balance: ", &money_label(s.projected_balance));
    assert(out@ =~= report_text(*s));
    out
}

/// Produces the report on the store's current state as text.
pub fn report(ledger: &Ledger, today: i32) -> (r: Result<String, ReportError>)
    ensures
        match summary_of(ledger@, today as int) {
            Ok(s) => r matches Ok(t) && t@ == report_text(s),
            Err(e) => r == Err::<String, ReportError>(e),
        },
{
    match summarize(ledger, today) {
        Ok(s) => Ok(render(&s)),
        Err(e) => Err(e),
    }
}

} // verus!
