use chrono::{Datelike, NaiveDate};
use jag_budget::blob::{decode_alloc_blob, decode_categories_blob, encode_alloc, encode_categories};
use jag_budget::doc::{parse, FieldName, Node, ParseError};
use jag_budget::ingest::{ingest, IngestError};
use jag_budget::ledger::{BudgetRow, Ledger, LedgerError};
use jag_budget::record::{Alloc, Budget, Expense, Income, Record};
use jag_budget::report::{render, summarize, ReportError, Summary};
use jag_budget::{report, Checkpoint};

fn day(y: i32, m: u32, d: u32) -> i32 {
    NaiveDate::from_ymd_opt(y, m, d).unwrap().num_days_from_ce()
}

fn text(s: &str) -> Node {
    Node::Text(s.to_string())
}

fn field(k: &str, n: Node) -> (String, Node) {
    (k.to_string(), n)
}

fn alloc_node(rate: f32, flat: i64) -> Node {
    Node::Table(vec![field("rate", Node::Float(rate.to_bits())), field("flat", Node::Integer(flat))])
}

fn allocation(rate: f32, flat: u32) -> Alloc {
    Alloc { rate_bits: rate.to_bits(), flat }
}

fn expense_doc(amount: i64, d: i32) -> Vec<(String, Node)> {
    vec![
        field("amount", Node::Integer(amount)),
        field("category", text("food")),
        field("detail", text("lunch")),
        field("day", Node::Date(d)),
    ]
}

fn income_doc(amount: i64, d: i32) -> Vec<(String, Node)> {
    vec![field("amount", Node::Integer(amount)), field("category", text("salary")), field("day", Node::Date(d))]
}

fn checkpoint_doc(assets: i64, d: i32) -> Vec<(String, Node)> {
    vec![field("assets", Node::Integer(assets)), field("day", Node::Date(d))]
}

fn budget_doc(start: i32) -> Vec<(String, Node)> {
    vec![
        field("start", Node::Date(start)),
        field("savings", alloc_node(0.2, 10000)),
        field("expenditure", alloc_node(0.8, 0)),
        field(
            "spend_categories",
            Node::Table(vec![field("food", alloc_node(0.3, 500)), field("rent", alloc_node(0.4, 0))]),
        ),
    ]
}

fn budget(start: i32) -> Budget {
    Budget {
        start,
        savings: allocation(0.2, 10000),
        expenditure: allocation(0.8, 0),
        spend_categories: vec![("food".to_string(), allocation(0.3, 500)), ("rent".to_string(), allocation(0.4, 0))],
    }
}

fn ready() -> Ledger {
    let mut l = Ledger::new();
    assert!(l.ensure_ready());
    l
}

#[test]
fn parse_expense_document() {
    match parse(&expense_doc(1250, day(2021, 3, 4))) {
        Ok(Record::Expense(e)) => {
            assert_eq!(e.amount, 1250);
            assert_eq!(e.category, "food");
            assert_eq!(e.detail, "lunch");
            assert_eq!(e.day, day(2021, 3, 4));
        }
        other => panic!("unexpected {:?}", other),
    }
}

#[test]
fn parse_income_document() {
    match parse(&income_doc(5000, day(2021, 3, 4))) {
        Ok(Record::Income(i)) => {
            assert_eq!(i.amount, 5000);
            assert_eq!(i.category, "salary");
        }
        other => panic!("unexpected {:?}", other),
    }
}

#[test]
fn parse_income_under_legacy_field_name() {
    let doc = vec![field("income", Node::Integer(700)), field("category", text("gift")), field("day", Node::Date(9))];
    match parse(&doc) {
        Ok(Record::Income(i)) => assert_eq!(i.amount, 700),
        other => panic!("unexpected {:?}", other),
    }
}

#[test]
fn parse_budget_document() {
    match parse(&budget_doc(day(2022, 1, 1))) {
        Ok(Record::Budget(b)) => {
            assert_eq!(b.start, day(2022, 1, 1));
            assert_eq!(b.savings, allocation(0.2, 10000));
            assert_eq!(b.expenditure, allocation(0.8, 0));
            assert_eq!(b.spend_categories.len(), 2);
            assert_eq!(b.spend_categories[0].0, "food");
            assert_eq!(b.spend_categories[1].1, allocation(0.4, 0));
        }
        other => panic!("unexpected {:?}", other),
    }
}

#[test]
fn parse_checkpoint_document() {
    match parse(&checkpoint_doc(10000, 5)) {
        Ok(Record::Checkpoint(c)) => assert_eq!(c, Checkpoint { assets: 10000, day: 5 }),
        other => panic!("unexpected {:?}", other),
    }
}

#[test]
fn expense_shape_wins_over_income() {
    let mut doc = expense_doc(10, 3);
    doc.push(field("income", Node::Integer(99)));
    assert!(matches!(parse(&doc), Ok(Record::Expense(_))));
}

#[test]
fn budget_with_checkpoint_fields_is_budget() {
    let mut doc = budget_doc(3);
    doc.push(field("assets", Node::Integer(1)));
    doc.push(field("day", Node::Date(3)));
    assert!(matches!(parse(&doc), Ok(Record::Budget(_))));
}

#[test]
fn checkpoint_shape_never_parses_as_budget() {
    let mut doc = checkpoint_doc(1, 2);
    doc.push(field("start", Node::Date(2)));
    assert!(matches!(parse(&doc), Ok(Record::Checkpoint(_))));
}

#[test]
fn unmatched_document_names_a_field_per_shape() {
    let doc = vec![field("category", text("x")), field("day", Node::Text("soon".to_string()))];
    match parse(&doc) {
        Err(ParseError::NoMatchingSchema(fields)) => {
            assert_eq!(fields, vec![FieldName::Amount, FieldName::Amount, FieldName::Start, FieldName::Assets]);
        }
        other => panic!("unexpected {:?}", other),
    }
}

#[test]
fn negative_amount_matches_no_shape() {
    let doc = vec![field("assets", Node::Integer(-1)), field("day", Node::Date(1))];
    assert!(parse(&doc).is_err());
    let big = vec![field("assets", Node::Integer(1 << 32)), field("day", Node::Date(1))];
    assert!(parse(&big).is_err());
}

#[test]
fn alloc_blob_round_trip() {
    let a = allocation(0.25, 1234);
    let b = encode_alloc(a);
    assert_eq!(b.len(), 9);
    assert_eq!(b[0], 1);
    assert_eq!(decode_alloc_blob(&b), Some(a));
    let mut other_version = b.clone();
    other_version[0] = 2;
    assert_eq!(decode_alloc_blob(&other_version), None);
}

#[test]
fn categories_blob_round_trip() {
    let cats = vec![("café".to_string(), allocation(0.1, 1)), ("rent".to_string(), allocation(0.5, 2))];
    let b = encode_categories(&cats).unwrap();
    assert_eq!(b[0], 1);
    assert_eq!(b[1], 5);
    assert_eq!(decode_categories_blob(&b), Some(cats));
    assert_eq!(decode_categories_blob(&b[..b.len() - 1].to_vec()), None);
}

#[test]
fn ensure_ready_twice_keeps_rows() {
    let mut l = ready();
    l.insert(Record::Checkpoint(Checkpoint { assets: 1, day: 2 })).unwrap();
    assert!(!l.ensure_ready());
    assert_eq!(l.latest_checkpoint(), Ok(Checkpoint { assets: 1, day: 2 }));
}

#[test]
fn insert_without_schema_fails() {
    let mut l = Ledger::new();
    assert!(!l.is_ready());
    assert_eq!(l.insert(Record::Checkpoint(Checkpoint { assets: 1, day: 2 })), Err(LedgerError::MissingTable));
    assert_eq!(l.latest_checkpoint(), Err(LedgerError::MissingTable));
}

#[test]
fn empty_tables_have_no_latest() {
    let l = ready();
    assert_eq!(l.latest_checkpoint(), Err(LedgerError::NoRows));
    assert_eq!(l.latest_budget().err(), Some(LedgerError::NoRows));
    assert_eq!(l.sum_income_since(0, 100), Ok(0));
}

#[test]
fn budget_round_trip() {
    let mut l = ready();
    l.insert(Record::Budget(budget(day(2021, 5, 5)))).unwrap();
    let b = l.latest_budget().unwrap();
    let want = budget(day(2021, 5, 5));
    assert_eq!(b.start, want.start);
    assert_eq!(b.savings, want.savings);
    assert_eq!(b.expenditure, want.expenditure);
    assert_eq!(b.spend_categories, want.spend_categories);
}

#[test]
fn latest_budget_is_most_recent_start() {
    let mut l = ready();
    for s in [day(2021, 1, 1), day(2022, 1, 1), day(2021, 6, 1)] {
        l.insert(Record::Budget(budget(s))).unwrap();
    }
    assert_eq!(l.latest_budget().unwrap().start, day(2022, 1, 1));
}

#[test]
fn corrupt_budget_blob_is_reported() {
    let mut l = ready();
    let row = BudgetRow { start: 1, savings: vec![1, 0], expenditure: vec![], spend_categories: vec![1] };
    l.insert_budget_row(row).unwrap();
    assert_eq!(l.latest_budget().err(), Some(LedgerError::CorruptBlob));
}

#[test]
fn sums_cover_inclusive_range() {
    let mut l = ready();
    for (a, d) in [(100, 9), (200, 10), (300, 15), (400, 16)] {
        l.insert(Record::Income(Income { amount: a, category: "x".to_string(), day: d })).unwrap();
        l.insert(Record::Expense(Expense { amount: a, category: "x".to_string(), detail: String::new(), day: d }))
            .unwrap();
    }
    assert_eq!(l.sum_income_since(10, 15), Ok(500));
    assert_eq!(l.sum_expense_since(10, 15), Ok(500));
}

fn anchored_ledger(incomes: &[u32], expenses: &[u32]) -> (Ledger, i32) {
    let d = day(2021, 2, 1);
    let mut l = ready();
    l.insert(Record::Checkpoint(Checkpoint { assets: 10000, day: d })).unwrap();
    l.insert(Record::Budget(budget(d))).unwrap();
    for a in incomes {
        l.insert(Record::Income(Income { amount: *a, category: "pay".to_string(), day: d + 1 })).unwrap();
    }
    for a in expenses {
        l.insert(Record::Expense(Expense { amount: *a, category: "f".to_string(), detail: "d".to_string(), day: d }))
            .unwrap();
    }
    l.insert(Record::Income(Income { amount: 999, category: "old".to_string(), day: d - 1 })).unwrap();
    (l, d + 30)
}

#[test]
fn aggregate_figures() {
    let (l, today) = anchored_ledger(&[2000, 3000], &[1000, 2000]);
    let s = summarize(&l, today).unwrap();
    assert_eq!(s.income_total, 5000);
    assert_eq!(s.expense_total, 3000);
    assert_eq!(s.savings_rate, Some(40));
    assert_eq!(s.projected_balance, 12000);
    let t = report(&l, today).unwrap();
    assert_eq!(
        t,
        "Checkpoint: 2021-02-01\nAssets at checkpoint: 100\nBudget in effect since: 2021-02-01\n\
         Income since checkpoint: 50\nExpenses since checkpoint: 30\nSavings rate: 40%\n\
         Projected balance: 120\n"
    );
}

#[test]
fn zero_income_has_no_savings_rate() {
    let (l, today) = anchored_ledger(&[], &[2500]);
    let s = summarize(&l, today).unwrap();
    assert_eq!(s.savings_rate, None);
    assert_eq!(s.projected_balance, 7500);
    assert!(report(&l, today).unwrap().contains("Savings rate: n/a (no income)\n"));
}

#[test]
fn overspending_gives_negative_figures() {
    let (l, today) = anchored_ledger(&[1000], &[12050]);
    let s = summarize(&l, today).unwrap();
    assert_eq!(s.savings_rate, Some(-1105));
    assert_eq!(s.projected_balance, -1050);
    let t = render(&s);
    assert!(t.contains("Savings rate: -1105%\n"));
    assert!(t.contains("Projected balance: -10\n"));
}

#[test]
fn render_shows_day_number_outside_calendar() {
    let s = Summary {
        checkpoint: Checkpoint { assets: 199, day: i32::MAX },
        budget_start: 1,
        income_total: 0,
        expense_total: 0,
        savings_rate: None,
        projected_balance: 199,
    };
    let t = render(&s);
    assert!(t.starts_with(&format!("Checkpoint: day {}\nAssets at checkpoint: 1\n", i32::MAX)));
    assert!(t.contains("Budget in effect since: 0001-01-01\n"));
}

#[test]
fn report_needs_checkpoint_and_budget() {
    let mut l = ready();
    assert_eq!(report(&l, 0), Err(ReportError::NoCheckpoint));
    l.insert(Record::Checkpoint(Checkpoint { assets: 1, day: 1 })).unwrap();
    assert_eq!(report(&l, 0), Err(ReportError::NoBudget));
    assert_eq!(report(&Ledger::new(), 0), Err(ReportError::Storage(LedgerError::MissingTable)));
}

#[test]
fn ingestion_isolates_failures() {
    let mut l = ready();
    let bad = vec![field("amount", text("lots"))];
    let docs = vec![expense_doc(100, 5), bad, checkpoint_doc(700, 6)];
    let diags = ingest(&mut l, &docs);
    assert_eq!(diags.len(), 1);
    assert_eq!(diags[0].index, 1);
    assert!(matches!(diags[0].error, IngestError::Parse(_)));
    assert_eq!(l.sum_expense_since(0, 10), Ok(100));
    assert_eq!(l.latest_checkpoint(), Ok(Checkpoint { assets: 700, day: 6 }));
}

#[test]
fn repeated_category_name_is_not_a_budget() {
    let mut doc = budget_doc(3);
    doc[3] = field(
        "spend_categories",
        Node::Table(vec![field("food", alloc_node(0.3, 500)), field("food", alloc_node(0.4, 0))]),
    );
    match parse(&doc) {
        Err(ParseError::NoMatchingSchema(fields)) => assert_eq!(fields[2], FieldName::SpendCategories),
        other => panic!("unexpected {:?}", other),
    }
}

#[test]
fn further_category_is_stored() {
    let mut l = ready();
    let mut b = budget(1);
    b.spend_categories.push(("x".repeat(10), allocation(0.0, 0)));
    assert_eq!(l.insert(Record::Budget(b)), Ok(()));
    assert_eq!(l.latest_budget().unwrap().spend_categories.len(), 3);
}
