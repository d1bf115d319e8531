use vstd::prelude::*;

verus! {

/// An allocation of money: a proportion and a flat amount in cents.
///
/// The proportion is kept as the bit pattern of an `f32`, so the value is
/// carried and stored exactly without floating-point arithmetic.
#[derive(Clone, Copy, Debug, PartialEq, Eq, Structural)]
pub struct Alloc {
    /// This allocation as a proportion (the bits of an `f32`). Min or max by context.
    pub rate_bits: u32,
    /// This allocation as a flat value in cents. Min or max by context.
    pub flat: u32,
}

/// One spending event. Days are counted from the common era (day 1 is 0001-01-01).
#[derive(Clone, Debug)]
pub struct Expense {
    pub amount: u32,
    pub category: String,
    pub detail: String,
    pub day: i32,
}

/// One income event.
#[derive(Clone, Debug)]
pub struct Income {
    pub amount: u32,
    pub category: String,
    pub day: i32,
}

/// Budgetary targets effective from `start` until a later budget supersedes them.
#[derive(Clone, Debug)]
pub struct Budget {
    pub start: i32,
    /// The target proportion and flat amounts of savings.
    pub savings: Alloc,
    /// The target proportion and flat amounts of spending.
    pub expenditure: Alloc,
    /// Spending allocations by category.
    pub spend_categories: Vec<(String, Alloc)>,
}

/// Re-sets the exact quantity of liquid assets at a single day.
#[derive(Clone, Copy, Debug, PartialEq, Eq, Structural)]
pub struct Checkpoint {
    pub assets: u32,
    pub day: i32,
}

/// One ingested record, of one of the four shapes.
#[derive(Clone, Debug)]
pub enum Record {
    Expense(Expense),
    Income(Income),
    Budget(Budget),
    Checkpoint(Checkpoint),
}

pub ghost struct ExpenseView {
    pub amount: u32,
    pub category: Seq<char>,
    pub detail: Seq<char>,
    pub day: i32,
}

pub ghost struct IncomeView {
    pub amount: u32,
    pub category: Seq<char>,
    pub day: i32,
}

pub ghost struct BudgetView {
    pub start: i32,
    pub savings: Alloc,
    pub expenditure: Alloc,
    pub spend_categories: Seq<(Seq<char>, Alloc)>,
}

pub open spec fn categories_view(v: Seq<(String, Alloc)>) -> Seq<(Seq<char>, Alloc)> {
    v.map_values(|p: (String, Alloc)| (p.0@, p.1))
}

impl View for Expense {
    type V = ExpenseView;

    open spec fn view(&self) -> ExpenseView {
        ExpenseView {
            amount: self.amount,
            category: self.category@,
            detail: self.detail@,
            day: self.day,
        }
    }
}

impl View for Income {
    type V = IncomeView;

    open spec fn view(&self) -> IncomeView {
        IncomeView { amount: self.amount, category: self.category@, day: self.day }
    }
}

impl View for Budget {
    type V = BudgetView;

    open spec fn view(&self) -> BudgetView {
        BudgetView {
            start: self.start,
            savings: self.savings,
            expenditure: self.expenditure,
            spend_categories: categories_view(self.spend_categories@),
        }
    }
}

} // verus!
