use vstd::prelude::*;
use crate::doc::{Node, ParseError, is_budget, is_checkpoint, is_expense, is_income, parse};
use crate::ledger::{Ledger, LedgerError, LedgerView};

verus! {

/// Why one document was not stored.
#[derive(Clone, Debug)]
pub enum IngestError {
    Parse(ParseError),
    Storage(LedgerError),
}

/// A document that was not stored: its position in the batch and the cause.
#[derive(Clone, Debug)]
pub struct Diagnostic {
    pub index: usize,
    pub error: IngestError,
}

pub open spec fn table_len<T>(t: Option<Seq<T>>) -> nat {
    match t {
        Some(rows) => rows.len(),
        None => 0,
    }
}

pub open spec fn row_count(l: LedgerView) -> nat {
    table_len(l.expense) + table_len(l.income) + table_len(l.budget) + table_len(l.checkpoint)
}

pub open spec fn no_shape(d: Seq<(String, Node)>) -> bool {
    !is_expense(d) && !is_income(d) && !is_budget(d) && !is_checkpoint(d)
}

/// Parses and stores each document in turn. A document that fails gets one
/// diagnostic and the batch goes on: every other document is stored.
pub fn ingest(ledger: &mut Ledger, docs: &Vec<Vec<(String, Node)>>) -> (diags: Vec<Diagnostic>)
    ensures
        row_count(final(ledger)@) == row_count(old(ledger)@) + docs@.len() - diags@.len(),
        forall|k: int| 0 <= k < diags@.len() ==> (#[trigger] diags@[k]).index < docs@.len(),
        forall|k: int, m: int| 0 <= k < m < diags@.len() ==> diags@[k].index < diags@[m].index,
        forall|k: int|
            0 <= k < diags@.len() ==> ((#[trigger] diags@[k]).error is Parse <==> no_shape(
                docs@[diags@[k].index as int]@,
            )),
{
    let mut diags: Vec<Diagnostic> = Vec::new();
    let mut i: usize = 0;
    while i < docs.len()
        invariant
            i <= docs@.len(),
            diags@.len() <= i,
            row_count(ledger@) == row_count(old(ledger)@) + i - diags@.len(),
            forall|k: int| 0 <= k < diags@.len() ==> (#[trigger] diags@[k]).index < i,
            forall|k: int, m: int| 0 <= k < m < diags@.len() ==> diags@[k].index < diags@[m].index,
            forall|k: int|
                0 <= k < diags@.len() ==> ((#[trigger] diags@[k]).error is Parse <==> no_shape(
                    docs@[diags@[k].index as int]@,
                )),
        decreases docs@.len() - i,
    {
        let ghost prev = diags@;
        match parse(&docs[i]) {
            Ok(rec) => match ledger.insert(rec) {
                Ok(()) => {},
                Err(e) => {
                    diags.push(Diagnostic { index: i, error: IngestError::Storage(e) });
                },
            },
            Err(e) => {
                diags.push(Diagnostic { index: i, error: IngestError::Parse(e) });
            },
        }
        assert(forall|k: int| 0 <= k < prev.len() ==> diags@[k] == prev[k]);
        i = i + 1;
    }
    diags
}

} // verus!
