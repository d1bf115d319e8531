//! Personal-finance ledger: ingestion of weakly-typed records, a small
//! relational store with binary-encoded nested values, and a solvency report.

pub mod record;
pub mod doc;
pub mod blob;
pub mod ledger;
pub mod report;
pub mod ingest;

pub use record::Checkpoint;
pub use report::report;
