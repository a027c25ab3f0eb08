//! Host side of a script test harness: test-file discovery, the per-sandbox
//! test ledger and its native bindings, and the batch report.

pub mod discovery;
pub mod json;
pub mod ledger;
pub mod report;
pub mod text;
