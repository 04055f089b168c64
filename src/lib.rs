//! Batched CSV source and sink adapters for a concurrent ETL pipeline.
//!
//! The library holds the decisions of both adapters: how decoded rows are
//! grouped into bounded batches for dispatch (`fill`), and when a sink writes
//! its header row (`pour`). Reading and writing files, decoding and encoding
//! rows, and handing batches to worker threads are done by the caller.
pub mod batch;
pub mod fill;
pub mod pour;

pub use fill::{BatchFill, FillCsTea, FillCsvArg, FillStep};
pub use pour::{Line, PourCsTea, PourCsvArg, PourLedger};
