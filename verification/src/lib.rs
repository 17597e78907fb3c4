//! Retrieval pipeline for stock ticker symbols and their logo assets: the
//! tabular parser, the symbol extractor, the per-symbol fetch decisions, the
//! bounded-concurrency coordinator and the table serialisation.

pub mod text;
pub mod error;
pub mod table;
pub mod symbol;
pub mod fetch;
pub mod schedule;
pub mod sink;
pub mod run;
