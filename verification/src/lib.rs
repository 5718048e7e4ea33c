//! Partitioning and reconciliation of isotope-turnover data: spreadsheet
//! parsing, missing-value detection, per-peptide dataset isolation and
//! patch-based merging of rate-constant results.

pub mod csv_io;
pub mod engine;
pub mod grouper;
pub mod input;
pub mod isolator;
pub mod missing;
pub mod naming;
pub mod parser;
pub mod patcher;
pub mod pipeline;
pub mod progress;
pub mod results;
pub mod serializer;
pub mod table;
pub mod text;
