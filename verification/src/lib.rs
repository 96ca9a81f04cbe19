//! Streaming export of a SQL query result into a delimited text file.
//!
//! The crate resolves a run configuration, pulls rows from a connected
//! source in bounded batches, encodes each row as one delimited record,
//! and writes the records through a byte sink, collecting counters that
//! a summary is derived from at the end of the run.

pub mod config;
pub mod db;
pub mod decode;
pub mod encode;
pub mod export;
pub mod resolve;
pub mod sink;

use vstd::prelude::*;

verus! {

} // verus!
