//! Run configuration: source settings, export settings, logging settings.
//!
//! A fully merged configuration is immutable for the duration of one
//! export run.  The well-formedness predicates state the bounds that the
//! rest of the pipeline relies on: the fetch batch size and the progress
//! interval are at least one.

use vstd::prelude::*;

verus! {

/// One run's fully merged settings.
#[derive(Debug, Clone)]
pub struct Config {
    pub database: DatabaseConfig,
    pub export: ExportConfig,
    pub logging: LoggingConfig,
}

/// Where log lines go and how chatty they are.
#[derive(Debug, Clone)]
pub struct LoggingConfig {
    pub log_file: Option<String>,
    pub verbose: bool,
}

/// How to reach the data source and how many rows to pull per round trip.
#[derive(Debug, Clone)]
pub struct DatabaseConfig {
    pub db_type: String,
    pub connection_string: String,
    pub username: String,
    pub password: String,
    pub fetch_size: usize,
}

/// What to export and how to write it out.
#[derive(Debug, Clone)]
pub struct ExportConfig {
    pub query: String,
    pub output_file: String,
    pub format: ExportFormat,
    pub delimiter: String,
    pub show_progress: bool,
    pub include_header: bool,
    pub buffer_size: usize,
    pub compression: CompressionType,
    pub progress_interval: u64,
}

/// The three record format variants.  `Custom` encodes exactly like
/// `Csv`; the two differ only in intent (an explicitly chosen delimiter).
#[derive(Debug, Clone, Copy, PartialEq, Eq, Structural)]
pub enum ExportFormat {
    Csv,
    Tsv,
    Custom,
}

/// Whether the output stream is compressed.
#[derive(Debug, Clone, Copy, PartialEq, Eq, Structural)]
pub enum CompressionType {
    Plain,
    Gzip,
}

impl DatabaseConfig {
    /// The batch size must allow at least one row per round trip.
    pub open spec fn wf(&self) -> bool {
        self.fetch_size >= 1
    }
}

impl ExportConfig {
    /// A progress report every zero rows would never make sense.
    pub open spec fn wf(&self) -> bool {
        self.progress_interval >= 1
    }
}

/// The delimiter assumed when none is configured: a control byte that is
/// vanishingly unlikely to occur inside field data.
pub fn default_delimiter() -> (r: String)
    ensures
        r@.len() == 1,
        r@[0] == '\x03',
{
    proof {
        reveal_strlit("\x03");
    }
    String::from_str("\x03")
}

/// The output buffer size assumed when none is configured: one mebibyte.
pub fn default_buffer_size() -> (r: usize)
    ensures
        r == 1048576,
{
    1024 * 1024
}

/// The progress interval assumed when none is configured: a report every
/// million rows.
pub fn default_progress_interval() -> (r: u64)
    ensures
        r == 1000000,
{
    1_000_000
}

impl Default for LoggingConfig {
    /// No log file, quiet.
    fn default() -> (r: Self)
        ensures
            r.log_file is None,
            !r.verbose,
    {
        Self { log_file: None, verbose: false }
    }
}

impl Default for CompressionType {
    /// Uncompressed output.
    fn default() -> (r: Self)
        ensures
            r is Plain,
    {
        CompressionType::Plain
    }
}

impl Default for DatabaseConfig {
    /// A local default source with no credentials and the default batch
    /// size of one thousand rows.
    fn default() -> (r: Self)
        ensures
            r.db_type@ == "oracle"@,
            r.connection_string@ == "localhost:1521/ORCL"@,
            r.username@ == ""@,
            r.password@ == ""@,
            r.fetch_size == 1000,
            r.wf(),
    {
        Self {
            db_type: String::from_str("oracle"),
            connection_string: String::from_str("localhost:1521/ORCL"),
            username: String::from_str(""),
            password: String::from_str(""),
            fetch_size: 1000,
        }
    }
}

} // verus!
