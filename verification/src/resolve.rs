//! Configuration resolution: merge an optional file configuration with
//! the command-line values into the one configuration a run uses.
//!
//! Precedence: a command-line value overrides the file value only when
//! it differs from that flag's hard-coded default, because a value
//! equal to the default cannot be told apart from an absent one.  When
//! no file is given, the connection descriptor, the credentials, the
//! query and the output path must come from the command line, and each
//! missing one is a configuration error.  The query field is resolved
//! separately and exactly once, after all overrides: when it names an
//! existing file, the trimmed file contents replace it.

use crate::config::{CompressionType, Config, ExportFormat};
use vstd::prelude::*;

verus! {

/// The command-line values of one invocation.  An `Option` is `None`
/// when the flag was not passed; the plain fields carry their clap
/// defaults, so "not passed" and "passed the default" coincide.
pub struct CliOverrides {
    pub db_type: Option<String>,
    pub conn: Option<String>,
    pub username: Option<String>,
    pub password: Option<String>,
    pub query: Option<String>,
    pub output: Option<String>,
    pub format: String,
    pub delimiter: Option<String>,
    pub progress: bool,
    pub fetch: usize,
    pub header: bool,
    pub buffer_size: usize,
    pub compression: String,
    pub log_file: Option<String>,
    pub progress_interval: u64,
    pub verbose: bool,
}

/// Why a merged configuration was refused.
#[derive(Debug, Clone, PartialEq, Eq, Structural)]
pub enum ConfigError {
    MissingConnectionString,
    MissingUsername,
    MissingPassword,
    MissingQuery,
    MissingOutputFile,
    InvalidFetchSize,
    InvalidProgressInterval,
}

impl ConfigError {
    /// A human-readable description of the error.
    pub fn message(&self) -> (r: String)
        ensures
            self is MissingConnectionString ==> r@ == "Connection string is required"@,
            self is MissingUsername ==> r@ == "Username is required"@,
            self is MissingPassword ==> r@ == "Password is required"@,
            self is MissingQuery ==> r@ == "Query is required"@,
            self is MissingOutputFile ==> r@ == "Output file is required"@,
            self is InvalidFetchSize ==> r@ == "Fetch size must be at least 1"@,
            self is InvalidProgressInterval ==> r@ == "Progress interval must be at least 1"@,
    {
        match self {
            ConfigError::MissingConnectionString => String::from_str(
                "Connection string is required",
            ),
            ConfigError::MissingUsername => String::from_str("Username is required"),
            ConfigError::MissingPassword => String::from_str("Password is required"),
            ConfigError::MissingQuery => String::from_str("Query is required"),
            ConfigError::MissingOutputFile => String::from_str("Output file is required"),
            ConfigError::InvalidFetchSize => String::from_str("Fetch size must be at least 1"),
            ConfigError::InvalidProgressInterval => String::from_str(
                "Progress interval must be at least 1",
            ),
        }
    }
}

/// ASCII lowercasing of one character.
pub open spec fn lower_char(c: char) -> char {
    if 'A' <= c && c <= 'Z' {
        ((c as u32) + 32) as char
    } else {
        c
    }
}

/// ASCII lowercasing of a character sequence.
pub open spec fn lower_of(s: Seq<char>) -> Seq<char> {
    s.map_values(|c: char| lower_char(c))
}

/// Does `a` lowercase to `b`?
fn char_lower_matches(a: char, b: char) -> (r: bool)
    ensures
        r == (lower_char(a) == b),
{
    if 'A' <= a && a <= 'Z' {
        (a as u32) + 32 == (b as u32)
    } else {
        a == b
    }
}

/// Does `s` equal the (already lowercase) word `t`, ignoring ASCII
/// case?
fn matches_lower(s: &str, t: &str) -> (r: bool)
    ensures
        r == (lower_of(s@) == t@),
{
    let n = s.unicode_len();
    let m = t.unicode_len();
    if n != m {
        proof {
            assert(lower_of(s@).len() == s@.len());
        }
        return false;
    }
    let mut i: usize = 0;
    while i < n
        invariant
            i <= n,
            n == s@.len(),
            n == t@.len(),
            forall|k: int| 0 <= k < i ==> lower_char(s@[k]) == t@[k],
        decreases n - i,
    {
        if !char_lower_matches(s.get_char(i), t.get_char(i)) {
            proof {
                assert(lower_of(s@)[i as int] == lower_char(s@[i as int]));
            }
            return false;
        }
        i += 1;
    }
    proof {
        assert(lower_of(s@) =~= t@);
    }
    true
}

/// The format a format word selects; an unknown word keeps `fallback`.
pub open spec fn format_of(s: Seq<char>, fallback: ExportFormat) -> ExportFormat {
    if lower_of(s) == "csv"@ {
        ExportFormat::Csv
    } else if lower_of(s) == "tsv"@ {
        ExportFormat::Tsv
    } else if lower_of(s) == "custom"@ {
        ExportFormat::Custom
    } else {
        fallback
    }
}

/// Parse a format word, ignoring ASCII case.
pub fn parse_format(s: &str, fallback: ExportFormat) -> (r: ExportFormat)
    ensures
        r == format_of(s@, fallback),
{
    if matches_lower(s, "csv") {
        ExportFormat::Csv
    } else if matches_lower(s, "tsv") {
        ExportFormat::Tsv
    } else if matches_lower(s, "custom") {
        ExportFormat::Custom
    } else {
        fallback
    }
}

/// The compression a compression word selects; any word other than
/// `gzip` keeps `fallback`.
pub open spec fn compression_of(s: Seq<char>, fallback: CompressionType) -> CompressionType {
    if lower_of(s) == "gzip"@ {
        CompressionType::Gzip
    } else {
        fallback
    }
}

/// Parse a compression word, ignoring ASCII case.
pub fn parse_compression(s: &str, fallback: CompressionType) -> (r: CompressionType)
    ensures
        r == compression_of(s@, fallback),
{
    if matches_lower(s, "gzip") {
        CompressionType::Gzip
    } else {
        fallback
    }
}

/// The characters a query file is trimmed of: the Unicode
/// `White_Space` set, the same set `str::trim` removes — the ASCII
/// whitespace controls and space, next line, no-break space, ogham
/// space mark, the en-quad..hair-space range, the line and paragraph
/// separators, narrow no-break space, medium mathematical space, and
/// ideographic space.
pub open spec fn is_space(c: char) -> bool {
    ||| '\u{9}' <= c && c <= '\u{d}'
    ||| c == ' '
    ||| c == '\u{85}'
    ||| c == '\u{a0}'
    ||| c == '\u{1680}'
    ||| '\u{2000}' <= c && c <= '\u{200a}'
    ||| c == '\u{2028}'
    ||| c == '\u{2029}'
    ||| c == '\u{202f}'
    ||| c == '\u{205f}'
    ||| c == '\u{3000}'
}

/// The sequence with leading and trailing whitespace removed.
pub open spec fn trimmed(s: Seq<char>) -> Seq<char>
    decreases s.len(),
{
    if s.len() == 0 {
        s
    } else if is_space(s.first()) {
        trimmed(s.drop_first())
    } else if is_space(s.last()) {
        trimmed(s.drop_last())
    } else {
        s
    }
}

/// Is this character whitespace in the sense of [`is_space`]?
fn is_space_char(c: char) -> (r: bool)
    ensures
        r == is_space(c),
{
    ('\u{9}' <= c && c <= '\u{d}') || c == ' ' || c == '\u{85}' || c == '\u{a0}' || c
        == '\u{1680}' || ('\u{2000}' <= c && c <= '\u{200a}') || c == '\u{2028}' || c == '\u{2029}'
        || c == '\u{202f}' || c == '\u{205f}' || c == '\u{3000}'
}

/// A copy of `s` with leading and trailing whitespace removed.
pub fn trim_text(s: &str) -> (r: String)
    ensures
        r@ == trimmed(s@),
{
    let n = s.unicode_len();
    let mut start: usize = 0;
    let mut end: usize = n;
    proof {
        assert(s@.subrange(0, s@.len() as int) =~= s@);
    }
    while start < end && is_space_char(s.get_char(start))
        invariant
            0 <= start <= end <= n,
            n == s@.len(),
            trimmed(s@) == trimmed(s@.subrange(start as int, end as int)),
        decreases end - start,
    {
        proof {
            let sub = s@.subrange(start as int, end as int);
            assert(sub.drop_first() =~= s@.subrange(start + 1, end as int));
        }
        start += 1;
    }
    while end > start && is_space_char(s.get_char(end - 1))
        invariant
            0 <= start <= end <= n,
            n == s@.len(),
            trimmed(s@) == trimmed(s@.subrange(start as int, end as int)),
            start < end ==> !is_space(s@[start as int]),
        decreases end - start,
    {
        proof {
            let sub = s@.subrange(start as int, end as int);
            assert(sub.first() == s@[start as int]);
            assert(sub.drop_last() =~= s@.subrange(start as int, end - 1));
        }
        end -= 1;
    }
    proof {
        let sub = s@.subrange(start as int, end as int);
        if start < end {
            assert(sub.first() == s@[start as int]);
            assert(sub.last() == s@[end - 1]);
            assert(trimmed(sub) == sub);
        } else {
            assert(sub =~= Seq::<char>::empty());
        }
    }
    let piece = s.substring_char(start, end);
    piece.to_owned()
}

/// The query text a run executes: when the configured value named an
/// existing file, its trimmed contents; otherwise the value itself.
/// The caller reads the file, this settles what the query becomes.
pub fn resolve_query_text(raw: String, file_contents: Option<String>) -> (r: String)
    ensures
        file_contents matches Some(c) ==> r@ == trimmed(c@),
        file_contents is None ==> r@ == raw@,
{
    match file_contents {
        Some(c) => trim_text(c.as_str()),
        Option::None => raw,
    }
}

/// A required command-line value is missing and no file supplies it.
pub open spec fn config_fault(file: Option<Config>, cli: CliOverrides) -> Option<ConfigError> {
    if file is None && cli.conn is None {
        Some(ConfigError::MissingConnectionString)
    } else if file is None && cli.username is None {
        Some(ConfigError::MissingUsername)
    } else if file is None && cli.password is None {
        Some(ConfigError::MissingPassword)
    } else if file is None && cli.query is None {
        Some(ConfigError::MissingQuery)
    } else if file is None && cli.output is None {
        Some(ConfigError::MissingOutputFile)
    } else if merged_fetch_size(file, cli) == 0 {
        Some(ConfigError::InvalidFetchSize)
    } else if merged_progress_interval(file, cli) == 0 {
        Some(ConfigError::InvalidProgressInterval)
    } else {
        Option::None
    }
}

/// The fetch size after merging: the command-line value when it is not
/// the default of one thousand, else the file's.
pub open spec fn merged_fetch_size(file: Option<Config>, cli: CliOverrides) -> usize {
    match file {
        Some(f) => if cli.fetch != 1000 {
            cli.fetch
        } else {
            f.database.fetch_size
        },
        None => cli.fetch,
    }
}

/// The progress interval after merging: the command-line value when it
/// is not the default of one million, else the file's.
pub open spec fn merged_progress_interval(file: Option<Config>, cli: CliOverrides) -> u64 {
    match file {
        Some(f) => if cli.progress_interval != 1000000 {
            cli.progress_interval
        } else {
            f.export.progress_interval
        },
        None => cli.progress_interval,
    }
}

/// The view of a string override: the command-line value when given,
/// else the file's.
pub open spec fn override_str(file_val: Seq<char>, cli_val: Option<String>) -> Seq<char> {
    match cli_val {
        Some(v) => v@,
        None => file_val,
    }
}

/// Merge the file configuration, when one was given, with the
/// command-line values, under the documented precedence, and refuse a
/// merge that leaves a required value missing or a bound invalid.  The
/// query field is carried through verbatim; its file resolution is a
/// separate, later step.
pub fn resolve_config(file: Option<Config>, cli: CliOverrides) -> (r: Result<Config, ConfigError>)
    ensures
        config_fault(file, cli) matches Some(e) ==> r == Err::<Config, ConfigError>(e),
        config_fault(file, cli) is None ==> r is Ok,
        r matches Ok(cfg) ==> {
            &&& cfg.database.fetch_size == merged_fetch_size(file, cli)
            &&& cfg.export.progress_interval == merged_progress_interval(file, cli)
            &&& cfg.database.wf()
            &&& cfg.export.wf()
            &&& match file {
                Some(f) => {
                    &&& cfg.database.db_type@ == override_str(f.database.db_type@, cli.db_type)
                    &&& cfg.database.connection_string@ == override_str(
                        f.database.connection_string@,
                        cli.conn,
                    )
                    &&& cfg.database.username@ == override_str(f.database.username@, cli.username)
                    &&& cfg.database.password@ == override_str(f.database.password@, cli.password)
                    &&& cfg.export.query@ == override_str(f.export.query@, cli.query)
                    &&& cfg.export.output_file@ == override_str(f.export.output_file@, cli.output)
                    &&& cfg.export.format == (if cli.format@ == "csv"@ {
                        f.export.format
                    } else {
                        format_of(cli.format@, f.export.format)
                    })
                    &&& cfg.export.delimiter@ == override_str(f.export.delimiter@, cli.delimiter)
                    &&& cfg.export.show_progress == (f.export.show_progress || cli.progress)
                    &&& cfg.export.include_header == (f.export.include_header || cli.header)
                    &&& cfg.export.buffer_size == (if cli.buffer_size != 1048576 {
                        cli.buffer_size
                    } else {
                        f.export.buffer_size
                    })
                    &&& cfg.export.compression == (if cli.compression@ == "none"@ {
                        f.export.compression
                    } else {
                        compression_of(cli.compression@, f.export.compression)
                    })
                    &&& cfg.logging.log_file == (if cli.log_file is Some {
                        cli.log_file
                    } else {
                        f.logging.log_file
                    })
                    &&& cfg.logging.verbose == (f.logging.verbose || cli.verbose)
                },
                None => {
                    &&& cfg.database.db_type@ == (match cli.db_type {
                        Some(v) => v@,
                        None => "oracle"@,
                    })
                    &&& cli.conn matches Some(v) && cfg.database.connection_string@ == v@
                    &&& cli.username matches Some(v) && cfg.database.username@ == v@
                    &&& cli.password matches Some(v) && cfg.database.password@ == v@
                    &&& cli.query matches Some(v) && cfg.export.query@ == v@
                    &&& cli.output matches Some(v) && cfg.export.output_file@ == v@
                    &&& cfg.export.format == format_of(cli.format@, ExportFormat::Csv)
                    &&& cfg.export.delimiter@ == (match cli.delimiter {
                        Some(v) => v@,
                        None => "\x03"@,
                    })
                    &&& cfg.export.show_progress == cli.progress
                    &&& cfg.export.include_header == cli.header
                    &&& cfg.export.buffer_size == cli.buffer_size
                    &&& cfg.export.compression == compression_of(
                        cli.compression@,
                        CompressionType::Plain,
                    )
                    &&& cfg.logging.log_file == cli.log_file
                    &&& cfg.logging.verbose == cli.verbose
                },
            }
        },
{
    match file {
        Some(f) => {
            let mut db_cfg = f.database;
            let mut exp_cfg = f.export;
            let mut log_cfg = f.logging;

            match cli.db_type {
                Some(v) => {
                    db_cfg.db_type = v;
                },
                Option::None => {},
            }
            match cli.conn {
                Some(v) => {
                    db_cfg.connection_string = v;
                },
                Option::None => {},
            }
            match cli.username {
                Some(v) => {
                    db_cfg.username = v;
                },
                Option::None => {},
            }
            match cli.password {
                Some(v) => {
                    db_cfg.password = v;
                },
                Option::None => {},
            }
            if cli.fetch != 1000 {
                db_cfg.fetch_size = cli.fetch;
            }
            match cli.query {
                Some(v) => {
                    exp_cfg.query = v;
                },
                Option::None => {},
            }
            match cli.output {
                Some(v) => {
                    exp_cfg.output_file = v;
                },
                Option::None => {},
            }
            let csv_word = String::from_str("csv");
            if !(cli.format == csv_word) {
                exp_cfg.format = parse_format(cli.format.as_str(), exp_cfg.format);
            }
            match cli.delimiter {
                Some(v) => {
                    exp_cfg.delimiter = v;
                },
                Option::None => {},
            }
            if cli.progress {
                exp_cfg.show_progress = true;
            }
            if cli.header {
                exp_cfg.include_header = true;
            }
            if cli.buffer_size != 1048576 {
                exp_cfg.buffer_size = cli.buffer_size;
            }
            let none_word = String::from_str("none");
            if !(cli.compression == none_word) {
                exp_cfg.compression = parse_compression(
                    cli.compression.as_str(),
                    exp_cfg.compression,
                );
            }
            if cli.progress_interval != 1000000 {
                exp_cfg.progress_interval = cli.progress_interval;
            }
            match cli.log_file {
                Some(v) => {
                    log_cfg.log_file = Some(v);
                },
                Option::None => {},
            }
            if cli.verbose {
                log_cfg.verbose = true;
            }
            if db_cfg.fetch_size == 0 {
                return Err(ConfigError::InvalidFetchSize);
            }
            if exp_cfg.progress_interval == 0 {
                return Err(ConfigError::InvalidProgressInterval);
            }
            Ok(Config { database: db_cfg, export: exp_cfg, logging: log_cfg })
        },
        Option::None => {
            let connection_string = match cli.conn {
                Some(v) => v,
                Option::None => {
                    return Err(ConfigError::MissingConnectionString);
                },
            };
            let username = match cli.username {
                Some(v) => v,
                Option::None => {
                    return Err(ConfigError::MissingUsername);
                },
            };
            let password = match cli.password {
                Some(v) => v,
                Option::None => {
                    return Err(ConfigError::MissingPassword);
                },
            };
            let query = match cli.query {
                Some(v) => v,
                Option::None => {
                    return Err(ConfigError::MissingQuery);
                },
            };
            let output_file = match cli.output {
                Some(v) => v,
                Option::None => {
                    return Err(ConfigError::MissingOutputFile);
                },
            };
            if cli.fetch == 0 {
                return Err(ConfigError::InvalidFetchSize);
            }
            if cli.progress_interval == 0 {
                return Err(ConfigError::InvalidProgressInterval);
            }
            let db_type = match cli.db_type {
                Some(v) => v,
                Option::None => String::from_str("oracle"),
            };
            let delimiter = match cli.delimiter {
                Some(v) => v,
                Option::None => String::from_str("\x03"),
            };
            let format = parse_format(cli.format.as_str(), ExportFormat::Csv);
            let compression = parse_compression(cli.compression.as_str(), CompressionType::Plain);
            Ok(
                Config {
                    database: crate::config::DatabaseConfig {
                        db_type,
                        connection_string,
                        username,
                        password,
                        fetch_size: cli.fetch,
                    },
                    export: crate::config::ExportConfig {
                        query,
                        output_file,
                        format,
                        delimiter,
                        show_progress: cli.progress,
                        include_header: cli.header,
                        buffer_size: cli.buffer_size,
                        compression,
                        progress_interval: cli.progress_interval,
                    },
                    logging: crate::config::LoggingConfig {
                        log_file: cli.log_file,
                        verbose: cli.verbose,
                    },
                },
            )
        },
    }
}

} // verus!
