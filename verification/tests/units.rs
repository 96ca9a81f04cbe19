use rowexport::config::{
    default_buffer_size, default_delimiter, default_progress_interval, CompressionType,
    Config, DatabaseConfig, ExportConfig, ExportFormat, LoggingConfig,
};
use rowexport::encode::encode_record;
use rowexport::export::Exporter;
use rowexport::resolve::{
    parse_compression, parse_format, resolve_config, resolve_query_text, trim_text,
    CliOverrides, ConfigError,
};

fn s(x: &str) -> String {
    x.to_string()
}

fn no_cli() -> CliOverrides {
    CliOverrides {
        db_type: None,
        conn: None,
        username: None,
        password: None,
        query: None,
        output: None,
        format: s("csv"),
        delimiter: None,
        progress: false,
        fetch: 1000,
        header: false,
        buffer_size: 1048576,
        compression: s("none"),
        log_file: None,
        progress_interval: 1000000,
        verbose: false,
    }
}

fn full_cli() -> CliOverrides {
    CliOverrides {
        conn: Some(s("db:1521/X")),
        username: Some(s("u")),
        password: Some(s("p")),
        query: Some(s("SELECT 1")),
        output: Some(s("o.csv")),
        ..no_cli()
    }
}

fn file_config() -> Config {
    Config {
        database: DatabaseConfig {
            db_type: s("oracle"),
            connection_string: s("filehost:1521/F"),
            username: s("fileuser"),
            password: s("filepass"),
            fetch_size: 500,
        },
        export: ExportConfig {
            query: s("SELECT * FROM F"),
            output_file: s("file.csv"),
            format: ExportFormat::Tsv,
            delimiter: s(";"),
            show_progress: false,
            include_header: false,
            buffer_size: 4096,
            compression: CompressionType::Plain,
            progress_interval: 50,
        },
        logging: LoggingConfig { log_file: None, verbose: false },
    }
}

fn exporter_with(format: ExportFormat, delimiter: &str) -> Exporter {
    Exporter::new(ExportConfig {
        query: s("q"),
        output_file: s("o"),
        format,
        delimiter: s(delimiter),
        show_progress: false,
        include_header: false,
        buffer_size: 1,
        compression: CompressionType::Plain,
        progress_interval: 1,
    })
}

#[test]
fn delimiter_tsv_is_always_tab() {
    assert_eq!(exporter_with(ExportFormat::Tsv, ";").get_delimiter(), b'\t');
    assert_eq!(exporter_with(ExportFormat::Tsv, "xy").get_delimiter(), b'\t');
}

#[test]
fn delimiter_single_byte_is_kept() {
    assert_eq!(exporter_with(ExportFormat::Csv, ";").get_delimiter(), b';');
    assert_eq!(exporter_with(ExportFormat::Custom, "|").get_delimiter(), b'|');
    assert_eq!(exporter_with(ExportFormat::Csv, "\x03").get_delimiter(), 3);
}

#[test]
fn delimiter_other_lengths_fall_back_to_comma() {
    assert_eq!(exporter_with(ExportFormat::Csv, "").get_delimiter(), b',');
    assert_eq!(exporter_with(ExportFormat::Csv, "ab").get_delimiter(), b',');
    assert_eq!(exporter_with(ExportFormat::Custom, "\u{00e9}").get_delimiter(), b',');
}

#[test]
fn encode_plain_record() {
    let rec = encode_record(&vec![s("a"), s("b")], b',');
    assert_eq!(rec, b"a,b\n".to_vec());
}

#[test]
fn encode_quotes_delimiter_quote_and_newlines() {
    assert_eq!(encode_record(&vec![s("a,b")], b','), b"\"a,b\"\n".to_vec());
    assert_eq!(
        encode_record(&vec![s("a\"b")], b','),
        b"\"a\"\"b\"\n".to_vec()
    );
    assert_eq!(
        encode_record(&vec![s("a\nb")], b','),
        b"\"a\nb\"\n".to_vec()
    );
    assert_eq!(
        encode_record(&vec![s("a\rb")], b','),
        b"\"a\rb\"\n".to_vec()
    );
}

#[test]
fn encode_single_empty_field_is_quoted() {
    assert_eq!(encode_record(&vec![s("")], b','), b"\"\"\n".to_vec());
    assert_eq!(encode_record(&vec![], b','), b"\"\"\n".to_vec());
    assert_eq!(encode_record(&vec![s(""), s("")], b','), b",\n".to_vec());
}

#[test]
fn parse_format_ignores_ascii_case() {
    assert!(matches!(
        parse_format("TSV", ExportFormat::Csv),
        ExportFormat::Tsv
    ));
    assert!(matches!(
        parse_format("Custom", ExportFormat::Csv),
        ExportFormat::Custom
    ));
    assert!(matches!(
        parse_format("bogus", ExportFormat::Tsv),
        ExportFormat::Tsv
    ));
}

#[test]
fn parse_compression_recognises_gzip() {
    assert!(matches!(
        parse_compression("GZip", CompressionType::Plain),
        CompressionType::Gzip
    ));
    assert!(matches!(
        parse_compression("zip", CompressionType::Plain),
        CompressionType::Plain
    ));
}

#[test]
fn trim_strips_surrounding_whitespace() {
    assert_eq!(trim_text("  SELECT 1 FROM DUAL\n"), "SELECT 1 FROM DUAL");
    assert_eq!(trim_text("\t\r\n x \t"), "x");
    assert_eq!(trim_text("   "), "");
    assert_eq!(trim_text("inner  space"), "inner  space");
}

#[test]
fn query_file_contents_replace_the_path() {
    let resolved = resolve_query_text(
        s("/tmp/query.sql"),
        Some(s("SELECT 1 FROM DUAL\n")),
    );
    assert_eq!(resolved, "SELECT 1 FROM DUAL");
}

#[test]
fn query_without_file_is_verbatim() {
    let resolved = resolve_query_text(s("SELECT 2 FROM DUAL"), None);
    assert_eq!(resolved, "SELECT 2 FROM DUAL");
}

#[test]
fn missing_values_error_in_order() {
    let mut cli = no_cli();
    assert_eq!(
        resolve_config(None, cli).unwrap_err(),
        ConfigError::MissingConnectionString
    );
    cli = CliOverrides { conn: Some(s("c")), ..no_cli() };
    assert_eq!(
        resolve_config(None, cli).unwrap_err(),
        ConfigError::MissingUsername
    );
    cli = CliOverrides { conn: Some(s("c")), username: Some(s("u")), ..no_cli() };
    assert_eq!(
        resolve_config(None, cli).unwrap_err(),
        ConfigError::MissingPassword
    );
    cli = CliOverrides {
        conn: Some(s("c")),
        username: Some(s("u")),
        password: Some(s("p")),
        ..no_cli()
    };
    assert_eq!(
        resolve_config(None, cli).unwrap_err(),
        ConfigError::MissingQuery
    );
    cli = CliOverrides {
        conn: Some(s("c")),
        username: Some(s("u")),
        password: Some(s("p")),
        query: Some(s("q")),
        ..no_cli()
    };
    assert_eq!(
        resolve_config(None, cli).unwrap_err(),
        ConfigError::MissingOutputFile
    );
}

#[test]
fn invalid_bounds_are_refused() {
    let cli = CliOverrides { fetch: 0, ..full_cli() };
    assert_eq!(
        resolve_config(None, cli).unwrap_err(),
        ConfigError::InvalidFetchSize
    );
    let cli = CliOverrides { progress_interval: 0, ..full_cli() };
    assert_eq!(
        resolve_config(None, cli).unwrap_err(),
        ConfigError::InvalidProgressInterval
    );
}

#[test]
fn cli_only_resolution_uses_defaults() {
    let cfg = resolve_config(None, full_cli()).unwrap();
    assert_eq!(cfg.database.db_type, "oracle");
    assert_eq!(cfg.database.connection_string, "db:1521/X");
    assert_eq!(cfg.database.fetch_size, 1000);
    assert!(matches!(cfg.export.format, ExportFormat::Csv));
    assert_eq!(cfg.export.delimiter, "\x03");
    assert!(matches!(cfg.export.compression, CompressionType::Plain));
    assert_eq!(cfg.export.buffer_size, 1048576);
    assert_eq!(cfg.export.progress_interval, 1000000);
    assert!(!cfg.export.include_header);
}

#[test]
fn file_values_survive_default_cli() {
    let cfg = resolve_config(Some(file_config()), no_cli()).unwrap();
    assert_eq!(cfg.database.connection_string, "filehost:1521/F");
    assert_eq!(cfg.database.username, "fileuser");
    assert_eq!(cfg.database.fetch_size, 500);
    assert_eq!(cfg.export.query, "SELECT * FROM F");
    assert!(matches!(cfg.export.format, ExportFormat::Tsv));
    assert_eq!(cfg.export.delimiter, ";");
    assert_eq!(cfg.export.buffer_size, 4096);
    assert_eq!(cfg.export.progress_interval, 50);
}

#[test]
fn non_default_cli_overrides_file() {
    let cli = CliOverrides {
        conn: Some(s("clihost:1521/C")),
        username: Some(s("cliuser")),
        fetch: 250,
        format: s("custom"),
        delimiter: Some(s("|")),
        progress: true,
        header: true,
        buffer_size: 8192,
        compression: s("gzip"),
        progress_interval: 10,
        verbose: true,
        ..no_cli()
    };
    let cfg = resolve_config(Some(file_config()), cli).unwrap();
    assert_eq!(cfg.database.connection_string, "clihost:1521/C");
    assert_eq!(cfg.database.username, "cliuser");
    assert_eq!(cfg.database.password, "filepass");
    assert_eq!(cfg.database.fetch_size, 250);
    assert!(matches!(cfg.export.format, ExportFormat::Custom));
    assert_eq!(cfg.export.delimiter, "|");
    assert!(cfg.export.show_progress);
    assert!(cfg.export.include_header);
    assert_eq!(cfg.export.buffer_size, 8192);
    assert!(matches!(cfg.export.compression, CompressionType::Gzip));
    assert_eq!(cfg.export.progress_interval, 10);
    assert!(cfg.logging.verbose);
}

#[test]
fn default_cli_format_keeps_file_format() {
    // "csv" is the flag's default, so it cannot override the file.
    let cli = CliOverrides { format: s("csv"), ..no_cli() };
    let cfg = resolve_config(Some(file_config()), cli).unwrap();
    assert!(matches!(cfg.export.format, ExportFormat::Tsv));
}

#[test]
fn unknown_format_word_keeps_fallback() {
    let cli = CliOverrides { format: s("parquet"), ..no_cli() };
    let cfg = resolve_config(Some(file_config()), cli).unwrap();
    assert!(matches!(cfg.export.format, ExportFormat::Tsv));
}

#[test]
fn zero_fetch_size_from_file_is_refused() {
    let mut file = file_config();
    file.database.fetch_size = 0;
    assert_eq!(
        resolve_config(Some(file), no_cli()).unwrap_err(),
        ConfigError::InvalidFetchSize
    );
}

#[test]
fn documented_defaults() {
    assert_eq!(default_delimiter(), "\x03");
    assert_eq!(default_buffer_size(), 1048576);
    assert_eq!(default_progress_interval(), 1000000);
    let db = DatabaseConfig::default();
    assert_eq!(db.db_type, "oracle");
    assert_eq!(db.fetch_size, 1000);
    let log = LoggingConfig::default();
    assert!(log.log_file.is_none());
    assert!(!log.verbose);
    assert!(matches!(CompressionType::default(), CompressionType::Plain));
}

#[test]
fn config_error_messages_are_specific() {
    assert_eq!(
        ConfigError::MissingConnectionString.message(),
        "Connection string is required"
    );
    assert_eq!(ConfigError::InvalidFetchSize.message(), "Fetch size must be at least 1");
}

#[test]
fn trim_strips_unicode_whitespace() {
    assert_eq!(trim_text("\u{a0}\u{2028}SELECT 1\u{3000}\u{85}"), "SELECT 1");
    assert_eq!(trim_text("\u{2000}\u{200a} x \u{205f}\u{202f}"), "x");
}

#[test]
fn trim_agrees_with_std_trim() {
    let samples = [
        "  a  ",
        "\u{a0}b\u{a0}",
        "\u{1680}c\u{1680}",
        "\u{2028}d\u{2029}",
        "\u{202f}e\u{205f}",
        "\u{3000}f\u{3000}",
        "\u{85}g\u{85}",
        "\t\n h \r\x0b\x0c",
        "",
        " \u{2003} ",
        "no edges",
    ];
    for sample in samples {
        assert_eq!(trim_text(sample), sample.trim());
    }
}
