use rowexport::config::{CompressionType, DatabaseConfig, ExportConfig, ExportFormat};
use rowexport::db::oracle::OracleDatabase;
use rowexport::db::{Database, MemClient};
use rowexport::export::{ExportError, Exporter};
use rowexport::sink::{compress_output, MemProgress, MemSink};

fn s(x: &str) -> String {
    x.to_string()
}

fn db_config() -> DatabaseConfig {
    DatabaseConfig {
        db_type: s("oracle"),
        connection_string: s("localhost:1521/ORCL"),
        username: s("scott"),
        password: s("tiger"),
        fetch_size: 2,
    }
}

fn export_config(include_header: bool, compression: CompressionType) -> ExportConfig {
    ExportConfig {
        query: s("SELECT * FROM T"),
        output_file: s("out.csv"),
        format: ExportFormat::Csv,
        delimiter: s(","),
        show_progress: false,
        include_header,
        buffer_size: 1024,
        compression,
        progress_interval: 1000000,
    }
}

fn columns_id_name() -> Vec<String> {
    vec![s("id"), s("name")]
}

fn rows_id_name() -> Vec<Vec<Option<String>>> {
    vec![
        vec![Some(s("1")), Some(s("Alice"))],
        vec![Some(s("2")), Some(s(""))],
    ]
}

fn run_export(
    columns: Vec<String>,
    rows: Vec<Vec<Option<String>>>,
    config: ExportConfig,
) -> (Vec<u8>, rowexport::export::ExportStats, Vec<(u64, u64)>) {
    let client = MemClient::new(columns, rows);
    let mut db = OracleDatabase::new(db_config(), client);
    db.connect().unwrap();
    let mut exporter = Exporter::new(config);
    let mut sink = MemSink::new();
    let mut progress = MemProgress::new();
    let stats = exporter.export(&mut db, &mut sink, &mut progress).unwrap();
    (sink.into_bytes(), stats, progress.into_entries())
}

#[test]
fn header_and_comma_scenario() {
    let (bytes, stats, _) = run_export(
        columns_id_name(),
        rows_id_name(),
        export_config(true, CompressionType::Plain),
    );
    assert_eq!(bytes, b"id,name\n1,Alice\n2,\n".to_vec());
    assert_eq!(stats.rows_exported, 2);
}

#[test]
fn null_becomes_empty_string() {
    let (bytes, _, _) = run_export(
        columns_id_name(),
        vec![vec![Some(s("7")), None]],
        export_config(false, CompressionType::Plain),
    );
    assert_eq!(bytes, b"7,\n".to_vec());
}

#[test]
fn no_header_starts_with_first_row() {
    let (bytes, _, _) = run_export(
        columns_id_name(),
        rows_id_name(),
        export_config(false, CompressionType::Plain),
    );
    assert_eq!(bytes, b"1,Alice\n2,\n".to_vec());
}

#[test]
fn round_trip_with_standard_csv_reader() {
    let rows = vec![
        vec![Some(s("1")), Some(s("plain"))],
        vec![Some(s("2")), Some(s("has,comma"))],
        vec![Some(s("3")), Some(s("has\"quote"))],
        vec![Some(s("4")), Some(s("has\nnewline"))],
        vec![Some(s("5")), None],
    ];
    let (bytes, _, _) = run_export(
        columns_id_name(),
        rows,
        export_config(false, CompressionType::Plain),
    );
    let mut reader = csv::ReaderBuilder::new()
        .has_headers(false)
        .from_reader(bytes.as_slice());
    let parsed: Vec<Vec<String>> = reader
        .records()
        .map(|r| r.unwrap().iter().map(|f| f.to_string()).collect())
        .collect();
    let expected = vec![
        vec![s("1"), s("plain")],
        vec![s("2"), s("has,comma")],
        vec![s("3"), s("has\"quote")],
        vec![s("4"), s("has\nnewline")],
        vec![s("5"), s("")],
    ];
    assert_eq!(parsed, expected);
}

#[test]
fn export_twice_is_byte_identical() {
    let (a, _, _) = run_export(
        columns_id_name(),
        rows_id_name(),
        export_config(true, CompressionType::Plain),
    );
    let (b, _, _) = run_export(
        columns_id_name(),
        rows_id_name(),
        export_config(true, CompressionType::Plain),
    );
    assert_eq!(a, b);
}

#[test]
fn gzip_round_trip_matches_plain_output() {
    let (plain, _, _) = run_export(
        columns_id_name(),
        rows_id_name(),
        export_config(true, CompressionType::Plain),
    );
    let compressed = compress_output(&plain, &CompressionType::Gzip);
    assert_ne!(compressed, plain);
    let mut decoder = flate2::read::GzDecoder::new(compressed.as_slice());
    let mut restored = Vec::new();
    std::io::Read::read_to_end(&mut decoder, &mut restored).unwrap();
    assert_eq!(restored, plain);
}

#[test]
fn plain_compression_is_identity() {
    let data = b"id,name\n1,Alice\n".to_vec();
    assert_eq!(compress_output(&data, &CompressionType::Plain), data);
}

#[test]
fn zero_rows_with_header_writes_header_only() {
    let (bytes, stats, _) = run_export(
        columns_id_name(),
        vec![],
        export_config(true, CompressionType::Plain),
    );
    assert_eq!(bytes, b"id,name\n".to_vec());
    assert_eq!(stats.rows_exported, 0);
    assert_eq!(stats.avg_row_size_bytes, 0);
    assert_eq!(stats.rows_per_sec(), 0);
}

#[test]
fn zero_rows_without_header_writes_nothing() {
    let (bytes, stats, _) = run_export(
        columns_id_name(),
        vec![],
        export_config(false, CompressionType::Plain),
    );
    assert!(bytes.is_empty());
    assert_eq!(stats.rows_exported, 0);
}

#[test]
fn progress_fires_once_per_full_interval() {
    let columns = vec![s("n")];
    let rows: Vec<Vec<Option<String>>> =
        (0..10).map(|i| vec![Some(i.to_string())]).collect();
    let mut config = export_config(false, CompressionType::Plain);
    config.show_progress = true;
    config.progress_interval = 3;
    let (_, stats, reports) = run_export(columns, rows, config);
    assert_eq!(stats.rows_exported, 10);
    let fired: Vec<u64> = reports.iter().map(|r| r.0).collect();
    assert_eq!(fired, vec![3, 6, 9]);
}

#[test]
fn progress_every_row_when_interval_is_one() {
    let columns = vec![s("n")];
    let rows: Vec<Vec<Option<String>>> =
        (0..4).map(|i| vec![Some(i.to_string())]).collect();
    let mut config = export_config(false, CompressionType::Plain);
    config.show_progress = true;
    config.progress_interval = 1;
    let (_, _, reports) = run_export(columns, rows, config);
    let fired: Vec<u64> = reports.iter().map(|r| r.0).collect();
    assert_eq!(fired, vec![1, 2, 3, 4]);
}

#[test]
fn progress_silent_when_disabled() {
    let (_, _, reports) = run_export(
        columns_id_name(),
        rows_id_name(),
        export_config(true, CompressionType::Plain),
    );
    assert!(reports.is_empty());
}

#[test]
fn export_before_connect_is_not_connected_error() {
    let client = MemClient::new(columns_id_name(), rows_id_name());
    let mut db = OracleDatabase::new(db_config(), client);
    let mut exporter = Exporter::new(export_config(true, CompressionType::Plain));
    let mut sink = MemSink::new();
    let mut progress = MemProgress::new();
    let err = exporter
        .export(&mut db, &mut sink, &mut progress)
        .unwrap_err();
    match err {
        ExportError::Db(e) => {
            assert_eq!(e.message(), "database not connected");
        }
        other => panic!("unexpected error: {}", other.message()),
    }
}

#[test]
fn tsv_format_writes_tabs() {
    let mut config = export_config(true, CompressionType::Plain);
    config.format = ExportFormat::Tsv;
    config.delimiter = s(";");
    let (bytes, _, _) = run_export(columns_id_name(), rows_id_name(), config);
    assert_eq!(bytes, b"id\tname\n1\tAlice\n2\t\n".to_vec());
}

#[test]
fn custom_format_uses_configured_delimiter() {
    let mut config = export_config(false, CompressionType::Plain);
    config.format = ExportFormat::Custom;
    config.delimiter = s("|");
    let (bytes, _, _) = run_export(columns_id_name(), rows_id_name(), config);
    assert_eq!(bytes, b"1|Alice\n2|\n".to_vec());
}

#[test]
fn stats_average_row_size_is_exact() {
    let stats = rowexport::export::ExportStats::compute(4, 0, 100, 7, 9);
    assert_eq!(stats.avg_row_size_bytes, 25);
    assert_eq!(stats.rows_exported, 4);
    assert_eq!(stats.file_size_bytes, 100);
    assert_eq!(stats.db_read_micros, 7);
    assert_eq!(stats.io_write_micros, 9);
    assert_eq!(stats.rows_per_sec(), 0);
}

#[test]
fn execute_query_returns_whole_result() {
    let client = MemClient::new(columns_id_name(), rows_id_name());
    let mut db = OracleDatabase::new(db_config(), client);
    db.connect().unwrap();
    let result = db.execute_query("SELECT * FROM T").unwrap();
    assert_eq!(result.columns, vec![s("id"), s("name")]);
    assert_eq!(
        result.rows,
        vec![vec![s("1"), s("Alice")], vec![s("2"), s("")]]
    );
}

#[test]
fn execute_query_before_connect_fails() {
    let client = MemClient::new(columns_id_name(), rows_id_name());
    let mut db = OracleDatabase::new(db_config(), client);
    let err = db.execute_query("SELECT * FROM T").unwrap_err();
    assert_eq!(err.message(), "database not connected");
}

#[test]
fn streaming_yields_rows_in_order() {
    let client = MemClient::new(columns_id_name(), rows_id_name());
    let mut db = OracleDatabase::new(db_config(), client);
    db.connect().unwrap();
    let cols = db.execute_query_streaming("SELECT * FROM T").unwrap();
    assert_eq!(cols, vec![s("id"), s("name")]);
    assert_eq!(db.next_row().unwrap(), Some(vec![s("1"), s("Alice")]));
    assert_eq!(db.next_row().unwrap(), Some(vec![s("2"), s("")]));
    assert_eq!(db.next_row().unwrap(), None);
}

#[test]
fn get_column_info_reports_column_names() {
    let client = MemClient::new(columns_id_name(), rows_id_name());
    let mut db = OracleDatabase::new(db_config(), client);
    db.connect().unwrap();
    assert_eq!(
        db.get_column_info("SELECT * FROM T").unwrap(),
        vec![s("id"), s("name")]
    );
}

#[test]
fn build_connection_string_prepends_slashes() {
    let client = MemClient::new(vec![], vec![]);
    let db = OracleDatabase::new(db_config(), client);
    assert_eq!(db.build_connection_string(), "//localhost:1521/ORCL");
}

#[test]
fn row_to_strings_blanks_nulls() {
    let client = MemClient::new(vec![], vec![]);
    let db = OracleDatabase::new(db_config(), client);
    let row = vec![Some(s("a")), None, Some(s("c"))];
    assert_eq!(db.row_to_strings(&row, 3), vec![s("a"), s(""), s("c")]);
}

#[test]
fn batched_fetching_crosses_batch_boundaries() {
    let columns = vec![s("n")];
    let rows: Vec<Vec<Option<String>>> =
        (0..7).map(|i| vec![Some(i.to_string())]).collect();
    let mut config = export_config(false, CompressionType::Plain);
    config.delimiter = s(",");
    // fetch_size 2 forces four round trips for seven rows
    let (bytes, stats, _) = run_export(columns, rows, config);
    assert_eq!(bytes, b"0\n1\n2\n3\n4\n5\n6\n".to_vec());
    assert_eq!(stats.rows_exported, 7);
}

#[test]
fn connect_through_missing_driver_reports_connect_error() {
    let mut db = OracleDatabase::new(db_config(), rowexport::db::UnavailableClient);
    let err = db.connect().unwrap_err();
    assert_eq!(
        err.message(),
        "failed to connect to database: no database driver is linked into this build"
    );
}

#[test]
fn error_messages_name_the_failure() {
    assert_eq!(
        rowexport::db::DbError::Query(s("ORA-00942")).message(),
        "query failed: ORA-00942"
    );
    assert_eq!(
        rowexport::db::DbError::Connect(s("refused")).message(),
        "failed to connect to database: refused"
    );
    assert_eq!(
        ExportError::Io(s("disk full")).message(),
        "output failed: disk full"
    );
}

#[test]
fn rows_per_sec_is_exact_integer_throughput() {
    let stats = rowexport::export::ExportStats::compute(5, 2_000_000, 10, 0, 0);
    assert_eq!(stats.rows_per_sec(), 2);
    let stats = rowexport::export::ExportStats::compute(1_000_000, 500_000, 10, 0, 0);
    assert_eq!(stats.rows_per_sec(), 2_000_000);
}
