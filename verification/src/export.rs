//! The export pipeline: column discovery, optional header, the per-row
//! encode-and-write loop with progress and phase timing, and the final
//! statistics.
//!
//! The pipeline is a function of its three ports: it pulls rows from a
//! source adapter, writes encoded records through a [`RecordSink`], and
//! reports on a [`ProgressSink`].  On success the sink grew by exactly
//! [`export_output`] of the source's result set, the progress channel
//! saw one observation per full interval of rows, and the statistics
//! carry the row count; wall-clock readings are sampled from the system
//! clock and are not pinned by any contract.

use crate::config::{ExportConfig, ExportFormat};
use crate::db::oracle::OracleDatabase;
use crate::db::{row_text, DbError, SqlClient};
use crate::encode::{encode_record, encoded_record, fields_of};
use crate::sink::{ProgressSink, RecordSink};
use vstd::arithmetic::div_mod::{lemma_fundamental_div_mod, lemma_fundamental_div_mod_converse};
use vstd::prelude::*;

verus! {

/// The tab byte, the fixed delimiter of the TSV format.
pub const TAB_BYTE: u8 = 9;

/// The comma byte, the delimiter that CSV and Custom fall back to.
pub const COMMA_BYTE: u8 = 44;

/// What can go wrong during an export run.
#[derive(Debug, Clone)]
pub enum ExportError {
    /// The source failed: connection, query or row delivery.
    Db(DbError),
    /// The destination failed: create, write or flush.
    Io(String),
}

impl ExportError {
    /// A human-readable description of the error.
    pub fn message(&self) -> (r: String)
        ensures
            self matches ExportError::Io(m) ==> r@ == "output failed: "@ + m@,
    {
        match self {
            ExportError::Db(e) => e.message(),
            ExportError::Io(m) => String::from_str("output failed: ").concat(m.as_str()),
        }
    }
}

/// The delimiter byte a run uses: TSV always writes tabs; CSV and
/// Custom use the configured delimiter when it is exactly one byte and
/// fall back to the comma for any other length.
pub open spec fn delimiter_of(format: ExportFormat, delimiter: Seq<char>) -> u8 {
    match format {
        ExportFormat::Tsv => TAB_BYTE,
        ExportFormat::Csv => configured_or_comma(delimiter),
        ExportFormat::Custom => configured_or_comma(delimiter),
    }
}

/// The configured delimiter when it is a single byte, else the comma.
pub open spec fn configured_or_comma(delimiter: Seq<char>) -> u8 {
    if vstd::utf8::encode_utf8(delimiter).len() == 1 {
        vstd::utf8::encode_utf8(delimiter)[0]
    } else {
        COMMA_BYTE
    }
}

/// Every record of the result set, encoded and concatenated in result
/// order.
pub open spec fn rows_output(rows: Seq<Seq<Option<Seq<char>>>>, delimiter: u8) -> Seq<u8>
    decreases rows.len(),
{
    if rows.len() == 0 {
        Seq::empty()
    } else {
        rows_output(rows.drop_last(), delimiter) + encoded_record(
            fields_of(row_text(rows.last())),
            delimiter,
        )
    }
}

/// The whole byte stream an export run hands its sink: the header
/// record exactly when one is requested, then every data record in
/// result order.
pub open spec fn export_output(
    include_header: bool,
    delimiter: u8,
    columns: Seq<Seq<char>>,
    rows: Seq<Seq<Option<Seq<char>>>>,
) -> Seq<u8> {
    (if include_header {
        encoded_record(fields_of(columns), delimiter)
    } else {
        Seq::<u8>::empty()
    }) + rows_output(rows, delimiter)
}

/// The unfolding of `rows_output` one row at a time, stated so the
/// export loop can grow the stream from the left.
pub open spec fn rows_output_step(rows: Seq<Seq<Option<Seq<char>>>>, i: int, delimiter: u8) -> bool {
    rows_output(rows.take(i + 1), delimiter) == rows_output(rows.take(i), delimiter)
        + encoded_record(fields_of(row_text(rows[i])), delimiter)
}

proof fn lemma_rows_output_step(rows: Seq<Seq<Option<Seq<char>>>>, i: int, delimiter: u8)
    requires
        0 <= i < rows.len(),
    ensures
        rows_output_step(rows, i, delimiter),
{
    assert(rows.take(i + 1).drop_last() =~= rows.take(i));
    assert(rows.take(i + 1).last() == rows[i]);
}

/// How division by the report interval moves when the row count steps
/// by one: it grows exactly at multiples of the interval.
proof fn lemma_interval_step(c: int, k: int)
    requires
        k >= 1,
        c >= 0,
    ensures
        (c + 1) % k == 0 ==> (c + 1) / k == c / k + 1 && (c + 1) == ((c + 1) / k) * k,
        (c + 1) % k != 0 ==> (c + 1) / k == c / k,
{
    lemma_fundamental_div_mod(c + 1, k);
    let q1 = (c + 1) / k;
    let r1 = (c + 1) % k;
    if r1 == 0 {
        assert((c + 1) == k * q1);
        assert(q1 >= 1) by (nonlinear_arith)
            requires
                c + 1 >= 1,
                k >= 1,
                c + 1 == k * q1,
        ;
        assert(c == (q1 - 1) * k + (k - 1)) by (nonlinear_arith)
            requires
                c + 1 == k * q1,
        ;
        lemma_fundamental_div_mod_converse(c, k, q1 - 1, k - 1);
        assert((c + 1) == q1 * k) by (nonlinear_arith)
            requires
                c + 1 == k * q1,
        ;
    } else {
        assert(c == q1 * k + (r1 - 1)) by (nonlinear_arith)
            requires
                c + 1 == k * q1 + r1,
        ;
        lemma_fundamental_div_mod_converse(c, k, q1, r1 - 1);
    }
}

/// Saturating addition of counters that accumulate clock readings.
fn sat_add_u64(a: u64, b: u64) -> (r: u64)
    ensures
        r == if a + b <= u64::MAX {
            a + b
        } else {
            u64::MAX as int
        },
{
    if a <= u64::MAX - b {
        a + b
    } else {
        u64::MAX
    }
}

/// Throughput in rows per second for a duration in microseconds: zero
/// when no time has been observed, saturated into 64 bits.
pub open spec fn rate_of(rows: u64, micros: u64) -> int {
    if micros == 0 {
        0
    } else if rows * 1000000 / (micros as int) > u64::MAX {
        u64::MAX as int
    } else {
        rows * 1000000 / (micros as int)
    }
}

/// Rows per second, guarded against a zero duration.
pub fn rows_per_sec_of(rows: u64, micros: u64) -> (r: u64)
    ensures
        r == rate_of(rows, micros),
{
    if micros == 0 {
        return 0;
    }
    let q: u128 = (rows as u128) * 1000000 / (micros as u128);
    if q > u64::MAX as u128 {
        u64::MAX
    } else {
        q as u64
    }
}

/// Declares `std::time::Instant`, the opaque monotonic clock reading
/// the timing wrappers below hand around.
#[verifier::external_type_specification]
#[verifier::external_body]
pub struct ExInstant(std::time::Instant);

/// Relies on `std::time::Instant::now`: a reading of the monotonic
/// clock.  Nothing can be promised of a clock reading.
#[verifier::external_body]
fn clock_now() -> std::time::Instant {
    std::time::Instant::now()
}

/// Relies on `std::time::Instant::elapsed`: the wall time since
/// `start`, in microseconds, saturated into 64 bits.  Nothing can be
/// promised of a clock reading.
#[verifier::external_body]
fn elapsed_micros(start: &std::time::Instant) -> u64 {
    let micros = start.elapsed().as_micros();
    if micros > u64::MAX as u128 {
        u64::MAX
    } else {
        micros as u64
    }
}

/// One run's terminal summary.  Durations are wall-clock microseconds;
/// the derived average is guarded against a zero row count.
#[derive(Debug, Clone)]
pub struct ExportStats {
    pub rows_exported: u64,
    pub duration_micros: u64,
    pub file_size_bytes: u64,
    pub db_read_micros: u64,
    pub io_write_micros: u64,
    pub avg_row_size_bytes: u64,
}

impl ExportStats {
    /// Derive the summary from the run's counters.  Every division is
    /// guarded: zero rows give an average of zero.
    pub fn compute(
        rows_exported: u64,
        duration_micros: u64,
        file_size_bytes: u64,
        db_read_micros: u64,
        io_write_micros: u64,
    ) -> (r: ExportStats)
        ensures
            r.rows_exported == rows_exported,
            r.duration_micros == duration_micros,
            r.file_size_bytes == file_size_bytes,
            r.db_read_micros == db_read_micros,
            r.io_write_micros == io_write_micros,
            r.avg_row_size_bytes == if rows_exported > 0 {
                file_size_bytes as int / rows_exported as int
            } else {
                0
            },
    {
        let avg_row_size_bytes = if rows_exported > 0 {
            file_size_bytes / rows_exported
        } else {
            0
        };
        ExportStats {
            rows_exported,
            duration_micros,
            file_size_bytes,
            db_read_micros,
            io_write_micros,
            avg_row_size_bytes,
        }
    }

    /// Overall rows per second, zero when the run took no measurable
    /// time.
    pub fn rows_per_sec(&self) -> (r: u64)
        ensures
            r == rate_of(self.rows_exported, self.duration_micros),
    {
        rows_per_sec_of(self.rows_exported, self.duration_micros)
    }
}

/// One export run over a resolved configuration.
pub struct Exporter {
    config: ExportConfig,
}

impl Exporter {
    /// The settings this run was built with.
    pub closed spec fn export_config(&self) -> ExportConfig {
        self.config
    }

    /// An exporter for one run of `config`.
    pub fn new(config: ExportConfig) -> (r: Self)
        ensures
            r.export_config() == config,
    {
        Self { config }
    }

    /// The delimiter byte this run writes.
    pub fn get_delimiter(&self) -> (r: u8)
        ensures
            r == delimiter_of(self.export_config().format, self.export_config().delimiter@),
    {
        match self.config.format {
            ExportFormat::Csv => {
                let bytes = self.config.delimiter.as_str().as_bytes();
                if bytes.len() == 1 {
                    bytes[0]
                } else {
                    COMMA_BYTE
                }
            },
            ExportFormat::Tsv => TAB_BYTE,
            ExportFormat::Custom => {
                let bytes = self.config.delimiter.as_str().as_bytes();
                if bytes.len() == 1 {
                    bytes[0]
                } else {
                    COMMA_BYTE
                }
            },
        }
    }

    /// Encode one row and append the record to the sink.
    pub fn write_row<S: RecordSink>(
        &self,
        sink: &mut S,
        values: &Vec<String>,
        delimiter: u8,
    ) -> (r: Result<(), ExportError>)
        ensures
            r is Ok ==> final(sink).bytes() == old(sink).bytes() + encoded_record(
                fields_of(values.deep_view()),
                delimiter,
            ),
            r is Err ==> r matches Err(ExportError::Io(m)),
    {
        let record = encode_record(values, delimiter);
        match sink.write_all(&record) {
            Ok(_) => Ok(()),
            Err(m) => Err(ExportError::Io(m)),
        }
    }

    /// Run the export: discover columns, write the header when asked
    /// to, stream every row through the encoder into the sink, observe
    /// progress at each full interval, and derive the statistics.
    pub fn export<C: SqlClient, S: RecordSink, P: ProgressSink>(
        &mut self,
        db: &mut OracleDatabase<C>,
        sink: &mut S,
        progress: &mut P,
    ) -> (r: Result<ExportStats, ExportError>)
        requires
            old(self).export_config().wf(),
            old(db).wf(),
        ensures
            *final(self) == *old(self),
            final(db).wf(),
            final(db).is_connected() == old(db).is_connected(),
            final(db).src_columns() == old(db).src_columns(),
            final(db).src_rows() == old(db).src_rows(),
            !old(db).is_connected() ==> (r matches Err(e) && e matches ExportError::Db(d)
                && d is NotConnected),
            (r matches Err(ExportError::Db(d)) && d is NotConnected) ==> !old(
                db,
            ).is_connected(),
            r is Ok ==> old(db).is_connected(),
            r matches Ok(stats) ==> {
                &&& final(sink).bytes() == old(sink).bytes() + export_output(
                    old(self).export_config().include_header,
                    delimiter_of(
                        old(self).export_config().format,
                        old(self).export_config().delimiter@,
                    ),
                    old(db).src_columns(),
                    old(db).src_rows(),
                )
                &&& stats.rows_exported == old(db).src_rows().len()
                &&& stats.avg_row_size_bytes == (if stats.rows_exported > 0 {
                    stats.file_size_bytes as int / stats.rows_exported as int
                } else {
                    0
                })
                &&& !old(self).export_config().show_progress ==> final(progress).reports() == old(
                    progress,
                ).reports()
                &&& old(self).export_config().show_progress ==> progress_cadence(
                    old(progress).reports(),
                    final(progress).reports(),
                    old(db).src_rows().len() as int,
                    old(self).export_config().progress_interval as int,
                )
            },
    {
        let start = clock_now();
        let delimiter = self.get_delimiter();
        let ghost cfg = self.config;
        let ghost columns_model = db.src_columns();
        let ghost rows_model = db.src_rows();
        let ghost head = if cfg.include_header {
            encoded_record(fields_of(columns_model), delimiter)
        } else {
            Seq::<u8>::empty()
        };

        let columns = match db.get_column_info(self.config.query.as_str()) {
            Ok(c) => c,
            Err(e) => {
                return Err(ExportError::Db(e));
            },
        };

        if self.config.include_header {
            match self.write_row(sink, &columns, delimiter) {
                Ok(_) => {},
                Err(e) => {
                    return Err(e);
                },
            }
        }

        match db.execute_query_streaming(self.config.query.as_str()) {
            Ok(_) => {},
            Err(e) => {
                return Err(ExportError::Db(e));
            },
        }

        let stream_start = clock_now();
        let ghost base = progress.reports();
        let mut count: u64 = 0;
        let mut source_micros: u64 = 0;
        let mut io_micros: u64 = 0;
        proof {
            db.model_facts();
            assert(rows_model.take(0) =~= Seq::<Seq<Option<Seq<char>>>>::empty());
        }
        loop
            invariant
                *self == *old(self),
                cfg == old(self).export_config(),
                cfg.wf(),
                db.wf(),
                db.is_streaming(),
                db.is_connected(),
                old(db).is_connected(),
                db.src_columns() == columns_model,
                db.src_rows() == rows_model,
                columns_model == old(db).src_columns(),
                rows_model == old(db).src_rows(),
                delimiter == delimiter_of(cfg.format, cfg.delimiter@),
                head == (if cfg.include_header {
                    encoded_record(fields_of(columns_model), delimiter)
                } else {
                    Seq::<u8>::empty()
                }),
                base == old(progress).reports(),
                0 <= db.cursor_pos() <= rows_model.len(),
                count == db.cursor_pos(),
                rows_model.len() <= usize::MAX,
                sink.bytes() == old(sink).bytes() + head + rows_output(
                    rows_model.take(count as int),
                    delimiter,
                ),
                !cfg.show_progress ==> progress.reports() == base,
                cfg.show_progress ==> {
                    &&& progress.reports().len() == base.len() + count as int
                        / cfg.progress_interval as int
                    &&& forall|i: int|
                        0 <= i < base.len() ==> #[trigger] progress.reports()[i] == base[i]
                    &&& forall|i: int|
                        base.len() <= i < progress.reports().len()
                            ==> (#[trigger] progress.reports()[i]).0 == (i - base.len() + 1)
                            * cfg.progress_interval as int
                },
            ensures
                count == rows_model.len(),
            decreases rows_model.len() - db.cursor_pos(),
        {
            let ghost pos = db.cursor_pos();
            let src_t = clock_now();
            match db.next_row() {
                Ok(Some(row)) => {
                    source_micros = sat_add_u64(source_micros, elapsed_micros(&src_t));
                    count = count + 1;
                    let io_t = clock_now();
                    let ghost before = sink.bytes();
                    match self.write_row(sink, &row, delimiter) {
                        Ok(_) => {},
                        Err(e) => {
                            return Err(e);
                        },
                    }
                    io_micros = sat_add_u64(io_micros, elapsed_micros(&io_t));
                    proof {
                        lemma_rows_output_step(rows_model, pos, delimiter);
                        assert(sink.bytes() =~= old(sink).bytes() + head + rows_output(
                            rows_model.take(pos + 1),
                            delimiter,
                        ));
                        lemma_interval_step(pos, cfg.progress_interval as int);
                    }
                    if self.config.show_progress && count % self.config.progress_interval == 0 {
                        // The observation's rate is over the time since
                        // streaming began.
                        let elapsed = elapsed_micros(&stream_start);
                        let rate = rows_per_sec_of(count, elapsed);
                        progress.report(count, rate);
                    }
                },
                Ok(_none) => {
                    source_micros = sat_add_u64(source_micros, elapsed_micros(&src_t));
                    proof {
                        assert(count == rows_model.len());
                    }
                    break ;
                },
                Err(e) => {
                    return Err(ExportError::Db(e));
                },
            }
        }

        match sink.flush() {
            Ok(_) => {},
            Err(m) => {
                return Err(ExportError::Io(m));
            },
        }
        let file_size = sink.output_size();
        let duration = elapsed_micros(&start);
        proof {
            assert(rows_model.take(rows_model.len() as int) =~= rows_model);
        }
        Ok(
            ExportStats::compute(count, duration, file_size, source_micros, io_micros),
        )
    }
}

/// Delimiter selection law: TSV always writes the tab byte; CSV and
/// Custom write the configured delimiter when it is exactly one byte
/// and the comma for any other length.
pub proof fn lemma_delimiter_selection(format: ExportFormat, delim: Seq<char>)
    ensures
        format is Tsv ==> delimiter_of(format, delim) == TAB_BYTE,
        !(format is Tsv) && vstd::utf8::encode_utf8(delim).len() == 1 ==> delimiter_of(
            format,
            delim,
        ) == vstd::utf8::encode_utf8(delim)[0],
        !(format is Tsv) && vstd::utf8::encode_utf8(delim).len() != 1 ==> delimiter_of(
            format,
            delim,
        ) == COMMA_BYTE,
{
}

/// Idempotence law: the output stream is a function of the resolved
/// configuration and the result set alone, so two runs over the same
/// inputs produce byte-identical output.
pub proof fn lemma_export_idempotent(
    include_header: bool,
    delimiter: u8,
    columns: Seq<Seq<char>>,
    rows: Seq<Seq<Option<Seq<char>>>>,
    out1: Seq<u8>,
    out2: Seq<u8>,
)
    requires
        out1 == export_output(include_header, delimiter, columns, rows),
        out2 == export_output(include_header, delimiter, columns, rows),
    ensures
        out1 == out2,
{
}

/// The records of the output, taken from the front: the first record
/// of a non-empty result set stands first in the row stream.
pub proof fn lemma_rows_output_first(rows: Seq<Seq<Option<Seq<char>>>>, delimiter: u8)
    requires
        rows.len() > 0,
    ensures
        rows_output(rows, delimiter) == encoded_record(fields_of(row_text(rows.first())), delimiter)
            + rows_output(rows.drop_first(), delimiter),
    decreases rows.len(),
{
    if rows.len() == 1 {
        assert(rows.drop_last() =~= Seq::<Seq<Option<Seq<char>>>>::empty());
        assert(rows.drop_first() =~= Seq::<Seq<Option<Seq<char>>>>::empty());
        assert(rows.last() == rows.first());
        assert(rows_output(rows, delimiter) =~= encoded_record(
            fields_of(row_text(rows.first())),
            delimiter,
        ) + rows_output(rows.drop_first(), delimiter));
    } else {
        let front = rows.drop_last();
        lemma_rows_output_first(front, delimiter);
        assert(front.first() == rows.first());
        assert(front.drop_first() =~= rows.drop_first().drop_last());
        assert(rows.drop_first().last() == rows.last());
        assert(rows.drop_first().len() > 0);
        assert(rows_output(rows.drop_first(), delimiter) == rows_output(
            rows.drop_first().drop_last(),
            delimiter,
        ) + encoded_record(fields_of(row_text(rows.last())), delimiter));
        assert(rows_output(rows, delimiter) =~= encoded_record(
            fields_of(row_text(rows.first())),
            delimiter,
        ) + rows_output(rows.drop_first(), delimiter));
    }
}

/// Header behavior law: the output begins with the encoded column
/// names exactly when a header is requested; otherwise it begins with
/// the first data record.
pub proof fn lemma_header_behavior(
    delimiter: u8,
    columns: Seq<Seq<char>>,
    rows: Seq<Seq<Option<Seq<char>>>>,
)
    ensures
        export_output(true, delimiter, columns, rows) == encoded_record(
            fields_of(columns),
            delimiter,
        ) + rows_output(rows, delimiter),
        rows.len() > 0 ==> export_output(false, delimiter, columns, rows) == encoded_record(
            fields_of(row_text(rows.first())),
            delimiter,
        ) + rows_output(rows.drop_first(), delimiter),
{
    assert(export_output(false, delimiter, columns, rows) =~= rows_output(rows, delimiter));
    if rows.len() > 0 {
        lemma_rows_output_first(rows, delimiter);
    }
}

/// Empty-result law: with no rows the output is exactly the header
/// record when one is requested, and empty otherwise.
pub proof fn lemma_empty_result(delimiter: u8, columns: Seq<Seq<char>>)
    ensures
        export_output(true, delimiter, columns, Seq::empty()) == encoded_record(
            fields_of(columns),
            delimiter,
        ),
        export_output(false, delimiter, columns, Seq::empty()) == Seq::<u8>::empty(),
{
    assert(export_output(true, delimiter, columns, Seq::empty()) =~= encoded_record(
        fields_of(columns),
        delimiter,
    ));
    assert(export_output(false, delimiter, columns, Seq::empty()) =~= Seq::<u8>::empty());
}

/// What the progress channel saw over a run of `n` rows at interval
/// `k`: the old observations untouched, then exactly one new
/// observation per full interval, the `j`-th at row `j * k`.
pub open spec fn progress_cadence(
    before: Seq<(u64, u64)>,
    after: Seq<(u64, u64)>,
    n: int,
    k: int,
) -> bool {
    &&& after.len() == before.len() + (if k >= 1 {
        n / k
    } else {
        0
    })
    &&& forall|i: int| 0 <= i < before.len() ==> #[trigger] after[i] == before[i]
    &&& forall|i: int|
        before.len() <= i < after.len() ==> (#[trigger] after[i]).0 == (i - before.len() + 1) * k
}

} // verus!
