//! The concrete source adapter.  It owns a [`SqlClient`] port to the
//! backend's wire protocol and turns it into the [`Database`]
//! capability: a connection gate, whole-result queries, and a pull
//! stream that fetches rows in batches sized by the configured fetch
//! size, so that at most one batch is ever held in memory.

use crate::config::DatabaseConfig;
use crate::db::{null_to_empty, row_text, Database, DbError, QueryResult, SqlClient};
use vstd::prelude::*;

verus! {

/// Streaming state: the current batch of rows and where it sits in the
/// result set.
struct RowCursor {
    query: String,
    buf: Vec<Vec<Option<String>>>,
    buf_start: usize,
    buf_pos: usize,
    done: bool,
}

/// The one wired-up backend: a [`Database`] over a [`SqlClient`].
pub struct OracleDatabase<C: SqlClient> {
    config: DatabaseConfig,
    client: C,
    connected: bool,
    cursor: Option<RowCursor>,
}

impl<C: SqlClient> OracleDatabase<C> {
    /// The source settings this adapter was built with.
    pub closed spec fn source_config(&self) -> DatabaseConfig {
        self.config
    }

    /// The column names the source yields.
    pub closed spec fn src_columns(&self) -> Seq<Seq<char>> {
        self.client.columns()
    }

    /// The rows the source yields, nullness preserved.
    pub closed spec fn src_rows(&self) -> Seq<Seq<Option<Seq<char>>>> {
        self.client.rows()
    }

    /// Is a session established?
    pub closed spec fn is_connected(&self) -> bool {
        self.connected
    }

    /// Is a row stream open?
    pub closed spec fn is_streaming(&self) -> bool {
        self.cursor is Some
    }

    /// How many rows of the stream have been handed out.
    pub closed spec fn cursor_pos(&self) -> int {
        match self.cursor {
            Some(c) => c.buf_start + c.buf_pos,
            None => 0,
        }
    }

    /// The adapter's invariant: the client's result set is well formed,
    /// the batch size is positive, and any open cursor holds exactly a
    /// contiguous run of the result set.
    pub closed spec fn wf(&self) -> bool {
        &&& self.client.wf()
        &&& self.config.wf()
        &&& match self.cursor {
            Some(c) => {
                &&& c.buf.deep_view() == self.client.rows().subrange(
                    c.buf_start as int,
                    c.buf_start + c.buf@.len(),
                )
                &&& c.buf_start + c.buf@.len() <= self.client.rows().len()
                &&& c.buf_pos <= c.buf@.len()
                &&& (c.done ==> c.buf_start + c.buf@.len() == self.client.rows().len())
            },
            None => true,
        }
        &&& (self.cursor is Some ==> self.connected)
    }

    /// What the invariant guarantees about the result-set model.
    pub proof fn model_facts(&self)
        requires
            self.wf(),
        ensures
            self.src_rows().len() <= usize::MAX,
            forall|i: int|
                0 <= i < self.src_rows().len() ==> (#[trigger] self.src_rows()[i]).len()
                    == self.src_columns().len(),
    {
        self.client.wf_facts();
    }

    /// A fresh, unconnected adapter.
    pub fn new(config: DatabaseConfig, client: C) -> (r: Self)
        requires
            config.wf(),
            client.wf(),
        ensures
            r.wf(),
            !r.is_connected(),
            !r.is_streaming(),
            r.source_config() == config,
            r.src_columns() == client.columns(),
            r.src_rows() == client.rows(),
    {
        Self { config, client, connected: false, cursor: None }
    }

    /// The configured connection descriptor in the form the driver
    /// expects: `//host:port/service`.
    pub fn build_connection_string(&self) -> (r: String)
        ensures
            r@ == "//"@ + self.source_config().connection_string@,
    {
        String::from_str("//").concat(self.config.connection_string.as_str())
    }

    /// One fetched row as the text values that are exported: an absent
    /// field becomes the empty string.
    pub fn row_to_strings(&self, row: &Vec<Option<String>>, col_count: usize) -> (r: Vec<String>)
        requires
            row@.len() == col_count,
        ensures
            r.deep_view() == row_text(row.deep_view()),
    {
        convert_row(row)
    }

    /// Execute the query just to learn the result's column names, with
    /// the smallest possible fetch.
    pub fn get_column_info(&mut self, query: &str) -> (r: Result<Vec<String>, DbError>)
        requires
            old(self).wf(),
        ensures
            final(self).wf(),
            *final(self) == *old(self),
            !old(self).is_connected() <==> (r matches Err(e) && e is NotConnected),
            r matches Ok(cols) ==> cols.deep_view() == old(self).src_columns(),
    {
        if !self.connected {
            return Err(DbError::NotConnected);
        }
        proof {
            self.client.wf_facts();
        }
        match self.client.fetch(query, 0, 1) {
            Ok(batch) => Ok(batch.columns),
            Err(m) => Err(DbError::Query(m)),
        }
    }

    /// Execute the query and open a pull stream over its rows; returns
    /// the result's column names.  Rows are then drawn one at a time
    /// with [`Self::next_row`], fetched from the port in batches of the
    /// configured fetch size.
    pub fn execute_query_streaming(&mut self, query: &str) -> (r: Result<Vec<String>, DbError>)
        requires
            old(self).wf(),
        ensures
            final(self).wf(),
            final(self).is_connected() == old(self).is_connected(),
            final(self).src_columns() == old(self).src_columns(),
            final(self).src_rows() == old(self).src_rows(),
            final(self).source_config() == old(self).source_config(),
            !old(self).is_connected() <==> (r matches Err(e) && e is NotConnected),
            r matches Ok(cols) ==> cols.deep_view() == old(self).src_columns()
                && final(self).is_streaming() && final(self).cursor_pos() == 0,
            r is Err ==> *final(self) == *old(self),
    {
        if !self.connected {
            return Err(DbError::NotConnected);
        }
        proof {
            self.client.wf_facts();
        }
        let fetch_size = self.config.fetch_size;
        match self.client.fetch(query, 0, fetch_size) {
            Ok(batch) => {
                let batch_len = batch.rows.len();
                proof {
                    assert(batch.rows.deep_view().len() == batch.rows@.len());
                    assert(batch.rows.deep_view() == self.client.rows().subrange(
                        0,
                        batch_len as int,
                    ));
                }
                self.cursor = Some(
                    RowCursor {
                        query: String::from_str(query),
                        buf: batch.rows,
                        buf_start: 0,
                        buf_pos: 0,
                        done: batch_len < fetch_size,
                    },
                );
                Ok(batch.columns)
            },
            Err(m) => Err(DbError::Query(m)),
        }
    }

    /// The next row of the open stream, in result order, nulls blanked;
    /// `None` once every row has been delivered.  When the current
    /// batch is spent, the next one is fetched through the port.
    pub fn next_row(&mut self) -> (r: Result<Option<Vec<String>>, DbError>)
        requires
            old(self).wf(),
            old(self).is_streaming(),
        ensures
            final(self).wf(),
            final(self).is_connected() == old(self).is_connected(),
            final(self).src_columns() == old(self).src_columns(),
            final(self).src_rows() == old(self).src_rows(),
            final(self).source_config() == old(self).source_config(),
            r matches Ok(opt) ==> final(self).is_streaming() && (match opt {
                Some(row) => {
                    &&& old(self).cursor_pos() < old(self).src_rows().len()
                    &&& row.deep_view() == row_text(old(self).src_rows()[old(self).cursor_pos()])
                    &&& final(self).cursor_pos() == old(self).cursor_pos() + 1
                },
                None => {
                    &&& old(self).cursor_pos() == old(self).src_rows().len()
                    &&& final(self).cursor_pos() == old(self).cursor_pos()
                },
            }),
            r matches Err(e) ==> e is Query,
    {
        proof {
            self.client.wf_facts();
        }
        let fetch_size = self.config.fetch_size;
        let ghost rows_model = self.client.rows();
        let taken = self.cursor.take();
        match taken {
            Option::None => unreached(),
            Some(mut cur) => {
                if cur.buf_pos >= cur.buf.len() {
                    if cur.done {
                        self.cursor = Some(cur);
                        return Ok(Option::None);
                    }
                    let offset = cur.buf_start + cur.buf.len();
                    match self.client.fetch(cur.query.as_str(), offset, fetch_size) {
                        Ok(batch) => {
                            if batch.rows.len() == 0 {
                                proof {
                                    assert(batch.rows.deep_view().len() == 0);
                                    assert(offset as int == rows_model.len());
                                }
                                cur.done = true;
                                self.cursor = Some(cur);
                                return Ok(Option::None);
                            }
                            let batch_len = batch.rows.len();
                            cur.buf = batch.rows;
                            cur.buf_start = offset;
                            cur.buf_pos = 0;
                            cur.done = batch_len < fetch_size;
                        },
                        Err(m) => {
                            self.cursor = Some(cur);
                            return Err(DbError::Query(m));
                        },
                    }
                }
                proof {
                    assert(cur.buf.deep_view() == rows_model.subrange(
                        cur.buf_start as int,
                        cur.buf_start + cur.buf@.len(),
                    ));
                    assert(cur.buf.deep_view()[cur.buf_pos as int] == rows_model[cur.buf_start
                        + cur.buf_pos as int]);
                    assert(cur.buf.deep_view()[cur.buf_pos as int] == cur.buf@[cur.buf_pos as int].deep_view());
                }
                let row = convert_row(&cur.buf[cur.buf_pos]);
                cur.buf_pos = cur.buf_pos + 1;
                self.cursor = Some(cur);
                Ok(Some(row))
            },
        }
    }
}

/// One row of nullable fields converted to plain text values.
fn convert_row(row: &Vec<Option<String>>) -> (r: Vec<String>)
    ensures
        r.deep_view() == row_text(row.deep_view()),
{
    let mut out: Vec<String> = Vec::new();
    let mut j: usize = 0;
    while j < row.len()
        invariant
            j <= row.len(),
            out@.len() == j,
            forall|k: int|
                0 <= k < j ==> (#[trigger] out@[k])@ == null_to_empty(row@[k].deep_view()),
        decreases row.len() - j,
    {
        match &row[j] {
            Some(s) => {
                out.push(s.clone());
            },
            Option::None => {
                out.push(String::new());
            },
        }
        j += 1;
    }
    proof {
        let rt = row_text(row.deep_view());
        assert forall|i: int| 0 <= i < row@.len() implies out.deep_view()[i] == rt[i] by {
            assert(row.deep_view()[i] == row@[i].deep_view());
            assert(out.deep_view()[i] == out@[i]@);
        }
        assert(out.deep_view() =~= rt);
    }
    out
}

impl<C: SqlClient> Database for OracleDatabase<C> {
    open spec fn db_wf(&self) -> bool {
        self.wf()
    }

    open spec fn db_connected(&self) -> bool {
        self.is_connected()
    }

    open spec fn db_columns(&self) -> Seq<Seq<char>> {
        self.src_columns()
    }

    open spec fn db_rows(&self) -> Seq<Seq<Seq<char>>> {
        self.src_rows().map_values(|r: Seq<Option<Seq<char>>>| row_text(r))
    }

    /// Establish the session through the port, with the configured
    /// credentials and connection descriptor.
    fn connect(&mut self) -> (r: Result<(), DbError>)
        ensures
            r is Ok ==> final(self).is_connected(),
            final(self).src_columns() == old(self).src_columns(),
            final(self).src_rows() == old(self).src_rows(),
            final(self).source_config() == old(self).source_config(),
            final(self).is_streaming() == old(self).is_streaming(),
            r matches Err(e) ==> (e is Connect && *final(self) == *old(self)),
    {
        let conn_str = self.build_connection_string();
        match self.client.dial(
            self.config.username.as_str(),
            self.config.password.as_str(),
            conn_str.as_str(),
        ) {
            Ok(_) => {
                self.connected = true;
                Ok(())
            },
            Err(m) => Err(DbError::Connect(m)),
        }
    }

    /// Execute the query and materialise the whole result set, reusing
    /// the pull stream underneath.
    fn execute_query(&mut self, query: &str) -> (r: Result<QueryResult, DbError>)
        ensures
            final(self).src_columns() == old(self).src_columns(),
            final(self).src_rows() == old(self).src_rows(),
            final(self).source_config() == old(self).source_config(),
    {
        let ghost all_rows = self.db_rows();
        let columns = match self.execute_query_streaming(query) {
            Ok(cols) => cols,
            Err(e) => {
                return Err(e);
            },
        };
        let mut result = QueryResult::new();
        result.columns = columns;
        loop
            invariant
                self.wf(),
                self.is_streaming(),
                self.is_connected() == old(self).is_connected(),
                self.src_columns() == old(self).src_columns(),
                self.src_rows() == old(self).src_rows(),
                self.source_config() == old(self).source_config(),
                0 <= self.cursor_pos() <= self.src_rows().len(),
                result.columns.deep_view() == old(self).src_columns(),
                result.rows@.len() == self.cursor_pos(),
                forall|k: int|
                    0 <= k < result.rows@.len() ==> (#[trigger] result.rows@[k]).deep_view()
                        == all_rows[k],
                all_rows == old(self).db_rows(),
                all_rows.len() == old(self).src_rows().len(),
            ensures
                result.rows@.len() == all_rows.len(),
            decreases self.src_rows().len() - self.cursor_pos(),
        {
            let ghost pos = self.cursor_pos();
            match self.next_row() {
                Ok(Some(row)) => {
                    let ghost prev = result.rows@;
                    let ghost pushed = row;
                    result.rows.push(row);
                    proof {
                        assert(result.rows@ == prev.push(pushed));
                        assert(result.rows@[pos] == pushed);
                        assert(pushed.deep_view() == row_text(self.src_rows()[pos]));
                        assert(all_rows[pos] == row_text(self.src_rows()[pos]));
                    }
                },
                Ok(o) => {
                    proof {
                        assert(o is None);
                        assert(result.rows@.len() == all_rows.len());
                    }
                    break ;
                },
                Err(e) => {
                    return Err(e);
                },
            }
        }
        proof {
            assert forall|k: int| 0 <= k < all_rows.len() implies result.rows.deep_view()[k]
                == all_rows[k] by {
                assert(result.rows.deep_view()[k] == result.rows@[k].deep_view());
            }
            assert(result.rows.deep_view() =~~= all_rows);
        }
        Ok(result)
    }
}

} // verus!
