//! The row-source capability: a connected data source that executes one
//! query and yields its result either whole or as a stream of rows.
//!
//! The wire protocol of a real backend is out of scope here.  A backend
//! is reached through [`SqlClient`], a narrow port whose model is the
//! result set it would deliver: an ordered column list and an ordered
//! sequence of rows of nullable text fields.  [`MemClient`] is the
//! in-crate implementation of that port over in-memory data; an adapter
//! over a real driver lives with the embedding program.

pub mod oracle;

use vstd::prelude::*;

verus! {

/// What can go wrong between the pipeline and the data source.
#[derive(Debug, Clone)]
pub enum DbError {
    /// A query operation was attempted before `connect`.
    NotConnected,
    /// The session could not be established.
    Connect(String),
    /// Query execution or metadata retrieval failed.
    Query(String),
}

impl DbError {
    /// A human-readable description of the error.
    pub fn message(&self) -> (r: String)
        ensures
            self is NotConnected ==> r@ == "database not connected"@,
            self matches DbError::Connect(m) ==> r@ == "failed to connect to database: "@ + m@,
            self matches DbError::Query(m) ==> r@ == "query failed: "@ + m@,
    {
        match self {
            DbError::NotConnected => String::from_str("database not connected"),
            DbError::Connect(m) => String::from_str("failed to connect to database: ").concat(
                m.as_str(),
            ),
            DbError::Query(m) => String::from_str("query failed: ").concat(m.as_str()),
        }
    }
}

/// An absent source value is exported as the empty string.
pub open spec fn null_to_empty(field: Option<Seq<char>>) -> Seq<char> {
    match field {
        Some(s) => s,
        None => Seq::empty(),
    }
}

/// One row of nullable fields as the text values that are exported.
pub open spec fn row_text(row: Seq<Option<Seq<char>>>) -> Seq<Seq<char>> {
    row.map_values(|f: Option<Seq<char>>| null_to_empty(f))
}

/// One batch of a result set: the column names and a contiguous run of
/// rows, each field still carrying its nullness.
#[derive(Debug)]
pub struct QueryBatch {
    pub columns: Vec<String>,
    pub rows: Vec<Vec<Option<String>>>,
}

/// The port to a backend's wire protocol.  Its model is the result set
/// of the one query an export run executes: `columns` and `rows` are
/// fixed for the life of the client, and `fetch` hands out any
/// contiguous run of rows, so a caller can walk the set in bounded
/// batches without the port keeping cursor state.
pub trait SqlClient: Sized {
    /// The column names of the result set, in result order.
    spec fn columns(&self) -> Seq<Seq<char>>;

    /// The rows of the result set, in result order.
    spec fn rows(&self) -> Seq<Seq<Option<Seq<char>>>>;

    /// The result set is well formed: every row is as wide as the
    /// column list.
    spec fn wf(&self) -> bool;

    /// What well-formedness guarantees to callers.
    proof fn wf_facts(&self)
        requires
            self.wf(),
        ensures
            self.rows().len() <= usize::MAX,
            forall|i: int|
                0 <= i < self.rows().len() ==> (#[trigger] self.rows()[i]).len()
                    == self.columns().len(),
    ;

    /// Establish the session.  Nothing is promised of the outcome: a
    /// real backend may refuse for reasons outside this model.
    fn dial(&self, username: &str, password: &str, connect_string: &str) -> (r: Result<
        (),
        String,
    >);

    /// Execute the query and return the run of rows starting at
    /// `offset`, at most `limit` of them.  A short or empty batch means
    /// the result set ended.  Success is never owed; what a successful
    /// batch holds is exact.
    fn fetch(&self, query: &str, offset: usize, limit: usize) -> (r: Result<QueryBatch, String>)
        requires
            self.wf(),
            limit >= 1,
            offset <= self.rows().len(),
        ensures
            r matches Ok(batch) ==> batch.columns.deep_view() == self.columns()
                && batch.rows.deep_view() == self.rows().subrange(
                offset as int,
                if offset + limit <= self.rows().len() {
                    offset + limit
                } else {
                    self.rows().len() as int
                },
            ),
    ;
}

/// A complete, materialised query result.
#[derive(Debug)]
pub struct QueryResult {
    pub columns: Vec<String>,
    pub rows: Vec<Vec<String>>,
}

impl QueryResult {
    /// An empty result.
    pub fn new() -> (r: Self)
        ensures
            r.columns@.len() == 0,
            r.rows@.len() == 0,
    {
        Self { columns: Vec::new(), rows: Vec::new() }
    }
}

/// The capability a backend offers the pipeline: connect once, then
/// execute a query.  The model is the text result set the backend
/// yields — nulls already blanked — which a new backend variant
/// implements over its own wire client.
pub trait Database: Sized {
    /// The implementor's own invariant.
    spec fn db_wf(&self) -> bool;

    /// Is a session established?
    spec fn db_connected(&self) -> bool;

    /// The column names of the result set.
    spec fn db_columns(&self) -> Seq<Seq<char>>;

    /// The text rows of the result set, absent values as empty strings.
    spec fn db_rows(&self) -> Seq<Seq<Seq<char>>>;

    /// Establish the session.  Must be called before any query
    /// operation.
    fn connect(&mut self) -> (r: Result<(), DbError>)
        requires
            old(self).db_wf(),
        ensures
            final(self).db_wf(),
            r is Ok ==> final(self).db_connected(),
            final(self).db_columns() == old(self).db_columns(),
            final(self).db_rows() == old(self).db_rows(),
    ;

    /// Execute the query and return the whole result set at once.
    fn execute_query(&mut self, query: &str) -> (r: Result<QueryResult, DbError>)
        requires
            old(self).db_wf(),
        ensures
            final(self).db_wf(),
            final(self).db_connected() == old(self).db_connected(),
            final(self).db_columns() == old(self).db_columns(),
            final(self).db_rows() == old(self).db_rows(),
            !old(self).db_connected() ==> (r matches Err(e) && e is NotConnected),
            (r matches Err(e) && e is NotConnected) ==> !old(self).db_connected(),
            r matches Ok(qr) ==> old(self).db_connected() && qr.columns.deep_view() == old(
                self,
            ).db_columns() && qr.rows.deep_view() == old(self).db_rows(),
    ;
}

/// Copy one row of nullable fields.
fn clone_opt_row(row: &Vec<Option<String>>) -> (r: Vec<Option<String>>)
    ensures
        r@ == row@,
        r.deep_view() == row.deep_view(),
{
    let mut out: Vec<Option<String>> = Vec::new();
    let mut j: usize = 0;
    while j < row.len()
        invariant
            j <= row.len(),
            out@ =~= row@.take(j as int),
        decreases row.len() - j,
    {
        match &row[j] {
            Some(s) => out.push(Some(s.clone())),
            Option::None => out.push(Option::None),
        }
        proof {
            assert(out@ =~= row@.take(j + 1));
        }
        j += 1;
    }
    proof {
        assert(row@.take(row@.len() as int) =~= row@);
        assert(out.deep_view() =~~= row.deep_view());
    }
    out
}

/// Copy a column-name list.
fn clone_string_vec(v: &Vec<String>) -> (r: Vec<String>)
    ensures
        r@ == v@,
        r.deep_view() == v.deep_view(),
{
    let mut out: Vec<String> = Vec::new();
    let mut j: usize = 0;
    while j < v.len()
        invariant
            j <= v.len(),
            out@ =~= v@.take(j as int),
        decreases v.len() - j,
    {
        out.push(v[j].clone());
        proof {
            assert(out@ =~= v@.take(j + 1));
        }
        j += 1;
    }
    proof {
        assert(v@.take(v@.len() as int) =~= v@);
        assert(out.deep_view() =~~= v.deep_view());
    }
    out
}

/// The port of a build that carries no database driver: dialling and
/// fetching report the missing driver instead of reaching a server.
/// An embedding program wires it in where the driver crate cannot be
/// linked.
pub struct UnavailableClient;

impl SqlClient for UnavailableClient {
    closed spec fn columns(&self) -> Seq<Seq<char>> {
        Seq::empty()
    }

    closed spec fn rows(&self) -> Seq<Seq<Option<Seq<char>>>> {
        Seq::empty()
    }

    closed spec fn wf(&self) -> bool {
        true
    }

    proof fn wf_facts(&self) {
    }

    fn dial(&self, username: &str, password: &str, connect_string: &str) -> (r: Result<
        (),
        String,
    >) {
        Err(String::from_str("no database driver is linked into this build"))
    }

    fn fetch(&self, query: &str, offset: usize, limit: usize) -> (r: Result<QueryBatch, String>) {
        Err(String::from_str("no database driver is linked into this build"))
    }
}

/// The in-crate [`SqlClient`]: a result set held in memory.  It backs
/// the tests, and it is the reference model of what the port promises.
pub struct MemClient {
    columns: Vec<String>,
    rows: Vec<Vec<Option<String>>>,
}

impl MemClient {
    /// A client that will deliver exactly `rows` under `columns`.
    pub fn new(columns: Vec<String>, rows: Vec<Vec<Option<String>>>) -> (r: MemClient)
        requires
            forall|i: int|
                0 <= i < rows@.len() ==> (#[trigger] rows@[i])@.len() == columns@.len(),
        ensures
            r.columns() == columns.deep_view(),
            r.rows() == rows.deep_view(),
            r.wf(),
    {
        MemClient { columns, rows }
    }
}

impl SqlClient for MemClient {
    closed spec fn columns(&self) -> Seq<Seq<char>> {
        self.columns.deep_view()
    }

    closed spec fn rows(&self) -> Seq<Seq<Option<Seq<char>>>> {
        self.rows.deep_view()
    }

    closed spec fn wf(&self) -> bool {
        forall|i: int|
            0 <= i < self.rows@.len() ==> (#[trigger] self.rows@[i])@.len()
                == self.columns@.len()
    }

    proof fn wf_facts(&self) {
        assert(vstd::std_specs::vec::spec_vec_len(&self.rows) == self.rows@.len());
        assert(self.rows().len() == self.rows@.len());
        assert forall|i: int| 0 <= i < self.rows().len() implies (#[trigger] self.rows()[i]).len()
            == self.columns().len() by {
            assert(self.rows()[i] == self.rows@[i].deep_view());
        }
    }

    /// The in-memory source is always reachable.
    fn dial(&self, username: &str, password: &str, connect_string: &str) -> (r: Result<
        (),
        String,
    >) {
        Ok(())
    }

    /// The in-memory source always delivers.
    fn fetch(&self, query: &str, offset: usize, limit: usize) -> (r: Result<QueryBatch, String>)
        ensures
            r is Ok,
    {
        let columns = clone_string_vec(&self.columns);
        let end: usize = if limit <= self.rows.len() - offset {
            offset + limit
        } else {
            self.rows.len()
        };
        let mut rows: Vec<Vec<Option<String>>> = Vec::new();
        let mut k: usize = offset;
        while k < end
            invariant
                offset <= k <= end <= self.rows@.len(),
                rows.deep_view() =~~= self.rows.deep_view().subrange(offset as int, k as int),
            decreases end - k,
        {
            let cloned = clone_opt_row(&self.rows[k]);
            rows.push(cloned);
            proof {
                assert(self.rows.deep_view()[k as int] == self.rows@[k as int].deep_view());
                assert(rows.deep_view() =~~= self.rows.deep_view().subrange(
                    offset as int,
                    k + 1,
                ));
            }
            k += 1;
        }
        Ok(QueryBatch { columns, rows })
    }
}

} // verus!
