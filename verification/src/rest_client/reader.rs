//! The decisions of the batch reader of the general key-value API over REST.
//!
//! The reader asks for batches of the selection. Each request carries the
//! selection, the batch size and, after the first batch, the identity of the
//! last row read; each successful response carries a batch of rows as CSV.
//! Reading ends after a batch with fewer records than the batch size, or at a
//! response with a status that is not a success.

use vstd::prelude::*;
use crate::api::{KeyValueRow, KeyValueSelector, SelectorModel};
use crate::kvs_api::{clone_opt_string, opt_str_view, RowModel};
use crate::rest_client::query_builder::{carries, lemma_query_params_carry_fields, query_params, QueryModel};

verus! {

/// An error while reading key-values over REST.
#[derive(Debug, PartialEq)]
pub enum RestKeyValueReaderError {
    /// A record of the response could not be read.
    ReadError(String),
    /// The server answered with a status that is not a success.
    UnexpectedStatus(u16),
    /// The request could not be made.
    RequestError(String),
    /// Something else went wrong.
    Unknown,
}

/// The abstract content of a reader error.
pub enum ReaderErrorModel {
    ReadError(Seq<char>),
    UnexpectedStatus(u16),
    RequestError(Seq<char>),
    Unknown,
}

impl View for RestKeyValueReaderError {
    type V = ReaderErrorModel;

    open spec fn view(&self) -> ReaderErrorModel {
        match self {
            RestKeyValueReaderError::ReadError(m) => ReaderErrorModel::ReadError(m@),
            RestKeyValueReaderError::UnexpectedStatus(s) => ReaderErrorModel::UnexpectedStatus(*s),
            RestKeyValueReaderError::RequestError(m) => ReaderErrorModel::RequestError(m@),
            RestKeyValueReaderError::Unknown => ReaderErrorModel::Unknown,
        }
    }
}

/// What the reader yields at one position: a row or an error.
pub type BatchEntry = Result<KeyValueRow, RestKeyValueReaderError>;

/// The abstract content of a batch entry.
pub open spec fn batch_entry_view(e: BatchEntry) -> Result<RowModel, ReaderErrorModel> {
    match e {
        Ok(row) => Ok(row@),
        Err(err) => Err(err@),
    }
}

/// A record of a batch response as the CSV reader gave it: a row, or the text
/// of a CSV error.
pub type BatchRecord = Result<KeyValueRow, String>;

/// The abstract content of a record.
pub open spec fn record_view(r: BatchRecord) -> Result<RowModel, Seq<char>> {
    match r {
        Ok(row) => Ok(row@),
        Err(m) => Err(m@),
    }
}

/// The entry that a record yields: its row, or a read error with its text.
pub open spec fn record_entry(r: Result<RowModel, Seq<char>>) -> Result<RowModel, ReaderErrorModel> {
    match r {
        Ok(row) => Ok(row),
        Err(m) => Err(ReaderErrorModel::ReadError(m)),
    }
}

/// The last row among the records, or `last` where there is none.
pub open spec fn last_row_after(records: Seq<Result<RowModel, Seq<char>>>, last: Option<RowModel>) -> Option<RowModel>
    decreases records.len(),
{
    if records.len() == 0 {
        last
    } else {
        match records.last() {
            Ok(row) => Some(row),
            Err(_) => last_row_after(records.drop_last(), last),
        }
    }
}

/// The batch after which reading resumes ends at its last row: where the
/// record at `i` is a row and every later record is an error, that row;
/// where every record is an error, the row read before the batch.
pub proof fn lemma_last_row_after_is_last_row(records: Seq<Result<RowModel, Seq<char>>>, last: Option<RowModel>)
    ensures
        (forall|j: int| 0 <= j < records.len() ==> #[trigger] records[j] is Err) ==> last_row_after(
            records,
            last,
        ) == last,
        forall|i: int, row: RowModel|
            0 <= i < records.len() && records[i] == Ok::<RowModel, Seq<char>>(row) && (forall|j: int|
                i < j < records.len() ==> #[trigger] records[j] is Err) ==> last_row_after(records, last)
                == Some(row),
    decreases records.len(),
{
    if records.len() > 0 {
        let front = records.drop_last();
        lemma_last_row_after_is_last_row(front, last);
        let n = records.len() - 1;
        assert forall|j: int| 0 <= j < front.len() implies front[j] == records[j] by {}
        match records.last() {
            Ok(r) => {
                assert(records[n] == Ok::<RowModel, Seq<char>>(r));
            },
            Err(_) => {
                assert forall|i: int, row: RowModel|
                    0 <= i < records.len() && records[i] == Ok::<RowModel, Seq<char>>(row) && (forall|j: int|
                        i < j < records.len() ==> #[trigger] records[j] is Err) implies last_row_after(records, last)
                    == Some(row) by {
                    assert(i < n);
                    assert(front[i] == Ok::<RowModel, Seq<char>>(row));
                    assert forall|j: int| i < j < front.len() implies #[trigger] front[j] is Err by {
                        assert(records[j] is Err);
                    }
                }
            },
        }
    }
}

/// The abstract state of a batch read: the selection, the batch size and the
/// last row read so far.
pub struct BatchReadModel {
    pub selection: SelectorModel,
    pub batch_size: usize,
    pub last: Option<RowModel>,
}

/// The query of the next batch: the selection, the batch size, and the
/// identity of the last row read where there is one.
pub open spec fn batch_query(m: BatchReadModel) -> QueryModel {
    QueryModel {
        namespace: m.selection.namespace,
        name: m.selection.name,
        key: m.selection.key,
        value: m.selection.value,
        last_namespace: match m.last { Some(r) => Some(r.namespace), None => None },
        last_name: match m.last { Some(r) => Some(r.name), None => None },
        last_key: match m.last { Some(r) => Some(r.key), None => None },
        size: Some(m.batch_size),
    }
}

/// The query of every batch carries the selection unchanged and the batch
/// size; it resumes after the last row read where there is one, and carries no
/// last row before the first batch.
pub proof fn lemma_batch_query_fields(m: BatchReadModel)
    ensures
        batch_query(m).namespace == m.selection.namespace,
        batch_query(m).name == m.selection.name,
        batch_query(m).key == m.selection.key,
        batch_query(m).value == m.selection.value,
        batch_query(m).size == Some(m.batch_size),
        m.last is None ==> {
            &&& batch_query(m).last_namespace is None
            &&& batch_query(m).last_name is None
            &&& batch_query(m).last_key is None
        },
        m.last matches Some(row) ==> {
            &&& batch_query(m).last_namespace == Some(row.namespace)
            &&& batch_query(m).last_name == Some(row.name)
            &&& batch_query(m).last_key == Some(row.key)
        },
{
}

/// The parameters of the request of every batch carry the selection: the
/// pair `("key", k)` is among them exactly when the selection's key is `k`,
/// and likewise for `namespace`, `name` and `value`.
pub proof fn lemma_batch_params_carry_selection(m: BatchReadModel)
    ensures
        carries(query_params(batch_query(m)), "namespace"@, m.selection.namespace),
        carries(query_params(batch_query(m)), "name"@, m.selection.name),
        carries(query_params(batch_query(m)), "key"@, m.selection.key),
        carries(query_params(batch_query(m)), "value"@, m.selection.value),
{
    lemma_batch_query_fields(m);
    lemma_query_params_carry_fields(batch_query(m));
}

/// The schema of the query of a batch.
pub struct Query {
    namespace: Option<String>,
    name: Option<String>,
    key: Option<String>,
    value: Option<String>,
    last_namespace: Option<String>,
    last_name: Option<String>,
    last_key: Option<String>,
    size: Option<usize>,
}

impl View for Query {
    type V = QueryModel;

    closed spec fn view(&self) -> QueryModel {
        QueryModel {
            namespace: opt_str_view(self.namespace),
            name: opt_str_view(self.name),
            key: opt_str_view(self.key),
            value: opt_str_view(self.value),
            last_namespace: opt_str_view(self.last_namespace),
            last_name: opt_str_view(self.last_name),
            last_key: opt_str_view(self.last_key),
            size: self.size,
        }
    }
}

impl Default for Query {
    /// The empty query.
    fn default() -> (r: Self)
        ensures
            r@ == QueryModel::empty(),
    {
        Query {
            namespace: None,
            name: None,
            key: None,
            value: None,
            last_namespace: None,
            last_name: None,
            last_key: None,
            size: None,
        }
    }
}

impl Query {
    /// The empty query.
    pub fn new() -> (r: Self)
        ensures
            r@ == QueryModel::empty(),
    {
        Self::default()
    }

    /// Take the selection of `selector`.
    pub fn selector(self, selector: &KeyValueSelector) -> (r: Self)
        ensures
            r@ == self@.with_selector(*selector),
            r@.namespace == selector@.namespace,
            r@.name == selector@.name,
            r@.key == selector@.key,
            r@.value == selector@.value,
            r@.last_namespace == self@.last_namespace,
            r@.last_name == self@.last_name,
            r@.last_key == self@.last_key,
            r@.size == self@.size,
    {
        let mut s = self;
        s.namespace = clone_opt_string(&selector.namespace);
        s.name = clone_opt_string(&selector.name);
        s.key = clone_opt_string(&selector.key);
        s.value = clone_opt_string(&selector.value);
        s
    }

    /// Resume after the row `kvr`.
    pub fn last(self, kvr: &KeyValueRow) -> (r: Self)
        ensures
            r@ == self@.with_last(*kvr),
            r@.last_namespace == Some(kvr.namespace@),
            r@.last_name == Some(kvr.name@),
            r@.last_key == Some(kvr.key@),
            r@.namespace == self@.namespace,
            r@.name == self@.name,
            r@.key == self@.key,
            r@.value == self@.value,
            r@.size == self@.size,
    {
        let mut s = self;
        s.last_namespace = Some(kvr.namespace.clone());
        s.last_name = Some(kvr.name.clone());
        s.last_key = Some(kvr.key.clone());
        s
    }

    /// Set the batch size.
    pub fn size(self, size: usize) -> (r: Self)
        ensures
            r@ == (QueryModel { size: Some(size), ..self@ }),
    {
        let mut s = self;
        s.size = Some(size);
        s
    }

    /// The parts of the query, in the order of its fields.
    pub fn into_parts(self) -> (r: (
        Option<String>,
        Option<String>,
        Option<String>,
        Option<String>,
        Option<String>,
        Option<String>,
        Option<String>,
        Option<usize>,
    ))
        ensures
            self@ == (QueryModel {
                namespace: opt_str_view(r.0),
                name: opt_str_view(r.1),
                key: opt_str_view(r.2),
                value: opt_str_view(r.3),
                last_namespace: opt_str_view(r.4),
                last_name: opt_str_view(r.5),
                last_key: opt_str_view(r.6),
                size: r.7,
            }),
    {
        (
            self.namespace,
            self.name,
            self.key,
            self.value,
            self.last_namespace,
            self.last_name,
            self.last_key,
            self.size,
        )
    }
}

/// A batch read in progress: the next batch is still to be asked for.
pub struct BatchRead {
    selector: KeyValueSelector,
    batch_size: usize,
    last: Option<KeyValueRow>,
}

impl View for BatchRead {
    type V = BatchReadModel;

    closed spec fn view(&self) -> BatchReadModel {
        BatchReadModel {
            selection: self.selector@,
            batch_size: self.batch_size,
            last: match self.last {
                Some(r) => Some(r@),
                None => None,
            },
        }
    }
}

/// What a batch response gives: the entries it yields and, unless reading has
/// ended, the read of the next batch.
pub struct BatchStep {
    pub entries: Vec<BatchEntry>,
    pub next: Option<BatchRead>,
}

impl BatchRead {
    /// Starts reading `selector` in batches of `batch_size` rows.
    pub fn start(selector: KeyValueSelector, batch_size: usize) -> (r: BatchRead)
        requires
            batch_size > 0,
        ensures
            r@ == (BatchReadModel { selection: selector@, batch_size, last: None }),
    {
        BatchRead { selector, batch_size, last: None }
    }

    /// The batch size.
    pub fn batch_size(&self) -> (r: usize)
        ensures
            r == self@.batch_size,
    {
        self.batch_size
    }

    /// The query of the next batch.
    pub fn next_query(&self) -> (r: Query)
        ensures
            r@ == batch_query(self@),
            r@.namespace == self@.selection.namespace,
            r@.name == self@.selection.name,
            r@.key == self@.selection.key,
            r@.value == self@.selection.value,
            r@.size == Some(self@.batch_size),
            self@.last is None ==> {
                &&& r@.last_namespace is None
                &&& r@.last_name is None
                &&& r@.last_key is None
            },
            self@.last matches Some(row) ==> {
                &&& r@.last_namespace == Some(row.namespace)
                &&& r@.last_name == Some(row.name)
                &&& r@.last_key == Some(row.key)
            },
    {
        let query = Query::new().selector(&self.selector).size(self.batch_size);
        match &self.last {
            Some(last) => query.last(last),
            None => query,
        }
    }

    /// What a response with a status that is not a success gives: that error,
    /// and the end of reading.
    pub fn on_failure(self, status: u16) -> (r: BatchStep)
        ensures
            r.entries@.len() == 1,
            batch_entry_view(r.entries@[0]) == Err::<RowModel, _>(ReaderErrorModel::UnexpectedStatus(status)),
            r.next is None,
    {
        let mut entries: Vec<BatchEntry> = Vec::new();
        entries.push(Err(RestKeyValueReaderError::UnexpectedStatus(status)));
        BatchStep { entries, next: None }
    }

    /// What a successful batch response gives: an entry per record, in order
    /// (a row, or a read error). Where the records are at least as many as
    /// the batch size, the next batch is asked for after the last row read.
    pub fn on_batch(self, records: Vec<BatchRecord>) -> (r: BatchStep)
        ensures
            ({
                let rv = records@.map_values(|x: BatchRecord| record_view(x));
                &&& r.entries@.map_values(|e: BatchEntry| batch_entry_view(e)) == rv.map_values(
                    |x: Result<RowModel, Seq<char>>| record_entry(x),
                )
                &&& match r.next {
                    Some(n) => {
                        &&& records@.len() >= self@.batch_size
                        &&& n@ == (BatchReadModel { last: last_row_after(rv, self@.last), ..self@ })
                    },
                    None => records@.len() < self@.batch_size,
                }
            }),
    {
        let ghost rv = records@.map_values(|x: BatchRecord| record_view(x));
        let ghost old_last = self@.last;
        let mut entries: Vec<BatchEntry> = Vec::new();
        let mut last = self.last;
        let mut i: usize = 0;
        while i < records.len()
            invariant
                i <= records@.len(),
                rv == records@.map_values(|x: BatchRecord| record_view(x)),
                entries@.map_values(|e: BatchEntry| batch_entry_view(e)) == rv.take(i as int).map_values(
                    |x: Result<RowModel, Seq<char>>| record_entry(x),
                ),
                (match last { Some(r) => Some(r@), None => None }) == last_row_after(rv.take(i as int), old_last),
            decreases records@.len() - i,
        {
            let ghost before = entries@;
            let ghost prefix = rv.take(i + 1);
            assert(prefix.drop_last() =~= rv.take(i as int));
            assert(prefix.last() == record_view(records@[i as int]));
            match &records[i] {
                Ok(row) => {
                    entries.push(Ok(row.copy()));
                    last = Some(row.copy());
                },
                Err(m) => {
                    entries.push(Err(RestKeyValueReaderError::ReadError(m.clone())));
                },
            }
            assert(entries@.len() == before.len() + 1);
            assert(entries@.drop_last() =~= before);
            assert(batch_entry_view(entries@.last()) == record_entry(prefix.last()));
            assert(entries@.map_values(|e: BatchEntry| batch_entry_view(e)) =~= before.map_values(
                |e: BatchEntry| batch_entry_view(e),
            ).push(record_entry(prefix.last())));
            assert(prefix.map_values(|x: Result<RowModel, Seq<char>>| record_entry(x)) =~= rv.take(
                i as int,
            ).map_values(|x: Result<RowModel, Seq<char>>| record_entry(x)).push(record_entry(prefix.last())));
            i = i + 1;
        }
        assert(rv.take(i as int) =~= rv);
        if records.len() < self.batch_size {
            BatchStep { entries, next: None }
        } else {
            BatchStep {
                entries,
                next: Some(BatchRead { selector: self.selector, batch_size: self.batch_size, last }),
            }
        }
    }
}

} // verus!
