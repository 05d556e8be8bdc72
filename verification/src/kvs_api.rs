//! The key-value storage API: rows, selections and reader metadata.

use vstd::prelude::*;

verus! {

/// Cursor that tells where to resume reading.
pub type Cursor = Vec<u8>;

/// The view of an optional string.
pub open spec fn opt_str_view(o: Option<String>) -> Option<Seq<char>> {
    match o {
        Some(s) => Some(s@),
        None => None,
    }
}

/// The view of an optional cursor.
pub open spec fn opt_cursor_view(o: Option<Cursor>) -> Option<Seq<u8>> {
    match o {
        Some(c) => Some(c@),
        None => None,
    }
}

/// Copies an optional string.
pub fn clone_opt_string(o: &Option<String>) -> (r: Option<String>)
    ensures
        opt_str_view(r) == opt_str_view(*o),
{
    match o {
        Some(s) => Some(s.clone()),
        None => None,
    }
}

/// Copies an optional cursor.
pub fn clone_opt_cursor(o: &Option<Cursor>) -> (r: Option<Cursor>)
    ensures
        opt_cursor_view(r) == opt_cursor_view(*o),
{
    match o {
        Some(c) => Some(vstd::slice::slice_to_vec(c.as_slice())),
        None => None,
    }
}

/// Metadata of read operation. It contains some information about the operation
/// itself.
#[derive(Debug, Clone)]
pub struct KeyValueStorageReaderMetadata {
    /// Cursor that can be None if there is no more data to read.
    pub cursor: Option<Cursor>,
}

impl KeyValueStorageReaderMetadata {
    /// Metadata without a cursor: there is nothing more to read.
    pub fn new() -> (r: Self)
        ensures
            r.cursor is None,
    {
        Self { cursor: None }
    }

    /// Metadata whose cursor is a copy of `cursor`.
    pub fn with_cursor(cursor: &[u8]) -> (r: Self)
        ensures
            opt_cursor_view(r.cursor) == Some(cursor@),
    {
        Self { cursor: Some(vstd::slice::slice_to_vec(cursor)) }
    }
}

/// An error that happened while reading key-values.
#[derive(Debug, PartialEq, Clone)]
pub enum KeyValueStorageReaderError {
    UnknownError(String),
}

impl KeyValueStorageReaderError {
    /// The message of the error.
    pub open spec fn message(self) -> Seq<char> {
        match self {
            KeyValueStorageReaderError::UnknownError(m) => m@,
        }
    }
}

/// What a read yields at one position: a row or an error.
pub type ReadEntry = Result<KeyValueRow, KeyValueStorageReaderError>;

/// The abstract content of a read entry: a row or an error message.
pub type EntryModel = Result<RowModel, Seq<char>>;

/// The abstract content of a read entry.
pub open spec fn entry_view(e: ReadEntry) -> EntryModel {
    match e {
        Ok(row) => Ok(row@),
        Err(err) => Err(err.message()),
    }
}

/// The abstract content of read entries.
pub open spec fn entries_view(es: Seq<ReadEntry>) -> Seq<EntryModel> {
    es.map_values(|e: ReadEntry| entry_view(e))
}

/// A copy of a read entry.
pub fn copy_entry(e: &ReadEntry) -> (r: ReadEntry)
    ensures
        entry_view(r) == entry_view(*e),
{
    match e {
        Ok(row) => Ok(row.copy()),
        Err(KeyValueStorageReaderError::UnknownError(m)) => Err(
            KeyValueStorageReaderError::UnknownError(m.clone()),
        ),
    }
}

/// A copy of the entries `es[from..to]`.
pub fn copy_entries(es: &[ReadEntry], from: usize, to: usize) -> (r: Vec<ReadEntry>)
    requires
        from <= to <= es@.len(),
    ensures
        entries_view(r@) == entries_view(es@).subrange(from as int, to as int),
{
    let mut out: Vec<ReadEntry> = Vec::new();
    let mut i = from;
    while i < to
        invariant
            from <= i <= to <= es@.len(),
            entries_view(out@) == entries_view(es@).subrange(from as int, i as int),
        decreases to - i,
    {
        let ghost before = out@;
        out.push(copy_entry(&es[i]));
        assert(entries_view(out@) =~= entries_view(before).push(entry_view(es@[i as int])));
        assert(entries_view(out@) =~= entries_view(es@).subrange(from as int, i + 1));
        i = i + 1;
    }
    out
}

/// An error of a single upsert. It has no values: no upsert of the storage
/// API fails.
#[derive(Debug, PartialEq)]
pub struct KeyValueUpsertError(pub core::convert::Infallible);

/// An error of a transactional upsert. It has no values: no transactional
/// upsert of the storage API fails.
#[derive(Debug, PartialEq)]
pub struct KeyValueUpsertTxError(pub core::convert::Infallible);

/// The abstract content of a row: four strings.
pub struct RowModel {
    pub namespace: Seq<char>,
    pub name: Seq<char>,
    pub key: Seq<char>,
    pub value: Seq<char>,
}

/// The main key-value abstraction.
#[derive(Debug, PartialEq, Clone)]
pub struct KeyValueRow {
    /// Can be used for specifying object class, file path, namespace and so on.
    pub namespace: String,
    /// Unique name in the namespace. It can be used as object id or file name.
    pub name: String,
    /// Specifies object property.
    pub key: String,
    /// Value of the property.
    pub value: String,
}

impl View for KeyValueRow {
    type V = RowModel;

    open spec fn view(&self) -> RowModel {
        RowModel {
            namespace: self.namespace@,
            name: self.name@,
            key: self.key@,
            value: self.value@,
        }
    }
}

impl KeyValueRow {
    /// Create key-value.
    pub fn new(namespace: &str, name: &str, key: &str, value: &str) -> (r: Self)
        ensures
            r@ == (RowModel { namespace: namespace@, name: name@, key: key@, value: value@ }),
    {
        KeyValueRow {
            namespace: namespace.to_owned(),
            name: name.to_owned(),
            key: key.to_owned(),
            value: value.to_owned(),
        }
    }

    /// A copy of the row.
    pub fn copy(&self) -> (r: Self)
        ensures
            r@ == self@,
    {
        KeyValueRow {
            namespace: self.namespace.clone(),
            name: self.name.clone(),
            key: self.key.clone(),
            value: self.value.clone(),
        }
    }
}

/// The abstract content of a selection: what each field is matched against,
/// where to resume and how many rows to take.
pub struct SelectionModel {
    pub namespace: Option<Seq<char>>,
    pub name: Option<Seq<char>>,
    pub key: Option<Seq<char>>,
    pub value: Option<Seq<char>>,
    pub cursor: Option<Seq<u8>>,
    pub limit: Option<usize>,
}

impl SelectionModel {
    /// Nothing selected yet.
    pub open spec fn empty() -> SelectionModel {
        SelectionModel {
            namespace: None,
            name: None,
            key: None,
            value: None,
            cursor: None,
            limit: None,
        }
    }
}

/// Directives those define which rows should be selected.
pub struct KeyValueSelectionDirectives {
    namespace: Option<String>,
    name: Option<String>,
    key: Option<String>,
    value: Option<String>,
    cursor: Option<Cursor>,
    limit: Option<usize>,
}

impl View for KeyValueSelectionDirectives {
    type V = SelectionModel;

    closed spec fn view(&self) -> SelectionModel {
        SelectionModel {
            namespace: opt_str_view(self.namespace),
            name: opt_str_view(self.name),
            key: opt_str_view(self.key),
            value: opt_str_view(self.value),
            cursor: opt_cursor_view(self.cursor),
            limit: self.limit,
        }
    }
}

impl Default for KeyValueSelectionDirectives {
    /// Directives that select everything.
    fn default() -> (r: Self)
        ensures
            r@ == SelectionModel::empty(),
    {
        KeyValueSelectionDirectives {
            namespace: None,
            name: None,
            key: None,
            value: None,
            cursor: None,
            limit: None,
        }
    }
}

impl KeyValueSelectionDirectives {
    /// Set an expression for matching namespace.
    pub fn namespace(self, expression: &str) -> (r: Self)
        ensures
            r@ == (SelectionModel { namespace: Some(expression@), ..self@ }),
    {
        let mut s = self;
        s.namespace = Some(expression.to_owned());
        s
    }

    /// Set an expression for matching names.
    pub fn name(self, expression: &str) -> (r: Self)
        ensures
            r@ == (SelectionModel { name: Some(expression@), ..self@ }),
    {
        let mut s = self;
        s.name = Some(expression.to_owned());
        s
    }

    /// Set an expression for matching keys.
    pub fn key(self, expression: &str) -> (r: Self)
        ensures
            r@ == (SelectionModel { key: Some(expression@), ..self@ }),
    {
        let mut s = self;
        s.key = Some(expression.to_owned());
        s
    }

    /// A token for requesting the next batch.
    pub fn cursor(self, cursor: &Cursor) -> (r: Self)
        ensures
            r@ == (SelectionModel { cursor: Some(cursor@), ..self@ }),
    {
        let mut s = self;
        s.cursor = Some(vstd::slice::slice_to_vec(cursor.as_slice()));
        s
    }

    /// Limit for the selected batch.
    pub fn limit(self, limit: &usize) -> (r: Self)
        ensures
            r@ == (SelectionModel { limit: Some(*limit), ..self@ }),
    {
        let mut s = self;
        s.limit = Some(*limit);
        s
    }

    /// Finish composing selection.
    pub fn select(self) -> (r: KeyValueSelectionTermination)
        ensures
            r@ == self@,
    {
        KeyValueSelectionTermination {
            namespace: self.namespace,
            name: self.name,
            key: self.key,
            value: self.value,
            cursor: self.cursor,
            limit: self.limit,
        }
    }
}

/// A set of expressions for matching rows.
#[derive(Debug, Clone)]
pub struct KeyValueSelectionTermination {
    pub namespace: Option<String>,
    pub name: Option<String>,
    pub key: Option<String>,
    pub value: Option<String>,
    pub cursor: Option<Cursor>,
    pub limit: Option<usize>,
}

impl View for KeyValueSelectionTermination {
    type V = SelectionModel;

    open spec fn view(&self) -> SelectionModel {
        SelectionModel {
            namespace: opt_str_view(self.namespace),
            name: opt_str_view(self.name),
            key: opt_str_view(self.key),
            value: opt_str_view(self.value),
            cursor: opt_cursor_view(self.cursor),
            limit: self.limit,
        }
    }
}

impl KeyValueSelectionTermination {
    /// A copy of the selection.
    pub fn copy(&self) -> (r: Self)
        ensures
            r@ == self@,
    {
        KeyValueSelectionTermination {
            namespace: clone_opt_string(&self.namespace),
            name: clone_opt_string(&self.name),
            key: clone_opt_string(&self.key),
            value: clone_opt_string(&self.value),
            cursor: clone_opt_cursor(&self.cursor),
            limit: self.limit,
        }
    }
}

} // verus!
