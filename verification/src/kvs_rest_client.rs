//! The decisions of the key-value storage REST client: which page to ask for
//! next, what a page response yields, and when reading ends.
//!
//! The client reads the selection page by page. Each request carries the
//! selection, the page size as its limit and the cursor of the page; each
//! successful response carries the rows of the page as CSV and, where another
//! page follows, its cursor in the `X-Cursor` header. Reading ends after a page
//! without a cursor, or at the first failure. A selection with a limit is
//! refused: the client reads every selected row.

use vstd::prelude::*;
use vstd::string::StringExecFns;
use crate::kvs_api::{
    clone_opt_cursor, opt_cursor_view, Cursor, KeyValueRow,
    KeyValueSelectionTermination, KeyValueStorageReaderError, KeyValueStorageReaderMetadata, RowModel,
    SelectionModel,
};
use crate::kvs_rest_common::{
    base64_url_decode, cursor_text, url_safe_base64_decoding, url_safe_base64_encoding, Query,
};

verus! {

/// Whether an HTTP status code is a success (200 to 299), as
/// `http::StatusCode::is_success` decides.
pub open spec fn spec_is_success(status: u16) -> bool {
    200 <= status && status < 300
}

/// Whether an HTTP status code is a success (200 to 299).
pub fn is_success(status: u16) -> (r: bool)
    ensures
        r == spec_is_success(status),
        r <==> 200 <= status < 300,
{
    200 <= status && status < 300
}

/// The message of a read that the selection's limit stopped.
pub open spec fn limit_unsupported() -> Seq<char> {
    "Limit is unsupported"@
}

/// The message of a response with a status that is not a success.
pub open spec fn status_message(status: Seq<char>, body: Seq<char>) -> Seq<char> {
    status + ": "@ + body
}

/// The error of a response with a status that is not a success: the status
/// and the response body.
pub fn unexpected_status_error(status: &str, body: &str) -> (r: KeyValueStorageReaderError)
    ensures
        r.message() == status_message(status@, body@),
{
    let mut msg = status.to_owned();
    msg.append(": ");
    msg.append(body);
    KeyValueStorageReaderError::UnknownError(msg)
}

/// The cursor of the next page, from the text of the response's cursor header
/// (none without the header). The text must be URL-safe base64: the reading
/// task stops on any other. The cursor encodes back to the header text, so the
/// next request carries that text unchanged.
pub fn extract_cursor(header: Option<&str>) -> (r: Option<Cursor>)
    requires
        header matches Some(t) ==> url_safe_base64_decoding(t@) is Some,
    ensures
        match header {
            Some(t) => {
                &&& url_safe_base64_decoding(t@) == opt_cursor_view(r)
                &&& r matches Some(c) && url_safe_base64_encoding(c@) == t@
                &&& cursor_text(opt_cursor_view(r)) == Some(t@)
            },
            None => r is None,
        },
{
    match header {
        Some(t) => match base64_url_decode(t) {
            Ok(bytes) => Some(bytes),
            Err(_) => None,
        },
        None => None,
    }
}

/// The cursor of the next page where the header text is URL-safe base64 (or
/// missing); otherwise the decoding error.
pub fn try_extract_cursor(header: Option<&str>) -> (r: Result<Option<Cursor>, base64::DecodeError>)
    ensures
        match r {
            Ok(c) => match header {
                Some(t) => {
                    &&& url_safe_base64_decoding(t@) == opt_cursor_view(c)
                    &&& c matches Some(b) && url_safe_base64_encoding(b@) == t@
                },
                None => c is None,
            },
            Err(_) => header matches Some(t) && url_safe_base64_decoding(t@) is None,
        },
{
    match header {
        Some(t) => match base64_url_decode(t) {
            Ok(_) => Ok(extract_cursor(header)),
            Err(e) => Err(e),
        },
        None => Ok(extract_cursor(header)),
    }
}

/// A row of a page response as the CSV reader gave it: a row, or the text of
/// a CSV error.
pub type ResponseRow = Result<KeyValueRow, String>;

/// The abstract content of a response row.
pub open spec fn response_row_view(r: ResponseRow) -> Result<RowModel, Seq<char>> {
    match r {
        Ok(row) => Ok(row@),
        Err(m) => Err(m@),
    }
}

/// The rows that a page response delivers, at most `room` of them: the rows in
/// order, up to the first CSV error or the first row beyond `room`.
pub open spec fn page_rows(rows: Seq<Result<RowModel, Seq<char>>>, room: nat) -> Seq<RowModel>
    decreases rows.len(),
{
    if rows.len() == 0 {
        seq![]
    } else {
        match rows[0] {
            Err(_) => seq![],
            Ok(row) => if room == 0 {
                seq![]
            } else {
                seq![row] + page_rows(rows.drop_first(), (room - 1) as nat)
            },
        }
    }
}

/// What stops reading in the middle of a page.
pub enum PageStop {
    /// A record could not be read: the reading ends with its error.
    Failed(Seq<char>),
    /// A row beyond the page size: the reading task stops for want of a permit.
    PermitMissing,
}

/// What stops reading in the middle of a page, if anything: the first CSV
/// error, or a row beyond `room`, whichever comes first.
pub open spec fn page_stop(rows: Seq<Result<RowModel, Seq<char>>>, room: nat) -> Option<PageStop>
    decreases rows.len(),
{
    if rows.len() == 0 {
        None
    } else {
        match rows[0] {
            Err(m) => Some(PageStop::Failed(m)),
            Ok(_) => if room == 0 {
                Some(PageStop::PermitMissing)
            } else {
                page_stop(rows.drop_first(), (room - 1) as nat)
            },
        }
    }
}

/// What a page response delivers, stated by position: the first `k` records
/// are rows and are delivered in their order, `k` is at most `room`, and the
/// record at `k`, where there is one, is an error or the first row beyond
/// `room`. Reading stops at that record, with its error or for want of a
/// permit; it stops nowhere when every record was delivered.
pub proof fn lemma_page_rows_by_position(rv: Seq<Result<RowModel, Seq<char>>>, room: nat)
    ensures
        page_rows(rv, room).len() <= room,
        page_rows(rv, room).len() <= rv.len(),
        forall|i: int|
            0 <= i < page_rows(rv, room).len() ==> rv[i] == Ok::<RowModel, Seq<char>>(
                #[trigger] page_rows(rv, room)[i],
            ),
        page_rows(rv, room).len() == rv.len() ==> page_stop(rv, room) is None,
        page_rows(rv, room).len() < rv.len() ==> match rv[page_rows(rv, room).len() as int] {
            Err(m) => page_stop(rv, room) == Some(PageStop::Failed(m)),
            Ok(_) => page_rows(rv, room).len() == room && page_stop(rv, room) == Some(PageStop::PermitMissing),
        },
    decreases rv.len(),
{
    if rv.len() > 0 {
        match rv[0] {
            Err(_) => {},
            Ok(row) => {
                if room > 0 {
                    let rest = rv.drop_first();
                    lemma_page_rows_by_position(rest, (room - 1) as nat);
                    let pr = page_rows(rv, room);
                    assert(pr == seq![row] + page_rows(rest, (room - 1) as nat));
                    assert forall|i: int| 0 <= i < pr.len() implies rv[i] == Ok::<RowModel, Seq<char>>(
                        #[trigger] pr[i],
                    ) by {
                        if i > 0 {
                            assert(pr[i] == page_rows(rest, (room - 1) as nat)[i - 1]);
                            assert(rv[i] == rest[i - 1]);
                        }
                    }
                    if pr.len() < rv.len() {
                        assert(rv[pr.len() as int] == rest[page_rows(rest, (room - 1) as nat).len() as int]);
                    }
                }
            },
        }
    }
}

/// The view of rows.
pub open spec fn rows_view(rows: Seq<KeyValueRow>) -> Seq<RowModel> {
    rows.map_values(|r: KeyValueRow| r@)
}

/// The abstract state of a paged read: the selection, the page size and the
/// cursor of the next page.
pub struct PagedReadModel {
    pub selection: SelectionModel,
    pub page_size: usize,
    pub cursor: Option<Seq<u8>>,
}

/// The query that asks for the next page: the selection, the page size as its
/// limit, and the cursor of the page (the selection's own where the read has
/// none).
pub open spec fn page_query(m: PagedReadModel) -> SelectionModel {
    SelectionModel {
        limit: Some(m.page_size),
        cursor: match m.cursor {
            Some(c) => Some(c),
            None => m.selection.cursor,
        },
        ..m.selection
    }
}

/// The query of every page carries the selection unchanged, with the page
/// size as its limit; it asks for the page after the read's cursor where the
/// read has one, and from the selection's own cursor before that.
pub proof fn lemma_page_query_fields(m: PagedReadModel)
    ensures
        page_query(m).namespace == m.selection.namespace,
        page_query(m).name == m.selection.name,
        page_query(m).key == m.selection.key,
        page_query(m).value == m.selection.value,
        page_query(m).limit == Some(m.page_size),
        m.cursor is None ==> page_query(m).cursor == m.selection.cursor,
        m.cursor is Some ==> page_query(m).cursor == m.cursor,
{
}

/// A paged read in progress: the next page is still to be asked for.
pub struct PagedRead {
    selector: KeyValueSelectionTermination,
    page_size: usize,
    cursor: Option<Cursor>,
}

impl View for PagedRead {
    type V = PagedReadModel;

    closed spec fn view(&self) -> PagedReadModel {
        PagedReadModel {
            selection: self.selector@,
            page_size: self.page_size,
            cursor: opt_cursor_view(self.cursor),
        }
    }
}

/// How a page response ends.
pub enum PageEnd {
    /// The next page is to be read.
    Next(PagedRead),
    /// The page was the last: reading ends without error.
    Done,
    /// Reading ends with this error, after the rows of the page.
    Failed(KeyValueStorageReaderError),
    /// The page holds more rows than the page size: after the rows that fit,
    /// the reading task stops for want of a permit ("Permit should exist").
    PermitMissing,
}

/// What a page response gives: the rows it delivers, and how it ends.
pub struct PageStep {
    pub rows: Vec<KeyValueRow>,
    pub end: PageEnd,
}

impl PagedRead {
    /// Starts reading `selector` in pages of `page_size` rows, from the
    /// selection's cursor. A selection with a limit is refused: reading takes
    /// every selected row.
    pub fn start(selector: KeyValueSelectionTermination, page_size: usize) -> (r: Result<
        PagedRead,
        KeyValueStorageReaderError,
    >)
        requires
            page_size > 0,
        ensures
            match r {
                Ok(read) => {
                    &&& selector@.limit is None
                    &&& read@ == (PagedReadModel {
                        selection: selector@,
                        page_size,
                        cursor: selector@.cursor,
                    })
                },
                Err(e) => selector@.limit is Some && e.message() == limit_unsupported(),
            },
    {
        if selector.limit.is_some() {
            return Err(KeyValueStorageReaderError::UnknownError("Limit is unsupported".to_owned()));
        }
        let cursor = clone_opt_cursor(&selector.cursor);
        Ok(PagedRead { selector, page_size, cursor })
    }

    /// The page size.
    pub fn page_size(&self) -> (r: usize)
        ensures
            r == self@.page_size,
    {
        self.page_size
    }

    /// The query of the next page.
    pub fn next_query(&self) -> (r: Query)
        ensures
            r@ == page_query(self@),
            r@.namespace == self@.selection.namespace,
            r@.name == self@.selection.name,
            r@.key == self@.selection.key,
            r@.value == self@.selection.value,
            r@.limit == Some(self@.page_size),
            self@.cursor is None ==> r@.cursor == self@.selection.cursor,
            self@.cursor is Some ==> r@.cursor == self@.cursor,
    {
        let query = Query::from_selection(&self.selector).limit(&self.page_size);
        match &self.cursor {
            Some(cursor) => query.cursor(cursor),
            None => query,
        }
    }

    /// The metadata of the read: this read takes every page, so it has no
    /// cursor.
    pub fn metadata(&self) -> (r: KeyValueStorageReaderMetadata)
        ensures
            r.cursor is None,
    {
        KeyValueStorageReaderMetadata::new()
    }

    /// What a response with a status that is not a success gives: the error
    /// that ends reading, made of the status and the response body. No page is
    /// read after it.
    pub fn on_failure(self, status: &str, body: &str) -> (r: KeyValueStorageReaderError)
        ensures
            r.message() == status_message(status@, body@),
    {
        unexpected_status_error(status, body)
    }

    /// What a successful page response gives, with `cursor` the cursor of its
    /// header. The page delivers its rows as `page_rows` says; reading ends
    /// where `page_stop` says it stops, otherwise after a page without a
    /// cursor; otherwise the next page is read from that cursor.
    pub fn on_page(self, cursor: Option<Cursor>, rows: Vec<ResponseRow>) -> (r: PageStep)
        ensures
            ({
                let rv = rows@.map_values(|x: ResponseRow| response_row_view(x));
                let room = self@.page_size as nat;
                &&& rows_view(r.rows@) == page_rows(rv, room)
                &&& match r.end {
                    PageEnd::Next(n) => {
                        &&& page_stop(rv, room) is None
                        &&& cursor is Some
                        &&& n@ == (PagedReadModel { cursor: opt_cursor_view(cursor), ..self@ })
                    },
                    PageEnd::Done => page_stop(rv, room) is None && cursor is None,
                    PageEnd::Failed(e) => page_stop(rv, room) == Some(PageStop::Failed(e.message())),
                    PageEnd::PermitMissing => page_stop(rv, room) == Some(PageStop::PermitMissing),
                }
            }),
    {
        let ghost rv = rows@.map_values(|x: ResponseRow| response_row_view(x));
        let ghost room = self.page_size as nat;
        let mut out: Vec<KeyValueRow> = Vec::new();
        let mut failure: Option<KeyValueStorageReaderError> = None;
        let mut permit_missing = false;
        let mut i: usize = 0;
        assert(rv.skip(0) =~= rv);
        assert(rows_view(out@) + page_rows(rv, room) =~= page_rows(rv, room));
        while i < rows.len() && failure.is_none() && !permit_missing
            invariant
                i <= rows@.len(),
                i <= self.page_size,
                room == self.page_size as nat,
                rv == rows@.map_values(|x: ResponseRow| response_row_view(x)),
                rows_view(out@) + page_rows(rv.skip(i as int), (room - i) as nat) == page_rows(rv, room),
                failure is None && !permit_missing ==> page_stop(rv.skip(i as int), (room - i) as nat)
                    == page_stop(rv, room),
                failure matches Some(e) ==> !permit_missing && page_stop(rv, room) == Some(
                    PageStop::Failed(e.message()),
                ) && page_rows(rv.skip(i as int), (room - i) as nat) == Seq::<RowModel>::empty(),
                permit_missing ==> page_stop(rv, room) == Some(PageStop::PermitMissing)
                    && page_rows(rv.skip(i as int), (room - i) as nat) == Seq::<RowModel>::empty(),
            decreases rows@.len() - i + if failure is None && !permit_missing { 1int } else { 0int },
        {
            let ghost rest = rv.skip(i as int);
            assert(rest[0] == response_row_view(rows@[i as int]));
            assert(rest.drop_first() =~= rv.skip(i + 1));
            match &rows[i] {
                Err(m) => {
                    failure = Some(KeyValueStorageReaderError::UnknownError(m.clone()));
                },
                Ok(row) => {
                    if i >= self.page_size {
                        permit_missing = true;
                    } else {
                        let ghost before = out@;
                        let copy = row.copy();
                        out.push(copy);
                        assert(rows_view(out@) =~= rows_view(before).push(copy@));
                        assert(rows_view(out@) + page_rows(rv.skip(i + 1), (room - (i + 1)) as nat)
                            =~= rows_view(before) + page_rows(rest, (room - i) as nat));
                        i = i + 1;
                    }
                },
            }
        }
        if failure.is_none() && !permit_missing {
            assert(rv.skip(i as int) =~= Seq::<Result<RowModel, Seq<char>>>::empty());
            assert(rows_view(out@) + Seq::<RowModel>::empty() =~= rows_view(out@));
        } else {
            assert(rows_view(out@) + Seq::<RowModel>::empty() =~= rows_view(out@));
        }
        let end = match failure {
            Some(e) => PageEnd::Failed(e),
            None => if permit_missing {
                PageEnd::PermitMissing
            } else {
                match cursor {
                    Some(c) => PageEnd::Next(PagedRead {
                        selector: self.selector,
                        page_size: self.page_size,
                        cursor: Some(c),
                    }),
                    None => PageEnd::Done,
                }
            },
        };
        PageStep { rows: out, end }
    }
}

} // verus!
