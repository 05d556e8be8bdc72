//! The decisions of the key-value storage REST server: whether a read request
//! is served, what a refused one is answered, and what a served one sends.

use vstd::prelude::*;
use crate::kvs_api::{
    EntryModel,
    entries_view, KeyValueRow, KeyValueSelectionTermination, KeyValueStorageReaderError,
    KeyValueStorageReaderMetadata, ReadEntry, opt_cursor_view,
};
use crate::kvs_rest_common::{
    base64_url_encode, cursor_encodable, invalid_fields, url_safe_base64_decoding,
    url_safe_base64_encoding, Query, CURSOR_HEADER,
};

verus! {

/// The status of a served read.
pub const STATUS_OK: u16 = 200;

/// The status of a request that cannot be served as asked.
pub const STATUS_BAD_REQUEST: u16 = 400;

/// The status of a request for a media type that the server does not send.
pub const STATUS_NOT_ACCEPTABLE: u16 = 406;

/// An answer that refuses a request: its status and its body.
pub struct ErrorResponse {
    pub status: u16,
    pub message: String,
}

/// What `Accept::from_str` and then `Accept::negotiate` of the
/// `headers_accept` crate make of an `Accept` header text and the media types
/// on offer (parsed by `mediatype::MediaType::parse`): `None` where a text does
/// not parse; otherwise the essence (type and subtype, without parameters) of
/// the offered type that the header prefers, or `None` where it accepts none.
pub uninterp spec fn accept_negotiation(header: Seq<char>, available: Seq<Seq<char>>) -> Option<
    Option<Seq<char>>,
>;

/// The media types that the server offers, in its order of preference.
pub open spec fn served_types() -> Seq<Seq<char>> {
    seq!["application/csv"@, "text/csv"@]
}

/// Whether a character may stand in a plain media type name: an ASCII letter or
/// digit, `-` or `.`.
pub open spec fn plain_media_char(c: char) -> bool {
    ('a' <= c && c <= 'z') || ('A' <= c && c <= 'Z') || ('0' <= c && c <= '9') || c == '-' || c == '.'
}

/// Whether `t[i..]` is made of plain characters and exactly one `/` in all
/// (`slash_seen` counts one before `i`).
pub open spec fn plain_media_type_from(t: Seq<char>, i: nat, slash_seen: bool) -> bool
    decreases t.len() - i,
{
    if i >= t.len() {
        slash_seen
    } else if t[i as int] == '/' {
        !slash_seen && plain_media_type_from(t, i + 1, true)
    } else {
        plain_media_char(t[i as int]) && plain_media_type_from(t, i + 1, slash_seen)
    }
}

/// Whether a text is a plain media type `type/subtype`, without suffix,
/// parameters or spaces: `MediaType::parse` keeps it as it is, and its essence
/// renders as the same text.
pub open spec fn plain_media_type(t: Seq<char>) -> bool {
    plain_media_type_from(t, 0, false)
}

/// Parses an `Accept` header with `Accept::from_str` of `headers_accept`, the
/// offered types with `MediaType::parse` of `mediatype`, and negotiates with
/// `Accept::negotiate`; the essence of the chosen type is rendered by its
/// `Display`. The contract claims that the result is the named negotiation,
/// and, as `negotiate` returns one of the offered types, that the chosen text
/// is one of the offered texts where these are plain media types.
#[verifier::external_body]
fn negotiate_media_type(header: &str, available: &[&str]) -> (r: Option<Option<String>>)
    ensures
        accept_negotiation(header@, available@.map_values(|t: &str| t@)) == match r {
            Some(Some(t)) => Some(Some(t@)),
            Some(None) => Some(None),
            None => None,
        },
        (forall|i: int| 0 <= i < available@.len() ==> plain_media_type(#[trigger] available@[i]@))
            ==> (r matches Some(Some(t)) ==> available@.map_values(|a: &str| a@).contains(t@)),
{
    let accept: headers_accept::Accept = match header.parse() {
        Ok(accept) => accept,
        Err(_) => return None,
    };
    let offered: Vec<mediatype::MediaType> = match available.iter().map(|t| mediatype::MediaType::parse(t)).collect() {
        Ok(offered) => offered,
        Err(_) => return None,
    };
    Some(accept.negotiate(offered.iter()).map(|m| m.essence().to_string()))
}

/// The `Accept` header of a request, as far as the server reads it.
pub enum AcceptHeader {
    /// The request has no `Accept` header.
    Missing,
    /// A value of the header is not visible ASCII text.
    Unreadable,
    /// The values of the header, joined by commas.
    Text(String),
}

/// The abstract content of an `Accept` header.
pub enum AcceptHeaderModel {
    Missing,
    Unreadable,
    Text(Seq<char>),
}

impl View for AcceptHeader {
    type V = AcceptHeaderModel;

    open spec fn view(&self) -> AcceptHeaderModel {
        match self {
            AcceptHeader::Missing => AcceptHeaderModel::Missing,
            AcceptHeader::Unreadable => AcceptHeaderModel::Unreadable,
            AcceptHeader::Text(t) => AcceptHeaderModel::Text(t@),
        }
    }
}

/// The media type that a request negotiates: `None` where its `Accept` header
/// is missing or invalid; otherwise the preferred offered type, if any.
pub open spec fn negotiated(accept: AcceptHeaderModel) -> Option<Option<Seq<char>>> {
    match accept {
        AcceptHeaderModel::Text(t) => accept_negotiation(t, served_types()),
        _ => None,
    }
}

/// The body of the answer to a request without an `Accept` header.
pub open spec fn missing_accept_message() -> Seq<char> {
    "Header of type `accept` was missing"@
}

/// The body of the answer to a request with an invalid `Accept` header.
pub open spec fn invalid_accept_message() -> Seq<char> {
    "invalid HTTP header (accept)"@
}

/// Whether the negotiated media type is one that the server sends: CSV, which
/// is also what it sends where no type was agreed on.
pub open spec fn csv_acceptable(negotiated: Option<Seq<char>>) -> bool {
    match negotiated {
        None => true,
        Some(t) => t == "application/csv"@ || t == "text/csv"@,
    }
}

/// The body of the answer to a read that the storage failed.
pub open spec fn server_error_message() -> Seq<char> {
    "Server error"@
}

/// The body of the answer to a request for another media type.
pub open spec fn not_acceptable_message() -> Seq<char> {
    "Not Acceptable"@
}

/// The offered media types are plain.
proof fn lemma_served_types_plain()
    ensures
        forall|i: int| 0 <= i < served_types().len() ==> plain_media_type(#[trigger] served_types()[i]),
{
    reveal_strlit("application/csv");
    reveal_strlit("text/csv");
    reveal_with_fuel(plain_media_type_from, 16);
    assert(plain_media_type("application/csv"@));
    assert(plain_media_type("text/csv"@));
}

/// The media type that a request negotiates through its `Accept` header: the
/// preferred offered type, or `None` where the header accepts none of them. A
/// request without a valid header is refused with 400.
pub fn negotiate(accept: &AcceptHeader) -> (r: Result<Option<String>, ErrorResponse>)
    ensures
        match negotiated(accept@) {
            None => r matches Err(e) && e.status == STATUS_BAD_REQUEST && e.message@ == match accept@ {
                AcceptHeaderModel::Missing => missing_accept_message(),
                _ => invalid_accept_message(),
            },
            Some(chosen) => r matches Ok(c) && chosen == match c {
                Some(t) => Some(t@),
                None => None,
            },
        },
        r matches Ok(Some(t)) ==> served_types().contains(t@),
{
    match accept {
        AcceptHeader::Missing => Err(ErrorResponse {
            status: STATUS_BAD_REQUEST,
            message: "Header of type `accept` was missing".to_owned(),
        }),
        AcceptHeader::Unreadable => Err(ErrorResponse {
            status: STATUS_BAD_REQUEST,
            message: "invalid HTTP header (accept)".to_owned(),
        }),
        AcceptHeader::Text(t) => {
            let available: [&str; 2] = ["application/csv", "text/csv"];
            assert(available@.map_values(|t: &str| t@) =~= served_types());
            proof {
                lemma_served_types_plain();
                assert forall|i: int| 0 <= i < available@.len() implies plain_media_type(
                    #[trigger] available@[i]@,
                ) by {
                    assert(available@[i]@ == served_types()[i]);
                }
            }
            match negotiate_media_type(t.as_str(), &available) {
                Some(chosen) => Ok(chosen),
                None => Err(ErrorResponse {
                    status: STATUS_BAD_REQUEST,
                    message: "invalid HTTP header (accept)".to_owned(),
                }),
            }
        },
    }
}

/// Decides whether a read of `query` is served, given the negotiated media
/// type. A request for a media type other than CSV is refused with 406; a
/// query that breaks its bounds with 400 and `invalid_message` as its body (the
/// `validator` crate's description of those errors, which the caller renders);
/// otherwise the selection of the query is read. CSV is also served where no
/// type was agreed on.
pub fn plan_query(negotiated: Option<&str>, query: &Query, invalid_message: &str) -> (r: Result<
    KeyValueSelectionTermination,
    ErrorResponse,
>)
    ensures
        match r {
            Ok(selection) => {
                &&& csv_acceptable(match negotiated { Some(t) => Some(t@), None => None })
                &&& invalid_fields(query@).len() == 0
                &&& selection@ == query@
            },
            Err(e) => if !csv_acceptable(match negotiated { Some(t) => Some(t@), None => None }) {
                e.status == STATUS_NOT_ACCEPTABLE && e.message@ == not_acceptable_message()
            } else {
                &&& invalid_fields(query@).len() > 0
                &&& e.status == STATUS_BAD_REQUEST
                &&& e.message@ == invalid_message@
            },
        },
        r is Ok <==> {
            &&& (negotiated matches Some(t) ==> t@ == "application/csv"@ || t@ == "text/csv"@)
            &&& invalid_fields(query@).len() == 0
        },
        (r matches Err(e) && e.status == STATUS_NOT_ACCEPTABLE) <==> (negotiated matches Some(t) && t@
            != "application/csv"@ && t@ != "text/csv"@),
{
    let acceptable = match negotiated {
        None => true,
        Some(t) => {
            proof {
                reveal_strlit("application/csv");
                reveal_strlit("text/csv");
            }
            str_equals(t, "application/csv") || str_equals(t, "text/csv")
        },
    };
    if !acceptable {
        return Err(ErrorResponse { status: STATUS_NOT_ACCEPTABLE, message: "Not Acceptable".to_owned() });
    }
    match query.validate() {
        Ok(()) => Ok(query.selection()),
        Err(_) => Err(ErrorResponse { status: STATUS_BAD_REQUEST, message: invalid_message.to_owned() }),
    }
}

/// Decides whether a read request is served: first by its `Accept` header
/// (`negotiate`), then by the negotiated type and the query (`plan_query`).
/// A valid header always leads to CSV: the negotiated type is one of those
/// offered, or none, so such a request is never refused with 406.
pub fn plan_read(accept: &AcceptHeader, query: &Query, invalid_message: &str) -> (r: Result<
    KeyValueSelectionTermination,
    ErrorResponse,
>)
    ensures
        match negotiated(accept@) {
            None => r matches Err(e) && e.status == STATUS_BAD_REQUEST && e.message@ == match accept@ {
                AcceptHeaderModel::Missing => missing_accept_message(),
                _ => invalid_accept_message(),
            },
            Some(chosen) => match r {
                Ok(selection) => {
                    &&& csv_acceptable(chosen)
                    &&& invalid_fields(query@).len() == 0
                    &&& selection@ == query@
                },
                Err(e) => if !csv_acceptable(chosen) {
                    e.status == STATUS_NOT_ACCEPTABLE && e.message@ == not_acceptable_message()
                } else {
                    &&& invalid_fields(query@).len() > 0
                    &&& e.status == STATUS_BAD_REQUEST
                    &&& e.message@ == invalid_message@
                },
            },
        },
        negotiated(accept@) matches Some(chosen) ==> csv_acceptable(chosen),
{
    let chosen = negotiate(accept)?;
    proof {
        if let Some(t) = &chosen {
            let k = choose|k: int| 0 <= k < served_types().len() && served_types()[k] == t@;
            assert(k == 0 || k == 1);
        }
    }
    match &chosen {
        Some(t) => plan_query(Some(t.as_str()), query, invalid_message),
        None => plan_query(None, query, invalid_message),
    }
}

/// Whether two texts are equal.
fn str_equals(a: &str, b: &str) -> (r: bool)
    ensures
        r == (a@ == b@),
{
    a.to_owned() == b.to_owned()
}

/// The answer to a read that the storage failed: 400 with a generic body.
pub fn read_error_response(err: &KeyValueStorageReaderError) -> (r: ErrorResponse)
    ensures
        r.status == STATUS_BAD_REQUEST,
        r.message@ == server_error_message(),
{
    match err {
        KeyValueStorageReaderError::UnknownError(_) => ErrorResponse {
            status: STATUS_BAD_REQUEST,
            message: "Server error".to_owned(),
        },
    }
}

/// The headers of a served read: the CSV content type and, where another page
/// follows, its cursor as URL-safe base64. The header reads back as the same
/// cursor.
pub fn response_headers(metadata: &KeyValueStorageReaderMetadata) -> (r: Vec<(String, String)>)
    requires
        cursor_encodable(opt_cursor_view(metadata.cursor)),
    ensures
        r@.len() >= 1,
        r@[0].0@ == "content-type"@,
        r@[0].1@ == "application/csv"@,
        match metadata.cursor {
            Some(c) => {
                &&& r@.len() == 2
                &&& r@[1].0@ == "X-Cursor"@
                &&& r@[1].1@ == url_safe_base64_encoding(c@)
                &&& url_safe_base64_decoding(r@[1].1@) == Some(c@)
            },
            None => r@.len() == 1,
        },
{
    let mut headers: Vec<(String, String)> = Vec::new();
    headers.push(("content-type".to_owned(), "application/csv".to_owned()));
    if let Some(cursor) = &metadata.cursor {
        headers.push((CURSOR_HEADER.to_owned(), base64_url_encode(cursor.as_slice())));
    }
    headers
}

/// Whether an entry is a row.
pub open spec fn is_row(e: EntryModel) -> bool {
    e is Ok
}

/// The rows that a served read sends: the rows among the entries, in order;
/// entries that are errors are left out.
pub fn rows_to_send(entries: &[ReadEntry]) -> (r: Vec<KeyValueRow>)
    ensures
        r@.map_values(|row: KeyValueRow| Ok::<_, Seq<char>>(row@))
            == entries_view(entries@).filter(|e: EntryModel| e is Ok),
{
    let ghost pred = |e: EntryModel| e is Ok;
    let mut out: Vec<KeyValueRow> = Vec::new();
    let mut i: usize = 0;
    while i < entries.len()
        invariant
            i <= entries@.len(),
            pred == (|e: EntryModel| e is Ok),
            out@.map_values(|row: KeyValueRow| Ok::<_, Seq<char>>(row@))
                == entries_view(entries@).take(i as int).filter(pred),
        decreases entries@.len() - i,
    {
        reveal_with_fuel(Seq::filter, 1);
        let ghost before = out@;
        match &entries[i] {
            Ok(row) => {
                out.push(row.copy());
                assert(out@.map_values(|row: KeyValueRow| Ok::<_, Seq<char>>(row@))
                    =~= before.map_values(|row: KeyValueRow| Ok::<_, Seq<char>>(row@)).push(Ok(row@)));
            },
            Err(_) => {},
        }
        assert(entries_view(entries@).take(i + 1).drop_last() =~= entries_view(entries@).take(i as int));
        i = i + 1;
    }
    assert(entries_view(entries@).take(i as int) =~= entries_view(entries@));
    out
}

} // verus!
