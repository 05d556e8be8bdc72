//! What the key-value storage REST client and server share: the CSV row, the
//! HTTP query of a read and the text form of a cursor.

pub mod csv;
pub mod query;

use vstd::prelude::*;
use vstd::std_specs::convert::FromSpec;
use vstd::std_specs::convert::FromSpecImpl;
use vstd::string::StringExecFns;
use vstd::string::StrSliceExecFns;
use crate::kvs_api::{
    clone_opt_cursor, clone_opt_string, opt_cursor_view, opt_str_view, Cursor, KeyValueRow,
    KeyValueSelectionTermination, SelectionModel,
};

verus! {

/// The name of the response header that carries the cursor of the next page.
pub const CURSOR_HEADER: &'static str = "X-Cursor";

/// What `general_purpose::URL_SAFE.encode` of the `base64` crate makes of some
/// bytes: their padded base64 text over the URL-safe alphabet.
pub uninterp spec fn url_safe_base64_encoding(bytes: Seq<u8>) -> Seq<char>;

/// What `general_purpose::URL_SAFE.decode` of the `base64` crate makes of a
/// text: the bytes that it encodes, or `None` where it is not canonical padded
/// URL-safe base64.
pub uninterp spec fn url_safe_base64_decoding(text: Seq<char>) -> Option<Seq<u8>>;

/// The length of the padded base64 text of `n` bytes.
pub open spec fn base64_encoded_len(n: nat) -> nat {
    (n / 3) * 4 + if n % 3 == 0 { 0nat } else { 4nat }
}

/// `general_purpose::URL_SAFE.encode` of the `base64` crate. It panics where the
/// length of the text does not fit in `usize`; the `requires` leaves that out.
/// The contract claims that the result is the named encoding of the bytes, and
/// that decoding it with the same engine gives the bytes back (the engine pads
/// its output and its decoder requires canonical padding).
#[verifier::external_body]
pub(crate) fn base64_url_encode(bytes: &[u8]) -> (r: String)
    requires
        base64_encoded_len(bytes@.len()) <= usize::MAX,
    ensures
        r@ == url_safe_base64_encoding(bytes@),
        url_safe_base64_decoding(r@) == Some(bytes@),
{
    base64::Engine::encode(&base64::engine::general_purpose::URL_SAFE, bytes)
}

/// The error of a base64 decoding: `base64::DecodeError`.
#[verifier::external_type_specification]
#[verifier::external_body]
pub struct ExDecodeError(base64::DecodeError);

/// `general_purpose::URL_SAFE.decode` of the `base64` crate. The contract claims
/// that it succeeds exactly where the named decoding is defined, and gives it;
/// and that the bytes it gives encode back to the same text: the engine
/// requires canonical padding and rejects nonzero trailing bits, so a text
/// that decodes is the encoding of what it decodes to. What the error holds is
/// left unsaid.
#[verifier::external_body]
pub(crate) fn base64_url_decode(text: &str) -> (r: Result<Vec<u8>, base64::DecodeError>)
    ensures
        match r {
            Ok(v) => {
                &&& url_safe_base64_decoding(text@) == Some(v@)
                &&& url_safe_base64_encoding(v@) == text@
            },
            Err(_) => url_safe_base64_decoding(text@) is None,
        },
{
    base64::Engine::decode(&base64::engine::general_purpose::URL_SAFE, text)
}

/// A Data Transfer Object that is designed for representing a CSV row.
#[derive(Debug, PartialEq, Eq)]
pub struct CsvKeyValueRow {
    pub namespace: String,
    pub name: String,
    pub key: String,
    pub value: String,
}

impl From<CsvKeyValueRow> for KeyValueRow {
    /// The row with the same four fields.
    fn from(v: CsvKeyValueRow) -> (r: KeyValueRow) {
        KeyValueRow { namespace: v.namespace, name: v.name, key: v.key, value: v.value }
    }
}

impl FromSpecImpl<CsvKeyValueRow> for KeyValueRow {
    open spec fn obeys_from_spec() -> bool {
        true
    }

    open spec fn from_spec(v: CsvKeyValueRow) -> KeyValueRow {
        KeyValueRow { namespace: v.namespace, name: v.name, key: v.key, value: v.value }
    }
}

impl<'a> From<&'a KeyValueRow> for CsvKeyValueRow {
    /// The CSV row with copies of the four fields.
    fn from(v: &'a KeyValueRow) -> (r: CsvKeyValueRow) {
        CsvKeyValueRow {
            namespace: v.namespace.clone(),
            name: v.name.clone(),
            key: v.key.clone(),
            value: v.value.clone(),
        }
    }
}

impl<'a> FromSpecImpl<&'a KeyValueRow> for CsvKeyValueRow {
    open spec fn obeys_from_spec() -> bool {
        true
    }

    open spec fn from_spec(v: &'a KeyValueRow) -> CsvKeyValueRow {
        CsvKeyValueRow {
            namespace: v.namespace,
            name: v.name,
            key: v.key,
            value: v.value,
        }
    }
}

/// A row converted to its CSV form and back is the same row.
pub proof fn lemma_csv_row_round_trip(row: KeyValueRow)
    ensures
        <KeyValueRow as FromSpec<CsvKeyValueRow>>::from_spec(
            <CsvKeyValueRow as FromSpec<&KeyValueRow>>::from_spec(&row),
        ) == row,
{
}

/// The longest text, in characters, and the longest cursor, in bytes, that a
/// query may hold; also the largest limit.
pub const MAX_QUERY_FIELD_LEN: usize = 1024;

/// A field of a query that breaks its bounds.
#[derive(Debug, Clone, Copy, PartialEq, Eq, Structural)]
pub enum InvalidField {
    Namespace,
    Name,
    Key,
    Value,
    Cursor,
    Limit,
}

impl InvalidField {
    /// The name of the query parameter.
    pub open spec fn spec_name(self) -> Seq<char> {
        match self {
            InvalidField::Namespace => "namespace"@,
            InvalidField::Name => "name"@,
            InvalidField::Key => "key"@,
            InvalidField::Value => "value"@,
            InvalidField::Cursor => "cursor"@,
            InvalidField::Limit => "limit"@,
        }
    }

    /// The name of the query parameter.
    pub fn name(&self) -> (r: &'static str)
        ensures
            r@ == self.spec_name(),
    {
        match self {
            InvalidField::Namespace => "namespace",
            InvalidField::Name => "name",
            InvalidField::Key => "key",
            InvalidField::Value => "value",
            InvalidField::Cursor => "cursor",
            InvalidField::Limit => "limit",
        }
    }
}

/// Whether an optional text is within the bound (counted in characters).
pub open spec fn text_within_bound(o: Option<Seq<char>>) -> bool {
    match o {
        Some(s) => s.len() <= MAX_QUERY_FIELD_LEN,
        None => true,
    }
}

/// The field, where its check failed.
pub open spec fn flagged(field: InvalidField, ok: bool) -> Seq<InvalidField> {
    if ok { seq![] } else { seq![field] }
}

/// The fields of a query that break their bounds, in the order of the fields:
/// texts of more than 1024 characters, a cursor of more than 1024 bytes, a
/// limit above 1024.
pub open spec fn invalid_fields(m: SelectionModel) -> Seq<InvalidField> {
    flagged(InvalidField::Namespace, text_within_bound(m.namespace))
        + flagged(InvalidField::Name, text_within_bound(m.name))
        + flagged(InvalidField::Key, text_within_bound(m.key))
        + flagged(InvalidField::Value, text_within_bound(m.value))
        + flagged(InvalidField::Cursor, match m.cursor {
            Some(c) => c.len() <= MAX_QUERY_FIELD_LEN,
            None => true,
        })
        + flagged(InvalidField::Limit, match m.limit {
            Some(l) => l <= MAX_QUERY_FIELD_LEN,
            None => true,
        })
}

/// The place of a field among the fields of a query.
pub open spec fn field_rank(f: InvalidField) -> int {
    match f {
        InvalidField::Namespace => 0,
        InvalidField::Name => 1,
        InvalidField::Key => 2,
        InvalidField::Value => 3,
        InvalidField::Cursor => 4,
        InvalidField::Limit => 5,
    }
}

/// Fields in strictly increasing place, so that none comes twice.
pub open spec fn fields_in_order(fs: Seq<InvalidField>) -> bool {
    forall|i: int, j: int| 0 <= i < j < fs.len() ==> field_rank(#[trigger] fs[i]) < field_rank(#[trigger] fs[j])
}

/// Appending a field of a later place than all of `fs` keeps the order.
proof fn lemma_append_flag(fs: Seq<InvalidField>, f: InvalidField, ok: bool)
    requires
        fields_in_order(fs),
        forall|i: int| 0 <= i < fs.len() ==> field_rank(#[trigger] fs[i]) < field_rank(f),
    ensures
        fields_in_order(fs + flagged(f, ok)),
        forall|i: int|
            0 <= i < (fs + flagged(f, ok)).len() ==> field_rank(#[trigger] (fs + flagged(f, ok))[i]) <= field_rank(f),
{
    if ok {
        assert(fs + flagged(f, ok) =~= fs);
    } else {
        assert(fs + flagged(f, ok) =~= fs.push(f));
    }
}

/// A field of a query is reported exactly when it breaks its bound: a
/// namespace, name, key or value of more than 1024 characters, a cursor of
/// more than 1024 bytes, a limit above 1024. The fields come in the order of
/// the query's fields, each at most once.
pub proof fn lemma_invalid_fields_members(m: SelectionModel)
    ensures
        invalid_fields(m).contains(InvalidField::Namespace) <==> (m.namespace matches Some(t) && t.len() > 1024),
        invalid_fields(m).contains(InvalidField::Name) <==> (m.name matches Some(t) && t.len() > 1024),
        invalid_fields(m).contains(InvalidField::Key) <==> (m.key matches Some(t) && t.len() > 1024),
        invalid_fields(m).contains(InvalidField::Value) <==> (m.value matches Some(t) && t.len() > 1024),
        invalid_fields(m).contains(InvalidField::Cursor) <==> (m.cursor matches Some(c) && c.len() > 1024),
        invalid_fields(m).contains(InvalidField::Limit) <==> (m.limit matches Some(l) && l > 1024),
        fields_in_order(invalid_fields(m)),
{
    broadcast use vstd::seq_lib::lemma_seq_concat_contains_all_elements;

    let f0 = flagged(InvalidField::Namespace, text_within_bound(m.namespace));
    let f1 = flagged(InvalidField::Name, text_within_bound(m.name));
    let f2 = flagged(InvalidField::Key, text_within_bound(m.key));
    let f3 = flagged(InvalidField::Value, text_within_bound(m.value));
    let cursor_ok = match m.cursor {
        Some(c) => c.len() <= MAX_QUERY_FIELD_LEN,
        None => true,
    };
    let limit_ok = match m.limit {
        Some(l) => l <= MAX_QUERY_FIELD_LEN,
        None => true,
    };
    let f4 = flagged(InvalidField::Cursor, cursor_ok);
    let f5 = flagged(InvalidField::Limit, limit_ok);
    assert(Seq::<InvalidField>::empty() + f0 =~= f0);
    lemma_append_flag(Seq::<InvalidField>::empty(), InvalidField::Namespace, text_within_bound(m.namespace));
    lemma_append_flag(f0, InvalidField::Name, text_within_bound(m.name));
    lemma_append_flag(f0 + f1, InvalidField::Key, text_within_bound(m.key));
    lemma_append_flag(f0 + f1 + f2, InvalidField::Value, text_within_bound(m.value));
    lemma_append_flag(f0 + f1 + f2 + f3, InvalidField::Cursor, cursor_ok);
    lemma_append_flag(f0 + f1 + f2 + f3 + f4, InvalidField::Limit, limit_ok);
    assert(invalid_fields(m) == f0 + f1 + f2 + f3 + f4 + f5);
    assert forall|g: InvalidField| invalid_fields(m).contains(g) <==> {
        ||| f0.contains(g)
        ||| f1.contains(g)
        ||| f2.contains(g)
        ||| f3.contains(g)
        ||| f4.contains(g)
        ||| f5.contains(g)
    } by {}
    lemma_flagged_contains(InvalidField::Namespace, text_within_bound(m.namespace));
    lemma_flagged_contains(InvalidField::Name, text_within_bound(m.name));
    lemma_flagged_contains(InvalidField::Key, text_within_bound(m.key));
    lemma_flagged_contains(InvalidField::Value, text_within_bound(m.value));
    lemma_flagged_contains(InvalidField::Cursor, cursor_ok);
    lemma_flagged_contains(InvalidField::Limit, limit_ok);
}

/// A flagged field is there exactly when its check failed.
proof fn lemma_flagged_contains(f: InvalidField, ok: bool)
    ensures
        forall|g: InvalidField| #[trigger] flagged(f, ok).contains(g) <==> (!ok && g == f),
{
    if !ok {
        assert(flagged(f, ok)[0] == f);
    }
}

/// The text form of an optional cursor.
pub open spec fn cursor_text(c: Option<Seq<u8>>) -> Option<Seq<char>> {
    match c {
        Some(b) => Some(url_safe_base64_encoding(b)),
        None => None,
    }
}

/// The cursor that an optional text stands for; `None` where the text is not a
/// cursor.
pub open spec fn cursor_from_text(t: Option<Seq<char>>) -> Option<Option<Seq<u8>>> {
    match t {
        Some(s) => match url_safe_base64_decoding(s) {
            Some(b) => Some(Some(b)),
            None => None,
        },
        None => Some(None),
    }
}

/// Whether the text form of an optional cursor fits in memory.
pub open spec fn cursor_encodable(c: Option<Seq<u8>>) -> bool {
    match c {
        Some(b) => base64_encoded_len(b.len()) <= usize::MAX,
        None => true,
    }
}

/// The prefix of the message of a cursor that cannot be read.
pub open spec fn cursor_error_prefix() -> Seq<char> {
    "Failed to deserialize cursor "@
}

/// The text form of the cursor of a query: its URL-safe base64. What it gives
/// reads back as the same cursor.
pub fn serialize_cursor(cursor: &Option<Cursor>) -> (r: Option<String>)
    requires
        cursor_encodable(opt_cursor_view(*cursor)),
    ensures
        opt_str_view(r) == cursor_text(opt_cursor_view(*cursor)),
        cursor_from_text(opt_str_view(r)) == Some(opt_cursor_view(*cursor)),
{
    match cursor {
        Some(value) => Some(base64_url_encode(value.as_slice())),
        None => None,
    }
}

/// The cursor of a query from its text form; an error where the text is not
/// URL-safe base64. A cursor read from a text serializes back to that text.
pub fn deserialize_cursor(opt: Option<String>) -> (r: Result<Option<Cursor>, String>)
    ensures
        match r {
            Ok(c) => {
                &&& cursor_from_text(opt_str_view(opt)) == Some(opt_cursor_view(c))
                &&& cursor_text(opt_cursor_view(c)) == opt_str_view(opt)
            },
            Err(msg) => {
                &&& cursor_from_text(opt_str_view(opt)) is None
                &&& msg@.len() >= cursor_error_prefix().len()
                &&& msg@.take(cursor_error_prefix().len() as int) == cursor_error_prefix()
            },
        },
{
    match opt {
        Some(value) => match base64_url_decode(value.as_str()) {
            Ok(bytes) => Ok(Some(bytes)),
            Err(err) => {
                let mut msg = "Failed to deserialize cursor ".to_owned();
                let ghost prefix = msg@;
                msg.append(err.to_string().as_str());
                assert(msg@.take(prefix.len() as int) =~= prefix);
                Err(msg)
            },
        },
        None => Ok(None),
    }
}

/// The schema of HTTP query parameters.
pub struct Query {
    pub namespace: Option<String>,
    pub name: Option<String>,
    pub key: Option<String>,
    pub value: Option<String>,
    pub cursor: Option<Cursor>,
    pub limit: Option<usize>,
}

impl View for Query {
    type V = SelectionModel;

    open spec fn view(&self) -> SelectionModel {
        SelectionModel {
            namespace: opt_str_view(self.namespace),
            name: opt_str_view(self.name),
            key: opt_str_view(self.key),
            value: opt_str_view(self.value),
            cursor: opt_cursor_view(self.cursor),
            limit: self.limit,
        }
    }
}

impl Default for Query {
    /// The query that selects everything.
    fn default() -> (r: Self)
        ensures
            r@ == SelectionModel::empty(),
    {
        Query { namespace: None, name: None, key: None, value: None, cursor: None, limit: None }
    }
}

/// Checks one optional text against the bound.
fn check_text(errors: &mut Vec<InvalidField>, field: InvalidField, o: &Option<String>)
    ensures
        final(errors)@ == old(errors)@ + flagged(field, text_within_bound(opt_str_view(*o))),
{
    let ok = match o {
        Some(s) => s.as_str().unicode_len() <= MAX_QUERY_FIELD_LEN,
        None => true,
    };
    if !ok {
        errors.push(field);
    }
    assert(errors@ =~= old(errors)@ + flagged(field, text_within_bound(opt_str_view(*o))));
}

impl Query {
    /// Set the limit.
    pub fn limit(self, limit: &usize) -> (r: Self)
        ensures
            r@ == (SelectionModel { limit: Some(*limit), ..self@ }),
    {
        let mut s = self;
        s.limit = Some(*limit);
        s
    }

    /// Set the cursor.
    pub fn cursor(self, cursor: &Cursor) -> (r: Self)
        ensures
            r@ == (SelectionModel { cursor: Some(cursor@), ..self@ }),
    {
        let mut s = self;
        s.cursor = Some(vstd::slice::slice_to_vec(cursor.as_slice()));
        s
    }

    /// The query of a selection.
    pub fn from_selection(selector: &KeyValueSelectionTermination) -> (r: Self)
        ensures
            r@ == selector@,
    {
        Self {
            namespace: clone_opt_string(&selector.namespace),
            name: clone_opt_string(&selector.name),
            key: clone_opt_string(&selector.key),
            value: clone_opt_string(&selector.value),
            cursor: clone_opt_cursor(&selector.cursor),
            limit: selector.limit,
        }
    }

    /// The selection that the query asks for.
    pub fn selection(&self) -> (r: KeyValueSelectionTermination)
        ensures
            r@ == self@,
    {
        KeyValueSelectionTermination {
            namespace: clone_opt_string(&self.namespace),
            name: clone_opt_string(&self.name),
            key: clone_opt_string(&self.key),
            value: clone_opt_string(&self.value),
            cursor: clone_opt_cursor(&self.cursor),
            limit: self.limit,
        }
    }

    /// Checks the bounds of the query: `Ok` where every field is within them,
    /// otherwise the fields that break them, in the order of the fields.
    pub fn validate(&self) -> (r: Result<(), Vec<InvalidField>>)
        ensures
            match r {
                Ok(()) => invalid_fields(self@).len() == 0,
                Err(fields) => fields@ == invalid_fields(self@) && fields@.len() > 0,
            },
            r is Ok <==> {
                &&& (self@.namespace matches Some(t) ==> t.len() <= 1024)
                &&& (self@.name matches Some(t) ==> t.len() <= 1024)
                &&& (self@.key matches Some(t) ==> t.len() <= 1024)
                &&& (self@.value matches Some(t) ==> t.len() <= 1024)
                &&& (self@.cursor matches Some(c) ==> c.len() <= 1024)
                &&& (self@.limit matches Some(l) ==> l <= 1024)
            },
    {
        let mut errors: Vec<InvalidField> = Vec::new();
        check_text(&mut errors, InvalidField::Namespace, &self.namespace);
        check_text(&mut errors, InvalidField::Name, &self.name);
        check_text(&mut errors, InvalidField::Key, &self.key);
        check_text(&mut errors, InvalidField::Value, &self.value);
        let cursor_ok = match &self.cursor {
            Some(c) => c.len() <= MAX_QUERY_FIELD_LEN,
            None => true,
        };
        if !cursor_ok {
            errors.push(InvalidField::Cursor);
        }
        let limit_ok = match self.limit {
            Some(l) => l <= MAX_QUERY_FIELD_LEN,
            None => true,
        };
        if !limit_ok {
            errors.push(InvalidField::Limit);
        }
        assert(errors@ =~= invalid_fields(self@));
        proof {
            lemma_invalid_fields_members(self@);
            if errors@.len() > 0 {
                assert(errors@.contains(errors@[0]));
            }
        }
        if errors.len() == 0 {
            Ok(())
        } else {
            Err(errors)
        }
    }
}

} // verus!
