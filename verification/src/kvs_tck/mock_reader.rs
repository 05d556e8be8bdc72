//! A reader of fixed entries that serves the selected ones page by page.

use vstd::prelude::*;
use crate::kvs_api::{
    copy_entries, copy_entry, entries_view, entry_view, EntryModel, KeyValueSelectionTermination,
    KeyValueStorageReaderMetadata, ReadEntry, SelectionModel,
};
use crate::kvs_tck::{
    le_bytes, le_value, lemma_le_round_trip, lemma_usize_range, usize_bytes,
    usize_from_le_bytes, usize_to_le_bytes,
};

verus! {

/// Whether a field satisfies an optional match expression: an expression
/// matches the equal text only.
pub open spec fn field_matches(expression: Option<Seq<char>>, field: Seq<char>) -> bool {
    match expression {
        Some(x) => x == field,
        None => true,
    }
}

/// Whether an entry is selected: a row whose fields satisfy every expression
/// of the selection, or an error, which no expression can rule out.
pub open spec fn entry_selected(e: EntryModel, s: SelectionModel) -> bool {
    match e {
        Ok(row) => {
            &&& field_matches(s.namespace, row.namespace)
            &&& field_matches(s.name, row.name)
            &&& field_matches(s.key, row.key)
            &&& field_matches(s.value, row.value)
        },
        Err(_) => true,
    }
}

/// The entries that a selection selects, in their order.
pub open spec fn selected_entries(es: Seq<EntryModel>, s: SelectionModel) -> Seq<EntryModel> {
    es.filter(|e: EntryModel| entry_selected(e, s))
}

/// A selection keeps exactly the errors and the rows whose namespace, name,
/// key and value equal those that it names; a field that it leaves open
/// matches any row.
pub proof fn lemma_selected_entries_members(es: Seq<EntryModel>, s: SelectionModel)
    ensures
        forall|e: EntryModel|
            #[trigger] selected_entries(es, s).contains(e) <==> {
                &&& es.contains(e)
                &&& (e matches Ok(row) ==> {
                    &&& (s.namespace matches Some(x) ==> x == row.namespace)
                    &&& (s.name matches Some(x) ==> x == row.name)
                    &&& (s.key matches Some(x) ==> x == row.key)
                    &&& (s.value matches Some(x) ==> x == row.value)
                })
            },
{
    let pred = |e: EntryModel| entry_selected(e, s);
    assert forall|e: EntryModel|
        #[trigger] selected_entries(es, s).contains(e) <==> {
            &&& es.contains(e)
            &&& (e matches Ok(row) ==> {
                &&& (s.namespace matches Some(x) ==> x == row.namespace)
                &&& (s.name matches Some(x) ==> x == row.name)
                &&& (s.key matches Some(x) ==> x == row.key)
                &&& (s.value matches Some(x) ==> x == row.value)
            })
        } by {
        if es.filter(pred).contains(e) {
            es.lemma_filter_contains_rev(pred, e);
            let i = choose|i: int| 0 <= i < es.filter(pred).len() && es.filter(pred)[i] == e;
            es.lemma_filter_pred(pred, i);
        }
        if es.contains(e) && entry_selected(e, s) {
            let i = choose|i: int| 0 <= i < es.len() && es[i] == e;
            es.lemma_filter_contains(pred, i);
        }
    }
}

/// The number of the page that a cursor asks for: the first page without one.
pub open spec fn cursor_page(cursor: Option<Seq<u8>>) -> nat {
    match cursor {
        Some(c) => le_value(c),
        None => 0,
    }
}

/// The size of a page: the limit of the selection, or everything selected.
pub open spec fn page_limit(s: SelectionModel, selected: nat) -> nat {
    match s.limit {
        Some(l) => l as nat,
        None => selected,
    }
}

/// The smaller of two numbers.
pub open spec fn min_nat(a: nat, b: nat) -> nat {
    if a <= b { a } else { b }
}

/// Page `p` of `es`, pages being `l` entries long.
pub open spec fn page_of<E>(es: Seq<E>, p: nat, l: nat) -> Seq<E> {
    es.subrange((p * l) as int, min_nat((p + 1) * l, es.len()) as int)
}

/// Whether a page follows page `p` of `len` entries, pages being `l` long.
pub open spec fn has_next_page(len: nat, p: nat, l: nat) -> bool {
    (p + 1) * l < len
}

/// What pages `p`, `p + 1`, ... of `es` hold together, read in the order in
/// which their cursors lead, pages being `l` long.
pub open spec fn pages_from<E>(es: Seq<E>, p: nat, l: nat) -> Seq<E>
    decreases es.len() - p * l,
    when l > 0
{
    if has_next_page(es.len(), p, l) {
        proof {
            assert((p + 1) * l == p * l + l) by (nonlinear_arith);
        }
        page_of(es, p, l) + pages_from(es, p + 1, l)
    } else {
        page_of(es, p, l)
    }
}

/// Reading from page `p` to the last page gives the entries from the start of
/// page `p` on.
proof fn lemma_pages_from<E>(es: Seq<E>, p: nat, l: nat)
    requires
        l > 0,
        p * l <= es.len(),
    ensures
        pages_from(es, p, l) == es.skip((p * l) as int),
    decreases es.len() - p * l,
{
    assert((p + 1) * l == p * l + l) by (nonlinear_arith);
    if has_next_page(es.len(), p, l) {
        lemma_pages_from(es, p + 1, l);
        assert(es.skip((p * l) as int) =~= page_of(es, p, l) + es.skip(((p + 1) * l) as int));
    } else {
        assert(es.skip((p * l) as int) =~= page_of(es, p, l));
    }
}

/// Pagination law: reading the first page and then each page that the cursor
/// of the previous one leads to yields every entry exactly once, in order,
/// whatever the (positive) page size, in one read per page: one read where
/// there is nothing to read, otherwise the entries divided by the page size,
/// rounded up.
pub proof fn lemma_paged_read_yields_all<E>(es: Seq<E>, l: nat)
    requires
        l > 0,
    ensures
        pages_from(es, 0, l) == es,
        reads_from(es.len(), 0, l) == page_count(es.len(), l),
{
    lemma_pages_from(es, 0, l);
    assert(es.skip(0) =~= es);
    assert(0 * l == 0);
    lemma_reads_from(es.len(), 0, l);
}

/// The cursor that a page hands out leads to the next page: the cursor of
/// page `n` reads back as `n`.
pub proof fn lemma_page_cursor_round_trip(n: usize)
    ensures
        cursor_page(Some(le_bytes(n as nat, usize_bytes()))) == n,
        le_bytes(n as nat, usize_bytes()).len() == usize_bytes(),
{
    lemma_usize_range();
    lemma_le_round_trip(n as nat, usize_bytes());
}

/// The number of reads from page `p` to the last page of `len` entries, pages
/// being `l` long.
pub open spec fn reads_from(len: nat, p: nat, l: nat) -> nat
    decreases len - p * l,
    when l > 0
{
    if has_next_page(len, p, l) {
        proof {
            assert((p + 1) * l == p * l + l) by (nonlinear_arith);
        }
        1 + reads_from(len, p + 1, l)
    } else {
        1
    }
}

/// The number of pages of `len` entries, pages being `l` long: one page at
/// least, even without entries.
pub open spec fn page_count(len: nat, l: nat) -> nat {
    if len == 0 {
        1
    } else {
        ((len + l - 1) / (l as int)) as nat
    }
}

proof fn lemma_reads_from(len: nat, p: nat, l: nat)
    requires
        l > 0,
        p * l <= len,
    ensures
        reads_from(len, p, l) == page_count((len - p * l) as nat, l),
    decreases len - p * l,
{
    let rem = (len - p * l) as nat;
    assert((p + 1) * l == p * l + l) by (nonlinear_arith);
    if has_next_page(len, p, l) {
        lemma_reads_from(len, p + 1, l);
        assert(rem > l);
        assert((rem - l + l - 1) / (l as int) + 1 == (rem + l - 1) / (l as int)) by (nonlinear_arith)
            requires
                rem > l,
                l > 0,
        {
            vstd::arithmetic::div_mod::lemma_div_plus_one((rem - 1) as int, l as int);
        }
    } else {
        if rem > 0 {
            assert((rem + l - 1) / (l as int) == 1) by (nonlinear_arith)
                requires
                    0 < rem <= l,
            ;
        }
    }
}

/// The read of the page after page `p`, with the cursor that page `p`'s read
/// handed out, is served too, and reads page `p + 1` with the same page size.
pub proof fn lemma_next_read_served(s: SelectionModel, selected: nat, p: nat)
    requires
        servable(s, selected),
        p == cursor_page(s.cursor),
        page_limit(s, selected) > 0,
        has_next_page(selected, p, page_limit(s, selected)),
        selected + page_limit(s, selected) <= usize::MAX,
    ensures
        ({
            let next = SelectionModel { cursor: Some(le_bytes(p + 1, usize_bytes())), ..s };
            &&& servable(next, selected)
            &&& cursor_page(next.cursor) == p + 1
            &&& page_limit(next, selected) == page_limit(s, selected)
        }),
{
    let l = page_limit(s, selected);
    lemma_page_cursor_round_trip((p + 1) as usize);
    assert((p + 1) * l + l == (p + 2) * l) by (nonlinear_arith);
    assert(p + 1 <= (p + 1) * l) by (nonlinear_arith)
        requires
            l > 0,
    ;
}

/// The first read, without a cursor, is served where the page end fits.
pub proof fn lemma_first_read_served(s: SelectionModel, selected: nat)
    requires
        s.cursor is None,
        selected + page_limit(s, selected) <= usize::MAX,
    ensures
        servable(s, selected),
        cursor_page(s.cursor) == 0,
{
    let l = page_limit(s, selected);
    assert(0 * l == 0 && (0 + 1) * l == l) by (nonlinear_arith);
}

/// Whether the selection can be served: its cursor has as many bytes as a
/// `usize` and points at a page that starts within the selected entries, and
/// the end of that page and the number of the next one fit in a `usize`.
pub open spec fn servable(s: SelectionModel, selected: nat) -> bool {
    let p = cursor_page(s.cursor);
    let l = page_limit(s, selected);
    &&& (s.cursor matches Some(c) ==> c.len() == usize_bytes())
    &&& p * l <= selected
    &&& (p + 1) * l <= usize::MAX
    &&& p + 1 <= usize::MAX
}

/// A reader of fixed entries.
pub struct MockReader {
    pub invocations: Vec<KeyValueSelectionTermination>,
    entries: Vec<ReadEntry>,
}

impl MockReader {
    /// The entries that the reader holds.
    pub closed spec fn entries(&self) -> Seq<EntryModel> {
        entries_view(self.entries@)
    }

    /// The selections recorded in `invocations`.
    pub closed spec fn recorded_invocations(&self) -> Seq<KeyValueSelectionTermination> {
        self.invocations@
    }

    /// A reader of copies of `entries`.
    pub fn new(entries: &[ReadEntry]) -> (r: Self)
        ensures
            r.entries() == entries_view(entries@),
            r.recorded_invocations().len() == 0,
    {
        assert(entries_view(entries@).subrange(0, entries@.len() as int) =~= entries_view(entries@));
        Self { invocations: Vec::new(), entries: copy_entries(entries, 0, entries.len()) }
    }

    /// The entries that `selector` selects, in their order.
    fn select(&self, selector: &KeyValueSelectionTermination) -> (r: Vec<ReadEntry>)
        ensures
            entries_view(r@) == selected_entries(self.entries(), selector@),
    {
        let ghost sel = selector@;
        let ghost pred = |e: EntryModel| entry_selected(e, sel);
        let mut out: Vec<ReadEntry> = Vec::new();
        let mut i: usize = 0;
        while i < self.entries.len()
            invariant
                i <= self.entries@.len(),
                sel == selector@,
                pred == (|e: EntryModel| entry_selected(e, sel)),
                entries_view(out@) == entries_view(self.entries@).take(i as int).filter(pred),
            decreases self.entries@.len() - i,
        {
            reveal_with_fuel(Seq::filter, 1);
            let ghost before = out@;
            let e = &self.entries[i];
            let keep = match e {
                Ok(row) => {
                    let ns_ok = match &selector.namespace {
                        Some(x) => *x == row.namespace,
                        None => true,
                    };
                    let name_ok = match &selector.name {
                        Some(x) => *x == row.name,
                        None => true,
                    };
                    let key_ok = match &selector.key {
                        Some(x) => *x == row.key,
                        None => true,
                    };
                    let value_ok = match &selector.value {
                        Some(x) => *x == row.value,
                        None => true,
                    };
                    ns_ok && name_ok && key_ok && value_ok
                },
                Err(_) => true,
            };
            assert(keep == pred(entry_view(*e)));
            if keep {
                out.push(copy_entry(e));
                assert(entries_view(out@) =~= entries_view(before).push(entry_view(*e)));
            } else {
                assert(entries_view(out@) =~= entries_view(before));
            }
            assert(entries_view(self.entries@).take(i + 1).drop_last()
                =~= entries_view(self.entries@).take(i as int));
            i = i + 1;
        }
        assert(entries_view(self.entries@).take(i as int) =~= entries_view(self.entries@));
        out
    }

    /// Reads the page of the selected entries that the cursor of `selector`
    /// asks for (the first page without one), pages being as long as its
    /// limit (all selected entries without one). The metadata carries the
    /// cursor of the next page where one follows, and none otherwise.
    pub fn read(&self, selector: &KeyValueSelectionTermination) -> (r: (
        Vec<ReadEntry>,
        KeyValueStorageReaderMetadata,
    ))
        requires
            servable(selector@, selected_entries(self.entries(), selector@).len()),
        ensures
            ({
                let selected = selected_entries(self.entries(), selector@);
                let p = cursor_page(selector@.cursor);
                let l = page_limit(selector@, selected.len());
                &&& entries_view(r.0@) == page_of(selected, p, l)
                &&& match r.1.cursor {
                    Some(c) => has_next_page(selected.len(), p, l) && c@ == le_bytes(p + 1, usize_bytes()),
                    None => !has_next_page(selected.len(), p, l),
                }
            }),
    {
        let selected = self.select(selector);
        let page_number: usize = match &selector.cursor {
            Some(cursor_bytes) => usize_from_le_bytes(cursor_bytes.as_slice()),
            None => 0,
        };
        let limit: usize = match selector.limit {
            Some(l) => l,
            None => selected.len(),
        };
        assert(entries_view(selected@).len() == selected@.len());
        page_from(&selected, page_number, limit)
    }

    /// Like `read`, but `None` where the selection cannot be served (a cursor
    /// of another length than a `usize`, a page that starts past the selected
    /// entries, a page end or next page number that overflows).
    pub fn read_checked(&self, selector: &KeyValueSelectionTermination) -> (r: Option<(
        Vec<ReadEntry>,
        KeyValueStorageReaderMetadata,
    )>)
        ensures
            ({
                let selected = selected_entries(self.entries(), selector@);
                let p = cursor_page(selector@.cursor);
                let l = page_limit(selector@, selected.len());
                match r {
                    Some(page) => {
                        &&& servable(selector@, selected.len())
                        &&& entries_view(page.0@) == page_of(selected, p, l)
                        &&& match page.1.cursor {
                            Some(c) => has_next_page(selected.len(), p, l) && c@ == le_bytes(p + 1, usize_bytes()),
                            None => !has_next_page(selected.len(), p, l),
                        }
                    },
                    None => !servable(selector@, selected.len()),
                }
            }),
    {
        let selected = self.select(selector);
        assert(entries_view(selected@).len() == selected@.len());
        let page_number: usize = match &selector.cursor {
            Some(cursor_bytes) => {
                if cursor_bytes.len() != (usize::BITS / 8) as usize {
                    return None;
                }
                usize_from_le_bytes(cursor_bytes.as_slice())
            },
            None => 0,
        };
        let limit: usize = match selector.limit {
            Some(l) => l,
            None => selected.len(),
        };
        let ghost sel_len = selected_entries(self.entries(), selector@).len();
        let selected_len = selected.len();
        assert(selected_len == sel_len);
        assert(page_number as nat == cursor_page(selector@.cursor));
        assert(limit as nat == page_limit(selector@, sel_len));
        let start = match page_number.checked_mul(limit) {
            Some(v) => v,
            None => {
                assert(cursor_page(selector@.cursor) * page_limit(selector@, sel_len) > usize::MAX)
                    by (nonlinear_arith)
                    requires
                        page_number * limit > usize::MAX,
                        page_number as nat == cursor_page(selector@.cursor),
                        limit as nat == page_limit(selector@, sel_len),
                ;
                return None;
            },
        };
        if start > selected.len() || page_number == usize::MAX {
            return None;
        }
        match (page_number + 1).checked_mul(limit) {
            Some(_) => {},
            None => {
                assert((cursor_page(selector@.cursor) + 1) * page_limit(selector@, sel_len) > usize::MAX)
                    by (nonlinear_arith)
                    requires
                        (page_number + 1) * limit > usize::MAX,
                        page_number as nat == cursor_page(selector@.cursor),
                        limit as nat == page_limit(selector@, sel_len),
                ;
                return None;
            },
        }
        Some(page_from(&selected, page_number, limit))
    }
}

/// Page `page_number` of the selected entries, pages being `limit` long, with
/// the cursor of the next page where one follows.
fn page_from(selected: &Vec<ReadEntry>, page_number: usize, limit: usize) -> (r: (
    Vec<ReadEntry>,
    KeyValueStorageReaderMetadata,
))
    requires
        page_number * limit <= selected@.len(),
        (page_number + 1) * limit <= usize::MAX,
        page_number + 1 <= usize::MAX,
    ensures
        entries_view(r.0@) == page_of(entries_view(selected@), page_number as nat, limit as nat),
        match r.1.cursor {
            Some(c) => has_next_page(selected@.len(), page_number as nat, limit as nat)
                && c@ == le_bytes((page_number + 1) as nat, usize_bytes()),
            None => !has_next_page(selected@.len(), page_number as nat, limit as nat),
        },
{
    assert(page_number * limit <= (page_number + 1) * limit) by (nonlinear_arith);
    let page_offset = page_number * limit;
    let next_page_number = page_number + 1;
    let end = next_page_number * limit;
    let next_page_offset = if end < selected.len() { end } else { selected.len() };
    let page = copy_entries(selected.as_slice(), page_offset, next_page_offset);
    let metadata = if next_page_offset >= selected.len() {
        KeyValueStorageReaderMetadata::new()
    } else {
        KeyValueStorageReaderMetadata::with_cursor(usize_to_le_bytes(next_page_number).as_slice())
    };
    (page, metadata)
}

} // verus!
