//! The key-value storage REST client and server together: a read through the
//! client, served by the server from a storage reader, with the transport
//! between them (HTTP and CSV) taken as faithful.

use vstd::prelude::*;
use crate::kvs_api::{
    entries_view, EntryModel, KeyValueRow, KeyValueSelectionTermination, KeyValueStorageReaderError, ReadEntry,
    RowModel, SelectionModel,
};
use crate::kvs_rest_client::{
    extract_cursor, limit_unsupported, page_rows, page_stop, response_row_view, rows_view, PageEnd,
    PagedRead, PagedReadModel, ResponseRow,
};
use crate::kvs_rest_common::{invalid_fields, text_within_bound, MAX_QUERY_FIELD_LEN};
use crate::kvs_rest_server::{is_row, plan_query, response_headers, rows_to_send};
use crate::kvs_tck::{le_bytes, lemma_usize_range, usize_bytes};
use crate::kvs_tck::mock_reader::{
    cursor_page, entry_selected, has_next_page, lemma_page_cursor_round_trip, page_of,
    selected_entries, MockReader,
};

verus! {

/// Rows without errors, no more than there is room for, are all delivered and
/// do not stop reading.
proof fn lemma_rows_within_room(rows: Seq<Result<RowModel, Seq<char>>>, room: nat)
    requires
        rows.len() <= room,
        forall|i: int| 0 <= i < rows.len() ==> rows[i] is Ok,
    ensures
        page_rows(rows, room).map_values(|r: RowModel| Ok::<RowModel, Seq<char>>(r)) == rows,
        page_stop(rows, room) is None,
    decreases rows.len(),
{
    if rows.len() > 0 {
        assert(rows[0] is Ok);
        lemma_rows_within_room(rows.drop_first(), (room - 1) as nat);
        assert(rows =~= seq![rows[0]] + rows.drop_first());
        let pr = page_rows(rows, room);
        assert(pr == seq![rows[0]->Ok_0] + page_rows(rows.drop_first(), (room - 1) as nat));
        assert(pr.map_values(|r: RowModel| Ok::<RowModel, Seq<char>>(r)) =~= seq![rows[0]]
            + page_rows(rows.drop_first(), (room - 1) as nat).map_values(
            |r: RowModel| Ok::<RowModel, Seq<char>>(r),
        ));
    } else {
        assert(page_rows(rows, room).map_values(|r: RowModel| Ok::<RowModel, Seq<char>>(r)) =~= rows);
    }
}

/// The rows as entries.
fn rows_as_entries(rows: Vec<KeyValueRow>) -> (r: Vec<ReadEntry>)
    ensures
        entries_view(r@) == rows_view(rows@).map_values(|x: RowModel| Ok::<RowModel, Seq<char>>(x)),
{
    let mut out: Vec<ReadEntry> = Vec::new();
    let mut i: usize = 0;
    while i < rows.len()
        invariant
            i <= rows@.len(),
            entries_view(out@) == rows_view(rows@.take(i as int)).map_values(
                |x: RowModel| Ok::<RowModel, Seq<char>>(x),
            ),
        decreases rows@.len() - i,
    {
        let ghost before = out@;
        let row = rows[i].copy();
        out.push(Ok(row));
        assert(rows@.take(i + 1) =~= rows@.take(i as int).push(rows@[i as int]));
        assert(entries_view(out@) =~= entries_view(before).push(Ok(row@)));
        assert(rows_view(rows@.take(i + 1)).map_values(|x: RowModel| Ok::<RowModel, Seq<char>>(x))
            =~= rows_view(rows@.take(i as int)).map_values(|x: RowModel| Ok::<RowModel, Seq<char>>(x)).push(
            Ok(rows@[i as int]@),
        ));
        i = i + 1;
    }
    assert(rows@.take(i as int) =~= rows@);
    out
}

/// The rows as a CSV reader gives them back.
fn as_response_rows(rows: Vec<KeyValueRow>) -> (r: Vec<ResponseRow>)
    ensures
        r@.map_values(|x: ResponseRow| response_row_view(x))
            == rows@.map_values(|row: KeyValueRow| Ok::<_, Seq<char>>(row@)),
{
    let mut out: Vec<ResponseRow> = Vec::new();
    let mut i: usize = 0;
    while i < rows.len()
        invariant
            i <= rows@.len(),
            out@.map_values(|x: ResponseRow| response_row_view(x))
                == rows@.take(i as int).map_values(|row: KeyValueRow| Ok::<_, Seq<char>>(row@)),
        decreases rows@.len() - i,
    {
        let ghost before = out@;
        let row = rows[i].copy();
        out.push(Ok(row));
        assert(out@ =~= before.push(Ok(row)));
        assert(rows@.take(i + 1) =~= rows@.take(i as int).push(rows@[i as int]));
        assert(out@.map_values(|x: ResponseRow| response_row_view(x))
            =~= before.map_values(|x: ResponseRow| response_row_view(x)).push(Ok(row@)));
        assert(rows@.take(i + 1).map_values(|row: KeyValueRow| Ok::<_, Seq<char>>(row@))
            =~= rows@.take(i as int).map_values(|row: KeyValueRow| Ok::<_, Seq<char>>(row@)).push(Ok(rows@[i as int]@)));
        i = i + 1;
    }
    assert(rows@.take(i as int) =~= rows@);
    out
}

/// The rows that a read through the REST client yields: the selected entries
/// that are rows, in order.
pub open spec fn rest_read_result(entries: Seq<EntryModel>, s: SelectionModel) -> Seq<EntryModel> {
    selected_entries(entries, s).filter(|e: EntryModel| is_row(e))
}

/// Whether the texts of a selection fit the bounds of a query.
pub open spec fn selection_within_bounds(s: SelectionModel) -> bool {
    &&& text_within_bound(s.namespace)
    &&& text_within_bound(s.name)
    &&& text_within_bound(s.key)
    &&& text_within_bound(s.value)
}

/// The state of a read through the REST client before page `p`.
pub open spec fn read_before_page(s: SelectionModel, page_size: usize, p: nat) -> PagedReadModel {
    PagedReadModel {
        selection: s,
        page_size,
        cursor: if p == 0 { None } else { Some(le_bytes(p, usize_bytes())) },
    }
}

/// Selecting ignores the cursor and the limit.
proof fn lemma_selection_ignores_paging(es: Seq<EntryModel>, a: SelectionModel, b: SelectionModel)
    requires
        a.namespace == b.namespace,
        a.name == b.name,
        a.key == b.key,
        a.value == b.value,
    ensures
        selected_entries(es, a) == selected_entries(es, b),
{
    assert((|e: EntryModel| entry_selected(e, a)) =~= (|e: EntryModel| entry_selected(e, b)));
}

/// Reads `selector` through the REST client, in pages of `page_size` rows,
/// from a server that serves it from `backend`, the two having agreed on
/// `application/csv` and the transport (HTTP and CSV) passing rows and
/// headers on unchanged.
///
/// Law of the REST integration: such a read yields exactly the rows that the
/// backend selects, in order (the server leaves out the entries that are
/// errors), however many pages that takes; a selection with a limit is
/// refused.
pub fn read_through_rest(
    backend: &MockReader,
    selector: KeyValueSelectionTermination,
    page_size: usize,
) -> (r: Result<Vec<ReadEntry>, KeyValueStorageReaderError>)
    requires
        0 < page_size <= MAX_QUERY_FIELD_LEN,
        selector@.cursor is None,
        selection_within_bounds(selector@),
        backend.entries().len() + page_size <= usize::MAX,
    ensures
        match r {
            Ok(entries) => selector@.limit is None && entries_view(entries@) == rest_read_result(
                backend.entries(),
                selector@,
            ),
            Err(e) => selector@.limit is Some && e.message() == limit_unsupported(),
        },
{
    let ghost s = selector@;
    let ghost sel = selected_entries(backend.entries(), s);
    let ghost pred = |e: EntryModel| is_row(e);
    let ghost l = page_size as nat;
    let first = match PagedRead::start(selector, page_size) {
        Ok(read) => read,
        Err(e) => return Err(e),
    };
    proof {
        lemma_usize_range();
        sel.lemma_filter_len(|e: EntryModel| entry_selected(e, s));
        assert(sel.take(0).filter(pred) =~= Seq::<EntryModel>::empty()) by {
            reveal_with_fuel(Seq::filter, 1);
        }
    }
    let mut out: Vec<ReadEntry> = Vec::new();
    let mut next: Option<PagedRead> = Some(first);
    let ghost mut p: nat = 0;
    while next.is_some()
        invariant
            s == selector@,
            s.cursor is None,
            s.limit is None,
            selection_within_bounds(s),
            0 < page_size <= MAX_QUERY_FIELD_LEN,
            l == page_size as nat,
            sel == selected_entries(backend.entries(), s),
            sel.len() <= backend.entries().len(),
            backend.entries().len() + page_size <= usize::MAX,
            pred == (|e: EntryModel| is_row(e)),
            usize_bytes() == 4 || usize_bytes() == 8,
            next matches Some(read) ==> {
                &&& read@ == read_before_page(s, page_size, p)
                &&& p * l <= sel.len()
                &&& p == 0 || p * l < sel.len()
                &&& entries_view(out@) == sel.take((p * l) as int).filter(pred)
            },
            next is None ==> entries_view(out@) == sel.filter(pred),
        decreases (if next is Some { sel.len() + 1 - p * l } else { 0 }),
    {
        let read = match next {
            Some(read) => read,
            None => vstd::pervasive::unreached(),
        };
        let query = read.next_query();
        proof {
            assert(p <= p * l) by (nonlinear_arith) requires l >= 1;
            assert(p <= usize::MAX);
            if p > 0 {
                lemma_page_cursor_round_trip(p as usize);
                assert(query@.cursor == Some(le_bytes(p, usize_bytes())));
                assert(cursor_page(query@.cursor) == p);
            } else {
                assert(query@.cursor is None);
            }
            assert(query@.cursor matches Some(c) ==> c.len() <= MAX_QUERY_FIELD_LEN);
            assert(invalid_fields(query@) =~= Seq::<crate::kvs_rest_common::InvalidField>::empty());
        }
        let selection = match plan_query(Some("application/csv"), &query, "") {
            Ok(selection) => selection,
            Err(_) => vstd::pervasive::unreached(),
        };
        proof {
            lemma_selection_ignores_paging(backend.entries(), selection@, s);
            assert(cursor_page(selection@.cursor) == p);
            assert(p * l + l == (p + 1) * l) by (nonlinear_arith);
        }
        let (page, metadata) = backend.read(&selection);
        proof {
            if metadata.cursor is Some {
                lemma_page_cursor_round_trip((p + 1) as usize);
            }
        }
        let rows = rows_to_send(page.as_slice());
        let headers = response_headers(&metadata);
        let cursor = if headers.len() == 2 {
            extract_cursor(Some(headers[1].1.as_str()))
        } else {
            extract_cursor(None)
        };
        let ghost page_view = page_of(sel, p, l);
        let response_rows = as_response_rows(rows);
        proof {
            assert(pred =~= (|e: EntryModel| e is Ok));
            let rv = response_rows@.map_values(|x: ResponseRow| response_row_view(x));
            page_view.lemma_filter_len(pred);
            assert forall|i: int| 0 <= i < rv.len() implies rv[i] is Ok by {
                assert(rv[i] == page_view.filter(pred)[i]);
                page_view.lemma_filter_pred(pred, i);
            }
            lemma_rows_within_room(rv, l);
        }
        let step = read.on_page(cursor, response_rows);
        let ghost before = out@;
        let mut produced = rows_as_entries(step.rows);
        let ghost produced_view = entries_view(produced@);
        out.append(&mut produced);
        proof {
            assert(entries_view(out@) =~= entries_view(before) + produced_view);
            let end = if (p + 1) * l < sel.len() { (p + 1) * l } else { sel.len() };
            assert(sel.take(end as int) =~= sel.take((p * l) as int) + page_view);
            Seq::filter_distributes_over_add(sel.take((p * l) as int), page_view, pred);
            if !has_next_page(sel.len(), p, l) {
                assert(sel.take(end as int) =~= sel);
            }
            p = p + 1;
        }
        next = match step.end {
            PageEnd::Next(n) => Some(n),
            PageEnd::Done => None,
            PageEnd::Failed(_) => vstd::pervasive::unreached(),
            PageEnd::PermitMissing => vstd::pervasive::unreached(),
        };
    }
    Ok(out)
}

} // verus!
