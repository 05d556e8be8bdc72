//! Test kit of key-value storage readers: the readers that serve fixed data
//! page by page.

pub mod mock_reader;
pub mod reader_assertions;

use vstd::prelude::*;
use crate::kvs_api::{
    copy_entries, entries_view, KeyValueSelectionTermination, KeyValueStorageReaderMetadata, ReadEntry,
    RowModel,
};
use crate::kvs_tck::mock_reader::cursor_page;

verus! {

/// The value of little-endian bytes.
pub open spec fn le_value(b: Seq<u8>) -> nat
    decreases b.len(),
{
    if b.len() == 0 {
        0
    } else {
        b[0] as nat + 256 * le_value(b.drop_first())
    }
}

/// The `k` little-endian bytes of `n` (taken modulo `256^k`).
pub open spec fn le_bytes(n: nat, k: nat) -> Seq<u8>
    decreases k,
{
    if k == 0 {
        seq![]
    } else {
        seq![(n % 256) as u8] + le_bytes(n / 256, (k - 1) as nat)
    }
}

/// The number of bytes of a `usize`.
pub open spec fn usize_bytes() -> nat {
    (usize::BITS / 8) as nat
}

/// `usize::from_le_bytes`: the value of as many little-endian bytes as a
/// `usize` has.
pub fn usize_from_le_bytes(b: &[u8]) -> (r: usize)
    requires
        b@.len() == usize_bytes(),
    ensures
        r as nat == le_value(b@),
{
    let n = b.len();
    let mut v: u128 = 0;
    let mut i: usize = n;
    assert(b@.skip(n as int) =~= Seq::<u8>::empty());
    proof {
        lemma_usize_range();
    }
    while i > 0
        invariant
            i <= n,
            n == b@.len(),
            n <= 8,
            v as nat == le_value(b@.skip(i as int)),
            v < pow256((n - i) as nat),
            pow256((n - i) as nat) <= pow256(n as nat),
            pow256(n as nat) <= 0x1_0000_0000_0000_0000,
        decreases i,
    {
        i = i - 1;
        assert(b@.skip(i as int).drop_first() =~= b@.skip(i + 1));
        proof {
            lemma_pow256_step((n - i - 1) as nat);
            lemma_pow256_monotonic((n - i) as nat, n as nat);
        }
        assert(v * 256 + b[i as int] < pow256((n - i) as nat)) by (nonlinear_arith)
            requires
                v < pow256((n - i - 1) as nat),
                pow256((n - i) as nat) == 256 * pow256((n - i - 1) as nat),
                b[i as int] < 256,
        ;
        v = v * 256 + b[i] as u128;
    }
    assert(b@.skip(0) =~= b@);
    v as usize
}

/// `usize::to_le_bytes`: the little-endian bytes of `n`, as many as a `usize`
/// has.
pub fn usize_to_le_bytes(n: usize) -> (r: Vec<u8>)
    ensures
        r@ == le_bytes(n as nat, usize_bytes()),
{
    let k: usize = (usize::BITS / 8) as usize;
    let mut out: Vec<u8> = Vec::new();
    let mut rest: usize = n;
    let mut i: usize = 0;
    while i < k
        invariant
            k == usize_bytes(),
            i <= k,
            out@ + le_bytes(rest as nat, (k - i) as nat) == le_bytes(n as nat, k as nat),
        decreases k - i,
    {
        let ghost before = out@;
        assert(le_bytes(rest as nat, (k - i) as nat)
            == seq![(rest % 256) as u8] + le_bytes((rest / 256) as nat, (k - i - 1) as nat));
        out.push((rest % 256) as u8);
        assert(out@ + le_bytes((rest / 256) as nat, (k - i - 1) as nat)
            =~= before + le_bytes(rest as nat, (k - i) as nat));
        rest = rest / 256;
        i = i + 1;
    }
    assert(le_bytes(rest as nat, 0) =~= Seq::<u8>::empty());
    assert(out@ =~= out@ + le_bytes(rest as nat, 0));
    out
}

/// Reading little-endian bytes back gives the number they were made of.
pub proof fn lemma_le_round_trip(n: nat, k: nat)
    requires
        n < pow256(k),
    ensures
        le_bytes(n, k).len() == k,
        le_value(le_bytes(n, k)) == n,
    decreases k,
{
    if k > 0 {
        assert(n / 256 < pow256((k - 1) as nat)) by (nonlinear_arith)
            requires
                n < pow256(k),
                pow256(k) == 256 * pow256((k - 1) as nat),
        ;
        lemma_le_round_trip(n / 256, (k - 1) as nat);
        let b = le_bytes(n, k);
        assert(b.drop_first() =~= le_bytes(n / 256, (k - 1) as nat));
        assert(n == n % 256 + 256 * (n / 256)) by (nonlinear_arith);
    }
}

/// A `usize` has four or eight bytes, and its values are those below
/// `256^bytes`.
pub proof fn lemma_usize_range()
    ensures
        usize_bytes() == 4 || usize_bytes() == 8,
        pow256(usize_bytes()) == usize::MAX + 1,
        pow256(8) == 0x1_0000_0000_0000_0000,
{
    reveal_with_fuel(pow256, 9);
}

proof fn lemma_pow256_monotonic(a: nat, b: nat)
    requires
        a <= b,
    ensures
        pow256(a) <= pow256(b),
    decreases b,
{
    if a < b {
        lemma_pow256_monotonic(a, (b - 1) as nat);
    }
}

/// `256^k`.
pub open spec fn pow256(k: nat) -> nat
    decreases k,
{
    if k == 0 {
        1
    } else {
        256 * pow256((k - 1) as nat)
    }
}

proof fn lemma_pow256_step(k: nat)
    ensures
        pow256(k + 1) == 256 * pow256(k),
{
}

/// A page of entries.
pub type Page = Vec<ReadEntry>;

/// The abstract content of pages.
pub open spec fn pages_view(pages: Seq<Page>) -> Seq<Seq<Result<RowModel, Seq<char>>>> {
    pages.map_values(|p: Page| entries_view(p@))
}

/// What pages `p`, `p + 1`, ... hold together, read in the order in which
/// their cursors lead.
pub open spec fn fixed_pages_from<E>(pages: Seq<Seq<E>>, p: nat) -> Seq<E>
    decreases pages.len() - p,
{
    if p + 1 < pages.len() {
        pages[p as int] + fixed_pages_from(pages, p + 1)
    } else {
        pages[p as int]
    }
}

/// Pagination law of fixed pages: reading the first page and then each page
/// that the cursor of the previous one leads to yields the pages one after
/// another.
pub proof fn lemma_fixed_pages_yield_all<E>(pages: Seq<Seq<E>>)
    requires
        pages.len() > 0,
    ensures
        fixed_pages_from(pages, 0) == pages.flatten(),
{
    lemma_fixed_pages_from(pages, 0);
    assert(pages.skip(0) =~= pages);
}

proof fn lemma_fixed_pages_from<E>(pages: Seq<Seq<E>>, p: nat)
    requires
        p < pages.len(),
    ensures
        fixed_pages_from(pages, p) == pages.skip(p as int).flatten(),
    decreases pages.len() - p,
{
    let rest = pages.skip(p as int);
    assert(rest.drop_first() =~= pages.skip(p + 1int));
    assert(rest.flatten() == rest[0] + rest.drop_first().flatten()) by {
        reveal_with_fuel(Seq::flatten, 2);
    }
    if p + 1 < pages.len() {
        lemma_fixed_pages_from(pages, p + 1);
    } else {
        assert(pages.skip(p + 1int) =~= Seq::<Seq<E>>::empty());
        assert(rest.drop_first().flatten() =~= Seq::<E>::empty()) by {
            reveal_with_fuel(Seq::flatten, 1);
        }
        assert(pages[p as int] + Seq::<E>::empty() =~= pages[p as int]);
    }
}

/// A reader that serves fixed pages, one per read.
pub struct MockReader {
    pages: Vec<Page>,
}

impl MockReader {
    /// The pages that the reader serves.
    pub closed spec fn pages(&self) -> Seq<Seq<Result<RowModel, Seq<char>>>> {
        pages_view(self.pages@)
    }

    /// A reader of the given pages.
    pub fn new(pages: Vec<Page>) -> (r: Self)
        ensures
            r.pages() == pages_view(pages@),
    {
        MockReader { pages }
    }

    /// Reads the page that the cursor of `selector` asks for (the first page
    /// without one); the rest of the selection is not looked at. The metadata
    /// carries the cursor of the next page where one follows, and none after
    /// the last page.
    pub fn read(&self, selector: &KeyValueSelectionTermination) -> (r: (
        Vec<ReadEntry>,
        KeyValueStorageReaderMetadata,
    ))
        requires
            selector@.cursor matches Some(c) ==> c.len() == usize_bytes(),
            cursor_page(selector@.cursor) < self.pages().len(),
        ensures
            ({
                let p = cursor_page(selector@.cursor);
                &&& entries_view(r.0@) == self.pages()[p as int]
                &&& match r.1.cursor {
                    Some(c) => p + 1 < self.pages().len() && c@ == le_bytes(p + 1, usize_bytes()),
                    None => p + 1 >= self.pages().len(),
                }
            }),
    {
        let page_number: usize = match &selector.cursor {
            Some(cursor_bytes) => usize_from_le_bytes(cursor_bytes.as_slice()),
            None => 0,
        };
        let page = &self.pages[page_number];
        assert(entries_view(page@).subrange(0, page@.len() as int) =~= entries_view(page@));
        let entries = copy_entries(page.as_slice(), 0, page.len());
        assert(page_number < self.pages.len());
        let next_page_number = page_number + 1;
        let metadata = if next_page_number >= self.pages.len() {
            KeyValueStorageReaderMetadata::new()
        } else {
            KeyValueStorageReaderMetadata::with_cursor(usize_to_le_bytes(next_page_number).as_slice())
        };
        (entries, metadata)
    }

    /// Like `read`, but `None` where the cursor has another length than a
    /// `usize` or points past the last page.
    pub fn read_checked(&self, selector: &KeyValueSelectionTermination) -> (r: Option<(
        Vec<ReadEntry>,
        KeyValueStorageReaderMetadata,
    )>)
        ensures
            ({
                let p = cursor_page(selector@.cursor);
                match r {
                    Some(page) => {
                        &&& selector@.cursor matches Some(c) ==> c.len() == usize_bytes()
                        &&& p < self.pages().len()
                        &&& entries_view(page.0@) == self.pages()[p as int]
                        &&& match page.1.cursor {
                            Some(c) => p + 1 < self.pages().len() && c@ == le_bytes(p + 1, usize_bytes()),
                            None => p + 1 >= self.pages().len(),
                        }
                    },
                    None => !(selector@.cursor matches Some(c) ==> c.len() == usize_bytes())
                        || p >= self.pages().len(),
                }
            }),
    {
        let page_number: usize = match &selector.cursor {
            Some(cursor_bytes) => {
                if cursor_bytes.len() != (usize::BITS / 8) as usize {
                    return None;
                }
                usize_from_le_bytes(cursor_bytes.as_slice())
            },
            None => 0,
        };
        if page_number >= self.pages.len() {
            return None;
        }
        Some(self.read(selector))
    }
}

} // verus!
