//! Incremental ingestion of the remote audit log: which page to ask for next,
//! and when to stop.
use crate::log::Log;
use crate::store::{holds_id, ids_unique, inserted, merged, LogStore};
use vstd::prelude::*;

verus! {

/// Entries per page: the most the service hands out at once.
pub const PAGE_SIZE: usize = 100;

/// The cursor of one ingestion pass. A pass starts at offset zero; after each
/// page it stops on an empty page, on the last page, or on a page that added
/// nothing new, and otherwise moves one page on.
pub struct Pager {
    offset: usize,
    done: bool,
}

/// Whether a pass stops after a page with `len` entries of which `fresh` were
/// new, and `has_next` telling whether another page follows.
pub open spec fn stops_after(len: int, has_next: bool, fresh: int) -> bool {
    len == 0 || !has_next || fresh == 0
}

impl Pager {
    /// Offset of the next page to ask for.
    pub closed spec fn offset_spec(&self) -> int {
        self.offset as int
    }

    /// The pass is over.
    pub closed spec fn is_done(&self) -> bool {
        self.done
    }

    /// A pass at offset zero.
    pub fn new() -> (r: Pager)
        ensures
            r.offset_spec() == 0,
            !r.is_done(),
    {
        Pager { offset: 0, done: false }
    }

    /// Whether the pass is over.
    pub fn finished(&self) -> (r: bool)
        ensures
            r == self.is_done(),
    {
        self.done
    }

    /// The current offset.
    pub fn offset(&self) -> (r: usize)
        ensures
            r == self.offset_spec(),
    {
        self.offset
    }

    /// The offset of the page to ask for next, `None` once the pass is over.
    pub fn next_offset(&self) -> (r: Option<usize>)
        ensures
            self.is_done() ==> r is None,
            !self.is_done() ==> r == Some(self.offset_spec() as usize),
    {
        if self.done {
            None
        } else {
            Some(self.offset)
        }
    }

    /// Record a page of `len` entries, `fresh` of them new to the store, with
    /// `has_next` telling whether the service has a page after it. The pass
    /// also ends where the next offset would not fit a `usize`.
    pub fn on_page(&mut self, len: usize, has_next: bool, fresh: usize)
        ensures
            old(self).is_done() ==> *final(self) == *old(self),
            !old(self).is_done() && stops_after(len as int, has_next, fresh as int) ==> (final(self).is_done() && final(self).offset_spec() == old(self).offset_spec()),
            !old(self).is_done() && !stops_after(len as int, has_next, fresh as int) ==> {
                if old(self).offset_spec() + PAGE_SIZE <= usize::MAX {
                    !final(self).is_done() && final(self).offset_spec() == old(self).offset_spec()
                        + PAGE_SIZE
                } else {
                    final(self).is_done() && final(self).offset_spec() == old(self).offset_spec()
                }
            },
    {
        if self.done {
            return;
        }
        if len == 0 || !has_next || fresh == 0 {
            self.done = true;
        } else if self.offset > usize::MAX - PAGE_SIZE {
            self.done = true;
        } else {
            self.offset = self.offset + PAGE_SIZE;
        }
    }

    /// Give up on the pass, as after a failed write to the store; the next
    /// pass starts again at offset zero.
    pub fn abandon(&mut self)
        ensures
            final(self).is_done(),
            final(self).offset_spec() == old(self).offset_spec(),
    {
        self.done = true;
    }
}

/// The page of `history` at `offset`.
pub open spec fn page_at(history: Seq<Log>, offset: int) -> Seq<Log> {
    let start = if offset < history.len() {
        offset
    } else {
        history.len() as int
    };
    let end = if offset + PAGE_SIZE < history.len() {
        offset + PAGE_SIZE
    } else {
        history.len() as int
    };
    history.subrange(start, end)
}

/// A pass from `offset` on against a service holding `history`, starting
/// from the store contents `s`: the contents it leaves and the number of pages
/// it asks for.
pub open spec fn pass_from(history: Seq<Log>, s: Seq<Log>, offset: int) -> (Seq<Log>, int)
    decreases history.len() - offset,
{
    let page = page_at(history, offset);
    let after = merged(s, page);
    let has_next = offset + PAGE_SIZE < history.len();
    if stops_after(page.len() as int, has_next, after.len() - s.len()) || offset < 0 {
        (after, 1)
    } else {
        let rest = pass_from(history, after, offset + PAGE_SIZE);
        (rest.0, rest.1 + 1)
    }
}

/// A service that holds its audit log in memory, newest first.
pub struct MemoryRemote {
    pub history: Vec<Log>,
}

impl MemoryRemote {
    /// The page at `offset` and whether another page follows it.
    pub fn page(&self, offset: usize) -> (r: (Vec<Log>, bool))
        ensures
            r.0@ == page_at(self.history@, offset as int),
            r.1 == (offset + PAGE_SIZE < self.history@.len()),
    {
        let n = self.history.len();
        let start = if offset < n {
            offset
        } else {
            n
        };
        let end = if n - start > PAGE_SIZE {
            start + PAGE_SIZE
        } else {
            n
        };
        let mut out: Vec<Log> = Vec::new();
        let mut i = start;
        while i < end
            invariant
                start <= i <= end <= n,
                n == self.history@.len(),
                out@ == self.history@.subrange(start as int, i as int),
            decreases end - i,
        {
            out.push(self.history[i].duplicate());
            assert(out@ =~= self.history@.subrange(start as int, i + 1));
            i = i + 1;
        }
        (out, n - start > PAGE_SIZE)
    }
}

/// Run one ingestion pass against `remote` into `store`; the number of pages
/// asked for.
pub fn ingest(remote: &MemoryRemote, store: &mut LogStore) -> (requests: usize)
    requires
        ids_unique(old(store)@),
    ensures
        ids_unique(final(store)@),
        (final(store)@, requests as int) == pass_from(remote.history@, old(store)@, 0),
{
    let ghost h = remote.history@;
    let ghost result = pass_from(h, store@, 0);
    let n = remote.history.len();
    let mut pager = Pager::new();
    let mut requests: usize = 0;
    while !pager.finished()
        invariant
            h == remote.history@,
            ids_unique(store@),
            0 <= pager.offset_spec() <= h.len(),
            n == h.len(),
            !pager.is_done() ==> pager.offset_spec() == requests * PAGE_SIZE,
            pager.is_done() ==> requests >= 1 && pager.offset_spec() == (requests - 1) * PAGE_SIZE,
            !pager.is_done() ==> result == (
                pass_from(h, store@, pager.offset_spec()).0,
                pass_from(h, store@, pager.offset_spec()).1 + requests,
            ),
            pager.is_done() ==> result == (store@, requests as int),
        decreases h.len() - pager.offset_spec() + if pager.is_done() {
            0int
        } else {
            1int
        },
    {
        let offset = pager.offset();
        let (page, has_next) = remote.page(offset);
        let len = page.len();
        let fresh = store.merge(page);
        pager.on_page(len, has_next, fresh);
        requests = requests + 1;
    }
    requests
}

/// Taking in entries with identifiers not yet held appends them all.
proof fn lemma_merge_fresh(h: Seq<Log>, a: int, b: int)
    requires
        ids_unique(h),
        0 <= a <= b <= h.len(),
    ensures
        merged(h.subrange(0, a), h.subrange(a, b)) == h.subrange(0, b),
    decreases b - a,
{
    if b > a {
        lemma_merge_fresh(h, a, b - 1);
        assert(h.subrange(a, b).drop_last() =~= h.subrange(a, b - 1));
        let prev = h.subrange(0, b - 1);
        let e = h[b - 1];
        if holds_id(prev, e.id@) {
            let i = choose|i: int| 0 <= i < prev.len() && (#[trigger] prev[i]).id@ == e.id@;
            assert(h[i].id@ != h[b - 1].id@);
        }
        assert(prev.push(e) =~= h.subrange(0, b));
    } else {
        assert(h.subrange(a, b) =~= Seq::<Log>::empty());
    }
}

/// Taking in entries whose identifiers are all held changes nothing.
proof fn lemma_merge_known(s: Seq<Log>, page: Seq<Log>)
    requires
        forall|i: int| 0 <= i < page.len() ==> holds_id(s, (#[trigger] page[i]).id@),
    ensures
        merged(s, page) == s,
    decreases page.len(),
{
    if page.len() > 0 {
        lemma_merge_known(s, page.drop_last());
        assert(holds_id(s, page[page.len() - 1].id@));
    }
}

/// A pass from offset `off` over a store holding the entries before `off`.
proof fn lemma_cold_pass(h: Seq<Log>, off: int)
    requires
        ids_unique(h),
        0 <= off < h.len(),
    ensures
        pass_from(h, h.subrange(0, off), off) == (h, (h.len() - off + PAGE_SIZE - 1) / (
        PAGE_SIZE as int)),
    decreases h.len() - off,
{
    let end = if off + PAGE_SIZE < h.len() {
        off + PAGE_SIZE
    } else {
        h.len() as int
    };
    assert(page_at(h, off) == h.subrange(off, end));
    lemma_merge_fresh(h, off, end);
    if off + PAGE_SIZE < h.len() {
        lemma_cold_pass(h, off + PAGE_SIZE);
    } else {
        assert(h.subrange(0, end) =~= h);
    }
}

/// Against a service holding `history` (n > 0 entries with distinct
/// identifiers), a pass into an empty store asks for ceil(n / PAGE_SIZE) pages
/// and leaves the whole history in the store, and a second pass right after
/// it asks for one page.
pub proof fn lemma_pass_counts(history: Seq<Log>)
    requires
        ids_unique(history),
        history.len() > 0,
    ensures
        pass_from(history, Seq::empty(), 0) == (history, (history.len() + PAGE_SIZE - 1) / (
        PAGE_SIZE as int)),
        pass_from(history, pass_from(history, Seq::empty(), 0).0, 0).1 == 1,
{
    assert(history.subrange(0, 0) =~= Seq::<Log>::empty());
    lemma_cold_pass(history, 0);
    let page = page_at(history, 0);
    assert forall|i: int| 0 <= i < page.len() implies holds_id(history, (#[trigger] page[i]).id@) by {
        assert(page[i] == history[i]);
    }
    lemma_merge_known(history, page);
}

} // verus!
