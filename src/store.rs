//! An in-memory store of audit-log entries, keyed by entry identifier:
//! taking in an entry it already holds changes nothing.
use crate::log::{classify, opt_view, same_opt, EventKind, Log};
use crate::rank::{is_stable_order, stable_rank};
use vstd::prelude::*;

verus! {

/// Some entry of `s` has identifier `id`.
pub open spec fn holds_id(s: Seq<Log>, id: Seq<char>) -> bool {
    exists|i: int| 0 <= i < s.len() && (#[trigger] s[i]).id@ == id
}

/// No two entries of `s` share an identifier.
pub open spec fn ids_unique(s: Seq<Log>) -> bool {
    forall|i: int, j: int| 0 <= i < j < s.len() ==> (#[trigger] s[i]).id@ != (#[trigger] s[j]).id@
}

/// `s` after taking in `e`: unchanged where an entry with its identifier is
/// held, else with `e` appended.
pub open spec fn inserted(s: Seq<Log>, e: Log) -> Seq<Log> {
    if holds_id(s, e.id@) {
        s
    } else {
        s.push(e)
    }
}

/// `s` after taking in the entries of `page` in order.
pub open spec fn merged(s: Seq<Log>, page: Seq<Log>) -> Seq<Log>
    decreases page.len(),
{
    if page.len() == 0 {
        s
    } else {
        inserted(merged(s, page.drop_last()), page.last())
    }
}

/// Entries held in insertion order. Built by `new`, `insert` and `merge`,
/// it never holds two entries with the same identifier.
pub struct LogStore {
    entries: Vec<Log>,
}

impl View for LogStore {
    type V = Seq<Log>;

    closed spec fn view(&self) -> Seq<Log> {
        self.entries@
    }
}

impl LogStore {
    /// An empty store.
    pub fn new() -> (r: LogStore)
        ensures
            r@ == Seq::<Log>::empty(),
            ids_unique(r@),
    {
        LogStore { entries: Vec::new() }
    }

    /// The entries held, in insertion order.
    pub fn entries(&self) -> (r: &Vec<Log>)
        ensures
            r@ == self@,
    {
        &self.entries
    }

    /// The entries held, in insertion order, taken out of the store.
    pub fn into_entries(self) -> (r: Vec<Log>)
        ensures
            r@ == self@,
    {
        self.entries
    }

    /// Number of entries held.
    pub fn len(&self) -> (r: usize)
        ensures
            r == self@.len(),
    {
        self.entries.len()
    }

    /// Whether an entry with identifier `id` is held.
    pub fn contains_id(&self, id: &String) -> (r: bool)
        ensures
            r == holds_id(self@, id@),
    {
        let mut i: usize = 0;
        while i < self.entries.len()
            invariant
                i <= self.entries@.len(),
                forall|k: int| 0 <= k < i ==> (#[trigger] self.entries@[k]).id@ != id@,
            decreases self.entries@.len() - i,
        {
            if self.entries[i].id == *id {
                return true;
            }
            i = i + 1;
        }
        false
    }

    /// Take in `e` unless an entry with its identifier is held; `true` where
    /// it was new.
    pub fn insert_log(&mut self, e: Log) -> (fresh: bool)
        requires
            ids_unique(old(self)@),
        ensures
            ids_unique(final(self)@),
            final(self)@ == inserted(old(self)@, e),
            fresh == !holds_id(old(self)@, e.id@),
    {
        if self.contains_id(&e.id) {
            false
        } else {
            self.entries.push(e);
            true
        }
    }

    /// Take in the entries of `page` in order; the number that were new.
    pub fn merge(&mut self, page: Vec<Log>) -> (fresh: usize)
        requires
            ids_unique(old(self)@),
        ensures
            ids_unique(final(self)@),
            final(self)@ == merged(old(self)@, page@),
            fresh == final(self)@.len() - old(self)@.len(),
    {
        let ghost start = self@;
        let mut fresh: usize = 0;
        let mut i: usize = 0;
        while i < page.len()
            invariant
                i <= page@.len(),
                ids_unique(self@),
                self@ == merged(start, page@.subrange(0, i as int)),
                fresh == self@.len() - start.len(),
                self@.len() <= start.len() + i,
            decreases page@.len() - i,
        {
            assert(page@.subrange(0, i + 1).drop_last() =~= page@.subrange(0, i as int));
            let e = page[i].duplicate();
            if self.insert_log(e) {
                fresh = fresh + 1;
            }
            i = i + 1;
        }
        assert(page@.subrange(0, page@.len() as int) =~= page@);
        fresh
    }
}

/// `l` is a ban or an unban, of `target` where one is given.
pub open spec fn is_action_on(l: Log, target: Option<Seq<char>>) -> bool {
    &&& (l.kind() == EventKind::Ban || l.kind() == EventKind::Unban)
    &&& (target is None || l.target() == target)
}

/// The bans and unbans of `target` among the first `k` entries of `s`, in
/// store order.
pub open spec fn actions_upto(s: Seq<Log>, target: Option<Seq<char>>, k: int) -> Seq<Log>
    decreases k,
{
    if k <= 0 {
        Seq::empty()
    } else {
        let prev = actions_upto(s, target, k - 1);
        if is_action_on(s[k - 1], target) {
            prev.push(s[k - 1])
        } else {
            prev
        }
    }
}

/// The creation times of `sel`, as ranking keys.
pub open spec fn creation_keys(sel: Seq<Log>) -> Seq<i128> {
    sel.map_values(|l: Log| l.created_at as i128)
}

/// `r` holds the entries of `sel`, newest first, entries created at the same
/// time in their order in `sel`.
pub open spec fn newest_first(r: Seq<Log>, sel: Seq<Log>) -> bool {
    exists|order: Seq<usize>|
        #[trigger] is_stable_order(order, creation_keys(sel)) && r.len()
            == sel.len() && forall|i: int| 0 <= i < r.len() ==> r[i] == sel[order[i] as int]
}

impl LogStore {
    /// The bans and unbans held, of `target` where one is given, newest first.
    fn actions(&self, target: &Option<String>) -> (r: Vec<Log>)
        ensures
            newest_first(r@, actions_upto(self@, opt_view(*target), self@.len() as int)),
    {
        let ghost t = opt_view(*target);
        let mut idx: Vec<usize> = Vec::new();
        let mut keys: Vec<i128> = Vec::new();
        let mut i: usize = 0;
        while i < self.entries.len()
            invariant
                i <= self@.len(),
                self@ == self.entries@,
                t == opt_view(*target),
                idx@.len() == actions_upto(self@, t, i as int).len(),
                keys@.len() == idx@.len(),
                forall|q: int| 0 <= q < idx@.len() ==> #[trigger] idx@[q] < i,
                forall|q: int|
                    0 <= q < idx@.len() ==> self@[#[trigger] idx@[q] as int] == actions_upto(
                        self@,
                        t,
                        i as int,
                    )[q],
                forall|q: int|
                    0 <= q < idx@.len() ==> #[trigger] keys@[q] == actions_upto(self@, t, i as int)[q].created_at as i128,
            decreases self@.len() - i,
        {
            let e = &self.entries[i];
            let kind = classify(&e.event_type);
            let on_target = match target {
                Some(_) => same_opt(&e.target_id, target),
                None => true,
            };
            if (kind == EventKind::Ban || kind == EventKind::Unban) && on_target {
                idx.push(i);
                keys.push(e.created_at as i128);
            }
            i = i + 1;
        }
        let ghost sel = actions_upto(self@, t, self@.len() as int);
        assert(keys@ =~= creation_keys(sel));
        let order = stable_rank(&keys);
        let mut r: Vec<Log> = Vec::new();
        let mut k: usize = 0;
        while k < order.len()
            invariant
                self@ == self.entries@,
                sel == actions_upto(self@, t, self@.len() as int),
                idx@.len() == sel.len(),
                keys@.len() == sel.len(),
                forall|q: int| 0 <= q < idx@.len() ==> #[trigger] idx@[q] < self@.len(),
                forall|q: int| 0 <= q < idx@.len() ==> self@[#[trigger] idx@[q] as int] == sel[q],
                is_stable_order(order@, keys@),
                k <= order@.len(),
                r@.len() == k,
                forall|q: int| 0 <= q < k ==> #[trigger] r@[q] == sel[order@[q] as int],
            decreases order@.len() - k,
        {
            r.push(self.entries[idx[order[k]]].duplicate());
            k = k + 1;
        }
        assert(is_stable_order(order@, creation_keys(sel)));
        r
    }

    /// The bans and unbans of `target_id`, newest first.
    pub fn get_recent_actions_by_id(&self, target_id: &String) -> (r: Vec<Log>)
        ensures
            newest_first(r@, actions_upto(self@, Some(target_id@), self@.len() as int)),
    {
        self.actions(&Some(target_id.clone()))
    }

    /// Every ban and unban, newest first.
    pub fn get_all_recent_actions(&self) -> (r: Vec<Log>)
        ensures
            newest_first(r@, actions_upto(self@, None, self@.len() as int)),
    {
        self.actions(&None)
    }
}

/// Taking in the same entry twice leaves the store as taking it in once.
pub proof fn lemma_insert_idempotent(s: Seq<Log>, e: Log)
    ensures
        inserted(inserted(s, e), e) == inserted(s, e),
{
    if !holds_id(s, e.id@) {
        assert(s.push(e)[s.len() as int] == e);
    }
}

} // verus!
