//! The aggregation engine: from a window of audit-log entries to a ranked
//! leaderboard of staff moderation activity.
use crate::actors::{actor_keys, insert_actor, new_actor_set};
use crate::alias::{alias_target, AliasMap};
use crate::log::{classify, same_opt, EventKind, Log};
use crate::rank::{is_stable_order, ranks_before, stable_rank};
use vstd::prelude::*;

verus! {

/// Length of the trailing window, in seconds: 24 hours.
pub const WINDOW_SECONDS: i64 = 86400;

/// An entry created at `created_at` lies in the trailing window that ends at
/// `now`.
pub open spec fn within_window(now: i64, created_at: i64) -> bool {
    now - created_at <= WINDOW_SECONDS
}

/// Whether an entry created at `created_at` lies in the trailing window that
/// ends at `now` (both in Unix seconds).
pub fn in_window(now: i64, created_at: i64) -> (r: bool)
    ensures
        r == within_window(now, created_at),
{
    (now as i128) - (created_at as i128) <= (WINDOW_SECONDS as i128)
}

/// Bans, kicks and warnings count towards the leaderboard.
pub open spec fn is_action(k: EventKind) -> bool {
    k == EventKind::Ban || k == EventKind::Kick || k == EventKind::Warn
}

/// The canonical actor of an entry.
pub open spec fn canon(m: Seq<(Seq<char>, Seq<char>)>, l: Log) -> Seq<char> {
    alias_target(m, l.actor_id@)
}

/// `u` is an unban that reverses the ban `b`: same canonical actor, same
/// target.
pub open spec fn reverses(m: Seq<(Seq<char>, Seq<char>)>, u: Log, b: Log) -> bool {
    &&& u.kind() == EventKind::Unban
    &&& canon(m, u) == canon(m, b)
    &&& u.target() == b.target()
}

/// Entry `j` is a ban with a target that a later unban reverses.
pub open spec fn cancelled(logs: Seq<Log>, m: Seq<(Seq<char>, Seq<char>)>, j: int) -> bool {
    &&& logs[j].kind() == EventKind::Ban
    &&& logs[j].target() is Some
    &&& exists|k: int| j < k < logs.len() && #[trigger] reverses(m, logs[k], logs[j])
}

/// Entry `j` counts towards its actor: a ban, kick or warning not cancelled.
pub open spec fn counted(logs: Seq<Log>, m: Seq<(Seq<char>, Seq<char>)>, j: int) -> bool {
    is_action(logs[j].kind()) && !cancelled(logs, m, j)
}

/// Entry `j` is counted, of kind `kind`, by `who` (any actor where `None`),
/// and in the window ending at `now` where `recent`.
pub open spec fn tallied(
    logs: Seq<Log>,
    m: Seq<(Seq<char>, Seq<char>)>,
    now: i64,
    who: Option<Seq<char>>,
    kind: EventKind,
    recent: bool,
    j: int,
) -> bool {
    &&& counted(logs, m, j)
    &&& logs[j].kind() == kind
    &&& (who is None || who->0 == canon(m, logs[j]))
    &&& (!recent || within_window(now, logs[j].created_at))
}

/// How many of the first `n` entries are tallied.
pub open spec fn tally(
    logs: Seq<Log>,
    m: Seq<(Seq<char>, Seq<char>)>,
    now: i64,
    who: Option<Seq<char>>,
    kind: EventKind,
    recent: bool,
    n: int,
) -> int
    decreases n,
{
    if n <= 0 {
        0
    } else {
        tally(logs, m, now, who, kind, recent, n - 1) + if tallied(
            logs,
            m,
            now,
            who,
            kind,
            recent,
            n - 1,
        ) {
            1int
        } else {
            0int
        }
    }
}

/// Counts of each tracked event kind, over all time and over the last 24
/// hours.
#[derive(Clone, Copy, Debug, PartialEq, Eq, Structural)]
pub struct Counts {
    pub bans: usize,
    pub kicks: usize,
    pub warns: usize,
    pub new_bans: usize,
    pub new_kicks: usize,
    pub new_warns: usize,
}

/// `c` holds the counts of `who` over all of `logs`.
pub open spec fn counts_are(
    c: Counts,
    logs: Seq<Log>,
    m: Seq<(Seq<char>, Seq<char>)>,
    now: i64,
    who: Option<Seq<char>>,
) -> bool {
    counts_upto(c, logs, m, now, who, logs.len() as int)
}

/// `c` holds the counts of `who` over the first `n` entries.
pub open spec fn counts_upto(
    c: Counts,
    logs: Seq<Log>,
    m: Seq<(Seq<char>, Seq<char>)>,
    now: i64,
    who: Option<Seq<char>>,
    n: int,
) -> bool {
    &&& c.bans == tally(logs, m, now, who, EventKind::Ban, false, n)
    &&& c.kicks == tally(logs, m, now, who, EventKind::Kick, false, n)
    &&& c.warns == tally(logs, m, now, who, EventKind::Warn, false, n)
    &&& c.new_bans == tally(logs, m, now, who, EventKind::Ban, true, n)
    &&& c.new_kicks == tally(logs, m, now, who, EventKind::Kick, true, n)
    &&& c.new_warns == tally(logs, m, now, who, EventKind::Warn, true, n)
}

/// All-time bans, kicks and warnings of actor `a`.
pub open spec fn total_of(
    logs: Seq<Log>,
    m: Seq<(Seq<char>, Seq<char>)>,
    now: i64,
    a: Seq<char>,
) -> int {
    total_upto(logs, m, now, Some(a), logs.len() as int)
}

/// Bans, kicks and warnings of `who` among the first `n` entries.
pub open spec fn total_upto(
    logs: Seq<Log>,
    m: Seq<(Seq<char>, Seq<char>)>,
    now: i64,
    who: Option<Seq<char>>,
    n: int,
) -> int {
    tally(logs, m, now, who, EventKind::Ban, false, n) + tally(
        logs,
        m,
        now,
        who,
        EventKind::Kick,
        false,
        n,
    ) + tally(logs, m, now, who, EventKind::Warn, false, n)
}

/// Canonical actors of the bans, kicks and warnings among the first `n`
/// entries, in order of first appearance.
pub open spec fn actor_order(logs: Seq<Log>, m: Seq<(Seq<char>, Seq<char>)>, n: int) -> Seq<
    Seq<char>,
>
    decreases n,
{
    if n <= 0 {
        Seq::empty()
    } else {
        let prev = actor_order(logs, m, n - 1);
        let a = canon(m, logs[n - 1]);
        if is_action(logs[n - 1].kind()) && !prev.contains(a) {
            prev.push(a)
        } else {
            prev
        }
    }
}

/// The actors among the first `k` of `actors` whose total is not zero.
pub open spec fn shown_upto(
    actors: Seq<Seq<char>>,
    logs: Seq<Log>,
    m: Seq<(Seq<char>, Seq<char>)>,
    now: i64,
    k: int,
) -> Seq<Seq<char>>
    decreases k,
{
    if k <= 0 {
        Seq::empty()
    } else {
        let prev = shown_upto(actors, logs, m, now, k - 1);
        if total_of(logs, m, now, actors[k - 1]) > 0 {
            prev.push(actors[k - 1])
        } else {
            prev
        }
    }
}

/// The actors on the leaderboard, in grouping order: every actor of a
/// ban, kick or warning whose total after cancellation is not zero.
pub open spec fn shown(logs: Seq<Log>, m: Seq<(Seq<char>, Seq<char>)>, now: i64) -> Seq<
    Seq<char>,
> {
    let actors = actor_order(logs, m, logs.len() as int);
    shown_upto(actors, logs, m, now, actors.len() as int)
}

/// The totals of the shown actors, in grouping order.
pub open spec fn shown_totals(logs: Seq<Log>, m: Seq<(Seq<char>, Seq<char>)>, now: i64) -> Seq<
    i128,
> {
    shown(logs, m, now).map_values(|a: Seq<char>| total_of(logs, m, now, a) as i128)
}

/// One row of the leaderboard.
pub struct LeaderboardEntry {
    /// Canonical actor identifier.
    pub actor_id: String,
    /// Position on the board, from 1.
    pub rank: usize,
    pub counts: Counts,
    /// All-time bans, kicks and warnings.
    pub total: usize,
}

/// `e` is the row of actor `a` at position `i` (from 0).
pub open spec fn entry_is(
    e: LeaderboardEntry,
    a: Seq<char>,
    i: int,
    logs: Seq<Log>,
    m: Seq<(Seq<char>, Seq<char>)>,
    now: i64,
) -> bool {
    &&& e.actor_id@ == a
    &&& e.rank == i + 1
    &&& counts_are(e.counts, logs, m, now, Some(a))
    &&& e.total == total_of(logs, m, now, a)
}

/// `entries` is the leaderboard of `logs`: one row per shown actor, by
/// descending total, equal totals in grouping order.
pub open spec fn is_ranking_of(
    entries: Seq<LeaderboardEntry>,
    logs: Seq<Log>,
    m: Seq<(Seq<char>, Seq<char>)>,
    now: i64,
) -> bool {
    let rows = shown(logs, m, now);
    exists|order: Seq<usize>|
        #[trigger] is_stable_order(order, shown_totals(logs, m, now)) && entries.len() == rows.len()
            && forall|i: int|
            0 <= i < entries.len() ==> entry_is(
                #[trigger] entries[i],
                rows[order[i] as int],
                i,
                logs,
                m,
                now,
            )
}

/// A ranked leaderboard and the counts over every actor.
pub struct Leaderboard {
    pub entries: Vec<LeaderboardEntry>,
    pub totals: Counts,
}

/// No count exceeds the number of entries looked at.
proof fn lemma_tally_bound(
    logs: Seq<Log>,
    m: Seq<(Seq<char>, Seq<char>)>,
    now: i64,
    who: Option<Seq<char>>,
    recent: bool,
    n: int,
)
    requires
        0 <= n,
    ensures
        0 <= tally(logs, m, now, who, EventKind::Ban, recent, n),
        0 <= tally(logs, m, now, who, EventKind::Kick, recent, n),
        0 <= tally(logs, m, now, who, EventKind::Warn, recent, n),
        tally(logs, m, now, who, EventKind::Ban, recent, n) + tally(
            logs,
            m,
            now,
            who,
            EventKind::Kick,
            recent,
            n,
        ) + tally(logs, m, now, who, EventKind::Warn, recent, n) <= n,
    decreases n,
{
    if n > 0 {
        lemma_tally_bound(logs, m, now, who, recent, n - 1);
    }
}

/// An actor that no ban, kick or warning among the first `n` entries names
/// has nothing tallied there.
proof fn lemma_absent_untallied(
    logs: Seq<Log>,
    m: Seq<(Seq<char>, Seq<char>)>,
    now: i64,
    a: Seq<char>,
    kind: EventKind,
    recent: bool,
    n: int,
)
    requires
        0 <= n,
        !actor_order(logs, m, n).contains(a),
    ensures
        tally(logs, m, now, Some(a), kind, recent, n) == 0,
    decreases n,
{
    if n > 0 {
        let prev = actor_order(logs, m, n - 1);
        let b = canon(m, logs[n - 1]);
        if prev.contains(a) {
            let i = choose|i: int| 0 <= i < prev.len() && prev[i] == a;
            if is_action(logs[n - 1].kind()) && !prev.contains(b) {
                assert(prev.push(b)[i] == a);
            }
        }
        lemma_absent_untallied(logs, m, now, a, kind, recent, n - 1);
        if tallied(logs, m, now, Some(a), kind, recent, n - 1) {
            if !prev.contains(b) {
                assert(prev.push(b)[prev.len() as int] == b);
            }
        }
    }
}

/// `c` with one more event of `kind`, also counted as recent where `recent`.
pub open spec fn bumped(c: Counts, kind: EventKind, recent: bool) -> Counts {
    Counts {
        bans: if kind == EventKind::Ban { (c.bans + 1) as usize } else { c.bans },
        kicks: if kind == EventKind::Kick { (c.kicks + 1) as usize } else { c.kicks },
        warns: if kind == EventKind::Warn { (c.warns + 1) as usize } else { c.warns },
        new_bans: if kind == EventKind::Ban && recent { (c.new_bans + 1) as usize } else { c.new_bans },
        new_kicks: if kind == EventKind::Kick && recent { (c.new_kicks + 1) as usize } else { c.new_kicks },
        new_warns: if kind == EventKind::Warn && recent { (c.new_warns + 1) as usize } else { c.new_warns },
    }
}

impl Counts {
    /// All counts zero.
    pub fn zero() -> (r: Counts)
        ensures
            r.bans == 0 && r.kicks == 0 && r.warns == 0,
            r.new_bans == 0 && r.new_kicks == 0 && r.new_warns == 0,
    {
        Counts { bans: 0, kicks: 0, warns: 0, new_bans: 0, new_kicks: 0, new_warns: 0 }
    }

    fn bump(self, kind: EventKind, recent: bool) -> (r: Counts)
        requires
            self.bans < usize::MAX && self.kicks < usize::MAX && self.warns < usize::MAX,
            self.new_bans < usize::MAX && self.new_kicks < usize::MAX && self.new_warns
                < usize::MAX,
        ensures
            r == bumped(self, kind, recent),
    {
        let mut c = self;
        match kind {
            EventKind::Ban => {
                c.bans = c.bans + 1;
                if recent {
                    c.new_bans = c.new_bans + 1;
                }
            },
            EventKind::Kick => {
                c.kicks = c.kicks + 1;
                if recent {
                    c.new_kicks = c.new_kicks + 1;
                }
            },
            EventKind::Warn => {
                c.warns = c.warns + 1;
                if recent {
                    c.new_warns = c.new_warns + 1;
                }
            },
            _ => {},
        }
        c
    }
}

/// The kind and the canonical actor of every entry.
fn entry_facts(logs: &Vec<Log>, aliases: &AliasMap) -> (r: (Vec<EventKind>, Vec<String>))
    ensures
        r.0@.len() == logs@.len(),
        r.1@.len() == logs@.len(),
        forall|j: int| 0 <= j < logs@.len() ==> #[trigger] r.0@[j] == logs@[j].kind(),
        forall|j: int| 0 <= j < logs@.len() ==> #[trigger] r.1@[j]@ == canon(aliases@, logs@[j]),
{
    let mut kinds: Vec<EventKind> = Vec::new();
    let mut canons: Vec<String> = Vec::new();
    let mut j: usize = 0;
    while j < logs.len()
        invariant
            j <= logs@.len(),
            kinds@.len() == j,
            canons@.len() == j,
            forall|q: int| 0 <= q < j ==> #[trigger] kinds@[q] == logs@[q].kind(),
            forall|q: int| 0 <= q < j ==> #[trigger] canons@[q]@ == canon(aliases@, logs@[q]),
        decreases logs@.len() - j,
    {
        kinds.push(classify(&logs[j].event_type));
        canons.push(aliases.canonical(&logs[j].actor_id));
        j = j + 1;
    }
    (kinds, canons)
}

/// For every entry, whether it is a ban that a later unban reverses.
fn cancellations(
    logs: &Vec<Log>,
    aliases: &AliasMap,
    kinds: &Vec<EventKind>,
    canons: &Vec<String>,
) -> (r: Vec<bool>)
    requires
        kinds@.len() == logs@.len(),
        canons@.len() == logs@.len(),
        forall|j: int| 0 <= j < logs@.len() ==> #[trigger] kinds@[j] == logs@[j].kind(),
        forall|j: int| 0 <= j < logs@.len() ==> #[trigger] canons@[j]@ == canon(aliases@, logs@[j]),
    ensures
        r@.len() == logs@.len(),
        forall|j: int| 0 <= j < logs@.len() ==> #[trigger] r@[j] == cancelled(logs@, aliases@, j),
{
    let n = logs.len();
    let mut dropped: Vec<bool> = Vec::new();
    let mut j: usize = 0;
    while j < n
        invariant
            n == logs@.len(),
            j <= n,
            kinds@.len() == n,
            canons@.len() == n,
            forall|q: int| 0 <= q < n ==> #[trigger] kinds@[q] == logs@[q].kind(),
            forall|q: int| 0 <= q < n ==> #[trigger] canons@[q]@ == canon(aliases@, logs@[q]),
            dropped@.len() == j,
            forall|q: int| 0 <= q < j ==> #[trigger] dropped@[q] == cancelled(logs@, aliases@, q),
        decreases n - j,
    {
        let mut found = false;
        if kinds[j] == EventKind::Ban && logs[j].target_id.is_some() {
            let mut k: usize = j + 1;
            while k < n && !found
                invariant
                    n == logs@.len(),
                    j < k <= n,
                    kinds@.len() == n,
                    canons@.len() == n,
                    forall|q: int| 0 <= q < n ==> #[trigger] kinds@[q] == logs@[q].kind(),
                    forall|q: int| 0 <= q < n ==> #[trigger] canons@[q]@ == canon(aliases@, logs@[q]),
                    found == exists|q: int| j < q < k && #[trigger] reverses(aliases@, logs@[q], logs@[j as int]),
                decreases n - k,
            {
                if kinds[k] == EventKind::Unban && canons[k] == canons[j] && same_opt(
                    &logs[k].target_id,
                    &logs[j].target_id,
                ) {
                    found = true;
                    assert(reverses(aliases@, logs@[k as int], logs@[j as int]));
                }
                k = k + 1;
            }
        }
        dropped.push(found);
        j = j + 1;
    }
    dropped
}

/// Counts of the first `j` entries for each actor in first-seen order, and
/// over every actor.
pub open spec fn grouped_upto(
    actors: Seq<String>,
    counts: Seq<Counts>,
    totals: Counts,
    logs: Seq<Log>,
    m: Seq<(Seq<char>, Seq<char>)>,
    now: i64,
    j: int,
) -> bool {
    let order = actor_order(logs, m, j);
    &&& actors.len() == order.len()
    &&& counts.len() == order.len()
    &&& forall|g: int| 0 <= g < order.len() ==> #[trigger] actors[g]@ == order[g]
    &&& forall|g: int|
        0 <= g < order.len() ==> counts_upto(#[trigger] counts[g], logs, m, now, Some(order[g]), j)
    &&& counts_upto(totals, logs, m, now, None, j)
}

/// Group the entries by canonical actor and count them.
#[verifier::rlimit(60)]
fn group_counts(
    logs: &Vec<Log>,
    aliases: &AliasMap,
    now: i64,
    kinds: &Vec<EventKind>,
    canons: &Vec<String>,
    dropped: &Vec<bool>,
) -> (r: (Vec<String>, Vec<Counts>, Counts))
    requires
        kinds@.len() == logs@.len(),
        canons@.len() == logs@.len(),
        dropped@.len() == logs@.len(),
        forall|j: int| 0 <= j < logs@.len() ==> #[trigger] kinds@[j] == logs@[j].kind(),
        forall|j: int| 0 <= j < logs@.len() ==> #[trigger] canons@[j]@ == canon(aliases@, logs@[j]),
        forall|j: int|
            0 <= j < logs@.len() ==> #[trigger] dropped@[j] == cancelled(logs@, aliases@, j),
    ensures
        grouped_upto(r.0@, r.1@, r.2, logs@, aliases@, now, logs@.len() as int),
{
    let ghost l = logs@;
    let ghost m = aliases@;
    let n = logs.len();
    let mut set = new_actor_set();
    let mut actors: Vec<String> = Vec::new();
    let mut counts: Vec<Counts> = Vec::new();
    let mut totals = Counts::zero();
    let mut j: usize = 0;
    while j < n
        invariant
            n == l.len(),
            l == logs@,
            m == aliases@,
            j <= n,
            kinds@.len() == n,
            canons@.len() == n,
            dropped@.len() == n,
            forall|q: int| 0 <= q < n ==> #[trigger] kinds@[q] == l[q].kind(),
            forall|q: int| 0 <= q < n ==> #[trigger] canons@[q]@ == canon(m, l[q]),
            forall|q: int| 0 <= q < n ==> #[trigger] dropped@[q] == cancelled(l, m, q),
            actor_keys(set) == actor_order(l, m, j as int),
            forall|a: int, b: int|
                0 <= a < b < actor_order(l, m, j as int).len() ==> #[trigger] actor_order(
                    l,
                    m,
                    j as int,
                )[a] != #[trigger] actor_order(l, m, j as int)[b],
            grouped_upto(actors@, counts@, totals, l, m, now, j as int),
        decreases n - j,
    {
        let ghost prev = actor_order(l, m, j as int);
        let ghost next = actor_order(l, m, j + 1);
        let kind = kinds[j];
        proof {
            lemma_tally_bound(l, m, now, None, false, j as int);
            lemma_tally_bound(l, m, now, None, true, j as int);
        }
        if kind == EventKind::Ban || kind == EventKind::Kick || kind == EventKind::Warn {
            let (g, fresh) = insert_actor(&mut set, canons[j].clone());
            if fresh {
                actors.push(canons[j].clone());
                counts.push(Counts::zero());
                proof {
                    let a = canon(m, l[j as int]);
                    lemma_absent_untallied(l, m, now, a, EventKind::Ban, false, j as int);
                    lemma_absent_untallied(l, m, now, a, EventKind::Kick, false, j as int);
                    lemma_absent_untallied(l, m, now, a, EventKind::Warn, false, j as int);
                    lemma_absent_untallied(l, m, now, a, EventKind::Ban, true, j as int);
                    lemma_absent_untallied(l, m, now, a, EventKind::Kick, true, j as int);
                    lemma_absent_untallied(l, m, now, a, EventKind::Warn, true, j as int);
                    assert(next == prev.push(a));
                }
            }
            let ghost mid = counts@;
            assert(next[g as int] == canon(m, l[j as int]));
            if !dropped[j] {
                let recent = in_window(now, logs[j].created_at);
                proof {
                    lemma_tally_bound(l, m, now, Some(next[g as int]), false, j as int);
                    lemma_tally_bound(l, m, now, Some(next[g as int]), true, j as int);
                }
                let c = counts[g].bump(kind, recent);
                counts.set(g, c);
                totals = totals.bump(kind, recent);
            }
            assert forall|g2: int| 0 <= g2 < next.len() implies counts_upto(
                #[trigger] counts@[g2],
                l,
                m,
                now,
                Some(next[g2]),
                j + 1,
            ) by {
                if g2 != g {
                    assert(counts@[g2] == mid[g2]);
                    if g2 < prev.len() {
                        assert(next[g2] == prev[g2]);
                        if g < prev.len() {
                            assert(prev[g2] != prev[g as int]);
                        }
                    }
                }
            }
        }
        j = j + 1;
    }
    (actors, counts, totals)
}

/// The leaderboard of `logs`: bans, kicks and warnings grouped by canonical
/// actor, bans that a later unban by the same actor reverses left out, actors
/// with nothing left dropped, the rest ranked by descending total with equal
/// totals in grouping order. Recent counts cover the 24 hours up to `now`.
pub fn leaderboard(logs: &Vec<Log>, aliases: &AliasMap, now: i64) -> (r: Leaderboard)
    ensures
        is_ranking_of(r.entries@, logs@, aliases@, now),
        counts_are(r.totals, logs@, aliases@, now, None),
{
    let ghost l = logs@;
    let ghost m = aliases@;
    let (kinds, canons) = entry_facts(logs, aliases);
    let dropped = cancellations(logs, aliases, &kinds, &canons);
    let (actors, counts, totals) = group_counts(logs, aliases, now, &kinds, &canons, &dropped);
    let ghost all = actor_order(l, m, l.len() as int);
    let n = logs.len();
    let mut rows: Vec<usize> = Vec::new();
    let mut keys: Vec<i128> = Vec::new();
    let mut sizes: Vec<usize> = Vec::new();
    let mut g: usize = 0;
    while g < counts.len()
        invariant
            grouped_upto(actors@, counts@, totals, l, m, now, l.len() as int),
            all == actor_order(l, m, l.len() as int),
            n == l.len(),
            g <= counts@.len(),
            rows@.len() == shown_upto(all, l, m, now, g as int).len(),
            keys@.len() == rows@.len(),
            sizes@.len() == rows@.len(),
            forall|i: int| 0 <= i < rows@.len() ==> #[trigger] rows@[i] < counts@.len(),
            forall|i: int| 0 <= i < rows@.len() ==> #[trigger] sizes@[i] as int == keys@[i] as int,
            forall|i: int|
                0 <= i < rows@.len() ==> all[#[trigger] rows@[i] as int] == shown_upto(
                    all,
                    l,
                    m,
                    now,
                    g as int,
                )[i],
            forall|i: int|
                0 <= i < rows@.len() ==> #[trigger] keys@[i] as int == total_of(
                    l,
                    m,
                    now,
                    shown_upto(all, l, m, now, g as int)[i],
                ),
        decreases counts@.len() - g,
    {
        let c = counts[g];
        proof {
            lemma_tally_bound(l, m, now, Some(all[g as int]), false, l.len() as int);
            assert(counts_upto(counts@[g as int], l, m, now, Some(all[g as int]), l.len() as int));
        }
        let total = c.bans + c.kicks + c.warns;
        if total > 0 {
            rows.push(g);
            keys.push(total as i128);
            sizes.push(total);
        }
        g = g + 1;
    }
    let ghost rows_spec = shown(l, m, now);
    assert(keys@ =~= shown_totals(l, m, now));
    let order = stable_rank(&keys);
    let mut entries: Vec<LeaderboardEntry> = Vec::new();
    let mut i: usize = 0;
    while i < order.len()
        invariant
            grouped_upto(actors@, counts@, totals, l, m, now, l.len() as int),
            all == actor_order(l, m, l.len() as int),
            rows_spec == shown(l, m, now),
            rows@.len() == rows_spec.len(),
            keys@.len() == rows@.len(),
            sizes@.len() == rows@.len(),
            forall|q: int| 0 <= q < rows@.len() ==> #[trigger] sizes@[q] as int == keys@[q] as int,
            is_stable_order(order@, keys@),
            forall|q: int| 0 <= q < rows@.len() ==> #[trigger] rows@[q] < counts@.len(),
            forall|q: int| 0 <= q < rows@.len() ==> all[#[trigger] rows@[q] as int] == rows_spec[q],
            forall|q: int|
                0 <= q < rows@.len() ==> #[trigger] keys@[q] as int == total_of(l, m, now, rows_spec[q]),
            i <= order@.len(),
            entries@.len() == i,
            forall|q: int|
                0 <= q < i ==> entry_is(#[trigger] entries@[q], rows_spec[order@[q] as int], q, l, m, now),
        decreases order@.len() - i,
    {
        let r = order[i];
        let g = rows[r];
        entries.push(
            LeaderboardEntry {
                actor_id: actors[g].clone(),
                rank: i + 1,
                counts: counts[g],
                total: sizes[r],
            },
        );
        i = i + 1;
    }
    assert(is_stable_order(order@, shown_totals(l, m, now)));
    Leaderboard { entries, totals }
}

/// Rows with equal totals keep their grouping order: of two such rows, the
/// higher-ranked actor appears earlier among the shown actors.
pub proof fn lemma_ties_keep_grouping_order(
    entries: Seq<LeaderboardEntry>,
    logs: Seq<Log>,
    m: Seq<(Seq<char>, Seq<char>)>,
    now: i64,
    i: int,
    j: int,
)
    requires
        is_ranking_of(entries, logs, m, now),
        0 <= i < j < entries.len(),
        entries[i].total == entries[j].total,
    ensures
        exists|a: int, b: int|
            0 <= a < b < shown(logs, m, now).len() && shown(logs, m, now)[a] == entries[i].actor_id@
                && shown(logs, m, now)[b] == entries[j].actor_id@,
{
    let rows = shown(logs, m, now);
    let keys = shown_totals(logs, m, now);
    let order = choose|order: Seq<usize>|
        #[trigger] is_stable_order(order, keys) && entries.len() == rows.len() && forall|q: int|
            0 <= q < entries.len() ==> entry_is(
                #[trigger] entries[q],
                rows[order[q] as int],
                q,
                logs,
                m,
                now,
            );
    assert(entry_is(entries[i], rows[order[i] as int], i, logs, m, now));
    assert(entry_is(entries[j], rows[order[j] as int], j, logs, m, now));
    assert(ranks_before(keys, order[i], order[j]));
    assert(order[i] < order[j]);
}

/// Which counts make up an actor's share of the board.
#[derive(Clone, Copy, Debug, PartialEq, Eq, Structural)]
pub struct SharePolicy {
    /// Leave warnings out of the share and of the whole it is taken of.
    pub exclude_warnings: bool,
}

/// The counts of `c` that a share under `p` is made of.
pub open spec fn share_part(c: Counts, p: SharePolicy) -> int {
    c.bans + c.kicks + if p.exclude_warnings {
        0int
    } else {
        c.warns as int
    }
}

/// `part` of `whole` in tenths of a percent, rounded half up; zero where the
/// whole is zero.
pub open spec fn share_tenths_of(part: int, whole: int) -> int {
    if whole <= 0 {
        0
    } else {
        (2000 * part + whole) / (2 * whole)
    }
}

/// The share of `entry` in `totals`, in tenths of a percent (`1000` is all of
/// it), under `policy`.
pub fn share_tenths(entry: &Counts, totals: &Counts, policy: SharePolicy) -> (r: u128)
    ensures
        r == share_tenths_of(share_part(*entry, policy), share_part(*totals, policy)),
{
    let part: u128 = entry.bans as u128 + entry.kicks as u128 + if policy.exclude_warnings {
        0
    } else {
        entry.warns as u128
    };
    let whole: u128 = totals.bans as u128 + totals.kicks as u128 + if policy.exclude_warnings {
        0
    } else {
        totals.warns as u128
    };
    if whole == 0 {
        return 0;
    }
    assert(2000 * part + whole <= u128::MAX) by (nonlinear_arith)
        requires
            part <= 3 * (usize::MAX as int),
            whole <= 3 * (usize::MAX as int),
    ;
    (2000 * part + whole) / (2 * whole)
}

} // verus!
