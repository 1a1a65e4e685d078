//! Stable ranking: positions ordered by descending key, equal keys kept in
//! their input order.
use vstd::prelude::*;

verus! {

/// Position `a` comes before position `b`: its key is larger, or the keys are
/// equal and `a` came first.
pub open spec fn ranks_before(keys: Seq<i128>, a: usize, b: usize) -> bool {
    keys[a as int] > keys[b as int] || (keys[a as int] == keys[b as int] && a < b)
}

/// `order` lists every position of `keys` once, by descending key, equal keys
/// in their input order.
pub open spec fn is_stable_order(order: Seq<usize>, keys: Seq<i128>) -> bool {
    &&& order.len() == keys.len()
    &&& forall|i: int| 0 <= i < order.len() ==> #[trigger] order[i] < keys.len()
    &&& forall|i: int, j: int|
        0 <= i < j < order.len() ==> ranks_before(keys, #[trigger] order[i], #[trigger] order[j])
}

/// The positions of `keys` in ranking order.
pub fn stable_rank(keys: &Vec<i128>) -> (order: Vec<usize>)
    ensures
        is_stable_order(order@, keys@),
{
    let mut order: Vec<usize> = Vec::new();
    let mut k: usize = 0;
    while k < keys.len()
        invariant
            k <= keys@.len(),
            order@.len() == k,
            forall|i: int| 0 <= i < order@.len() ==> #[trigger] order@[i] < k,
            forall|i: int, j: int|
                0 <= i < j < order@.len() ==> ranks_before(keys@, #[trigger] order@[i], #[trigger] order@[j]),
        decreases keys@.len() - k,
    {
        let mut pos: usize = 0;
        while pos < order.len() && keys[order[pos]] >= keys[k]
            invariant
                k < keys@.len(),
                pos <= order@.len(),
                order@.len() == k,
                forall|i: int| 0 <= i < order@.len() ==> #[trigger] order@[i] < k,
                forall|q: int| 0 <= q < pos ==> keys@[#[trigger] order@[q] as int] >= keys@[k as int],
            decreases order@.len() - pos,
        {
            pos = pos + 1;
        }
        let ghost old_order = order@;
        assert forall|q: int| pos <= q < old_order.len() implies keys@[#[trigger] old_order[q] as int]
            < keys@[k as int] by {
            if q > pos {
                assert(ranks_before(keys@, old_order[pos as int], old_order[q]));
            }
        }
        order.insert(pos, k);
        assert forall|i: int, j: int| 0 <= i < j < order@.len() implies ranks_before(
            keys@,
            #[trigger] order@[i],
            #[trigger] order@[j],
        ) by {
            if j < pos {
                assert(order@[i] == old_order[i] && order@[j] == old_order[j]);
            } else if j == pos {
                assert(order@[i] == old_order[i]);
            } else if i < pos {
                assert(order@[i] == old_order[i] && order@[j] == old_order[j - 1]);
            } else if i == pos {
                assert(order@[j] == old_order[j - 1]);
            } else {
                assert(order@[i] == old_order[i - 1] && order@[j] == old_order[j - 1]);
            }
        }
        k = k + 1;
    }
    order
}

} // verus!
