//! The set of actors in first-seen order, held in an `indexmap::IndexSet`.
use indexmap::IndexSet;
use vstd::prelude::*;

verus! {

#[verifier::external_type_specification]
#[verifier::external_body]
#[verifier::reject_recursive_types(T)]
#[verifier::reject_recursive_types(S)]
pub struct ExIndexSet<T, S>(IndexSet<T, S>);

/// The identifiers an actor set holds, in insertion order.
pub uninterp spec fn actor_keys(s: IndexSet<String>) -> Seq<Seq<char>>;

/// Relies on `IndexSet::new`: a new set holds no items.
#[verifier::external_body]
pub(crate) fn new_actor_set() -> (r: IndexSet<String>)
    ensures
        actor_keys(r) == Seq::<Seq<char>>::empty(),
{
    IndexSet::new()
}

/// Relies on `IndexSet::insert_full`: an item already held keeps its place
/// and its index is returned with `false`; a new item goes last and its index
/// is returned with `true`. Items are told apart by `String` equality.
#[verifier::external_body]
pub(crate) fn insert_actor(set: &mut IndexSet<String>, id: String) -> (r: (usize, bool))
    ensures
        actor_keys(*old(set)).contains(id@) ==> {
            &&& !r.1
            &&& r.0 < actor_keys(*old(set)).len()
            &&& actor_keys(*old(set))[r.0 as int] == id@
            &&& actor_keys(*final(set)) == actor_keys(*old(set))
        },
        !actor_keys(*old(set)).contains(id@) ==> {
            &&& r.1
            &&& r.0 == actor_keys(*old(set)).len()
            &&& actor_keys(*final(set)) == actor_keys(*old(set)).push(id@)
        },
{
    set.insert_full(id)
}

} // verus!
