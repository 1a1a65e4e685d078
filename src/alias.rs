//! Canonical actor identities: staff members that act from several accounts
//! are counted under one identifier.
use vstd::prelude::*;

verus! {

/// Where `id` leads in the alias pairs `m`: the canonical identifier of the
/// first pair whose alternate is `id`, or `id` itself where none is.
pub open spec fn alias_target(m: Seq<(Seq<char>, Seq<char>)>, id: Seq<char>) -> Seq<char>
    decreases m.len(),
{
    if m.len() == 0 {
        id
    } else if m[0].0 == id {
        m[0].1
    } else {
        alias_target(m.drop_first(), id)
    }
}

/// A fixed mapping from alternate account identifiers to canonical ones.
pub struct AliasMap {
    pub pairs: Vec<(String, String)>,
}

impl View for AliasMap {
    type V = Seq<(Seq<char>, Seq<char>)>;

    open spec fn view(&self) -> Seq<(Seq<char>, Seq<char>)> {
        self.pairs@.map_values(|p: (String, String)| (p.0@, p.1@))
    }
}

impl AliasMap {
    /// A mapping with no aliases.
    pub fn new() -> (r: AliasMap)
        ensures
            r@ == Seq::<(Seq<char>, Seq<char>)>::empty(),
    {
        AliasMap { pairs: Vec::new() }
    }

    /// Add the alias `alternate -> canonical` after those already held.
    pub fn add(&mut self, alternate: String, canonical: String)
        ensures
            final(self)@ == old(self)@.push((alternate@, canonical@)),
    {
        self.pairs.push((alternate, canonical));
        assert(final(self)@ =~= old(self)@.push((alternate@, canonical@)));
    }

    /// The canonical identifier of `id`.
    pub fn canonical(&self, id: &String) -> (r: String)
        ensures
            r@ == alias_target(self@, id@),
    {
        let mut i: usize = 0;
        assert(self@.subrange(0, self@.len() as int) =~= self@);
        while i < self.pairs.len()
            invariant
                i <= self@.len(),
                self@.len() == self.pairs@.len(),
                alias_target(self@, id@) == alias_target(self@.subrange(i as int, self@.len() as int), id@),
            decreases self.pairs@.len() - i,
        {
            let ghost rest = self@.subrange(i as int, self@.len() as int);
            assert(rest.drop_first() =~= self@.subrange(i + 1, self@.len() as int));
            if self.pairs[i].0 == *id {
                return self.pairs[i].1.clone();
            }
            i = i + 1;
        }
        assert(self@.subrange(i as int, self@.len() as int).len() == 0);
        id.clone()
    }
}

/// Canonicalising is a function of the mapping and the identifier: two runs
/// with the same mapping and the same raw identifier give the same result.
pub proof fn lemma_alias_deterministic(
    m1: Seq<(Seq<char>, Seq<char>)>,
    m2: Seq<(Seq<char>, Seq<char>)>,
    id1: Seq<char>,
    id2: Seq<char>,
)
    requires
        m1 == m2,
        id1 == id2,
    ensures
        alias_target(m1, id1) == alias_target(m2, id2),
{
}

} // verus!
