//! Sets of member identifiers that remember the order of arrival.

use crate::groupes::membres::MembreID;
use vstd::prelude::*;

verus! {

/// A set of member identifiers. Walking it yields the identifiers in the order
/// in which they were added, so that whatever is computed from a walk is the
/// same in every run.
#[derive(Debug)]
pub struct Ensemble {
    ids: Vec<MembreID>,
}

impl Ensemble {
    /// The identifiers in the order in which they were added; none occurs
    /// twice.
    pub closed spec fn vue(&self) -> Seq<MembreID> {
        self.ids@
    }

    #[verifier::type_invariant]
    spec fn inv(self) -> bool {
        self.ids@.no_duplicates()
    }

    /// The empty set.
    pub fn new() -> (e: Self)
        ensures
            e.vue() == Seq::<MembreID>::empty(),
    {
        Ensemble { ids: Vec::new() }
    }

    /// The set of the identifiers of `ids`, which are all different.
    pub(crate) fn depuis_vec(ids: Vec<MembreID>) -> (e: Self)
        requires
            ids@.no_duplicates(),
        ensures
            e.vue() == ids@,
    {
        Ensemble { ids }
    }

    /// The number of identifiers in the set.
    pub fn len(&self) -> (n: usize)
        ensures
            n == self.vue().len(),
            self.vue().no_duplicates(),
    {
        proof {
            use_type_invariant(self);
        }
        self.ids.len()
    }

    /// Whether the set holds nothing.
    pub fn is_empty(&self) -> (b: bool)
        ensures
            b == (self.vue().len() == 0),
    {
        self.ids.len() == 0
    }

    /// The identifier at position `i` of the walk.
    pub fn get(&self, i: usize) -> (id: MembreID)
        requires
            i < self.vue().len(),
        ensures
            id == self.vue()[i as int],
    {
        self.ids[i]
    }

    /// The position of `id` in the walk, if the set holds it.
    pub fn position(&self, id: MembreID) -> (r: Option<usize>)
        ensures
            r is Some <==> self.vue().contains(id),
            r matches Some(i) ==> i < self.vue().len() && self.vue()[i as int] == id && i
                == self.vue().index_of(id),
            self.vue().no_duplicates(),
    {
        proof {
            use_type_invariant(self);
        }
        let mut i: usize = 0;
        while i < self.ids.len()
            invariant
                i <= self.ids@.len(),
                self.ids@.no_duplicates(),
                forall|j: int| 0 <= j < i ==> self.ids@[j] != id,
            decreases self.ids@.len() - i,
        {
            if self.ids[i] == id {
                assert(self.ids@[self.ids@.index_of(id)] == id);
                return Some(i);
            }
            i += 1;
        }
        None
    }

    /// Whether the set holds `id`.
    pub fn contains(&self, id: MembreID) -> (b: bool)
        ensures
            b == self.vue().contains(id),
    {
        self.position(id).is_some()
    }

    /// Adds `id` behind the others, unless the set holds it already; says
    /// whether it was added.
    pub fn insert(&mut self, id: MembreID) -> (b: bool)
        ensures
            b == !old(self).vue().contains(id),
            final(self).vue() == if b {
                old(self).vue().push(id)
            } else {
                old(self).vue()
            },
            !b ==> *final(self) == *old(self),
            final(self).vue().no_duplicates(),
    {
        proof {
            use_type_invariant(&*self);
        }
        if self.contains(id) {
            false
        } else {
            let mut ids = self.to_vec();
            ids.push(id);
            *self = Ensemble { ids };
            true
        }
    }

    /// Takes `id` out of the set, if it is there; says whether it was. The
    /// others keep their order.
    pub fn remove(&mut self, id: MembreID) -> (b: bool)
        ensures
            b == old(self).vue().contains(id),
            final(self).vue() == if b {
                old(self).vue().remove(old(self).vue().index_of(id))
            } else {
                old(self).vue()
            },
            !b ==> *final(self) == *old(self),
            !final(self).vue().contains(id),
            final(self).vue().no_duplicates(),
    {
        proof {
            use_type_invariant(&*self);
        }
        match self.position(id) {
            Some(i) => {
                let ghost avant = self.ids@;
                let mut ids = self.to_vec();
                let _x = ids.remove(i);
                proof {
                    let apres = ids@;
                    assert forall|a: int, b: int|
                        0 <= a < apres.len() && 0 <= b < apres.len() && a != b implies apres[a]
                        != apres[b] by {
                        let a2 = if a < i { a } else { a + 1 };
                        let b2 = if b < i { b } else { b + 1 };
                        assert(apres[a] == avant[a2] && apres[b] == avant[b2]);
                    }
                    if apres.contains(id) {
                        let a = choose|a: int| 0 <= a < apres.len() && apres[a] == id;
                        let a2 = if a < i { a } else { a + 1 };
                        assert(avant[a2] == id && avant[i as int] == id);
                    }
                }
                *self = Ensemble { ids };
                true
            },
            None => false,
        }
    }

    /// The identifiers in walking order.
    pub fn to_vec(&self) -> (v: Vec<MembreID>)
        ensures
            v@ == self.vue(),
            v@.no_duplicates(),
    {
        proof {
            use_type_invariant(self);
        }
        let mut v: Vec<MembreID> = Vec::new();
        let mut i: usize = 0;
        while i < self.ids.len()
            invariant
                i <= self.ids@.len(),
                v@ == self.ids@.take(i as int),
            decreases self.ids@.len() - i,
        {
            v.push(self.ids[i]);
            assert(self.ids@.take(i + 1) =~= self.ids@.take(i as int).push(self.ids@[i as int]));
            i += 1;
        }
        assert(self.ids@.take(i as int) =~= self.ids@);
        v
    }
}

impl Clone for Ensemble {
    fn clone(&self) -> (r: Self)
        ensures
            r.vue() == self.vue(),
    {
        Ensemble { ids: self.to_vec() }
    }
}

impl Default for Ensemble {
    /// The empty set.
    fn default() -> (e: Self)
        ensures
            e.vue() == Seq::<MembreID>::empty(),
    {
        Ensemble::new()
    }
}

} // verus!
