//! A map from surface ids to small values that can be walked in insertion order.
use std::collections::HashMap;
use vstd::prelude::*;

verus! {

/// What the compositor knows of each surface, keyed by the id of its root
/// surface. The ids are also kept in the order in which they came in, each once,
/// so that walking the map takes the same course every time.
#[derive(Debug)]
pub struct SurfaceMap<V> {
    values: HashMap<u64, V>,
    ids: Vec<u64>,
}

impl<V> View for SurfaceMap<V> {
    type V = Map<u64, V>;

    closed spec fn view(&self) -> Map<u64, V> {
        self.values@
    }
}

impl<V: Copy> SurfaceMap<V> {
    /// The ids that are listed are those of the map, each once.
    pub closed spec fn wf(&self) -> bool {
        &&& self.ids@.no_duplicates()
        &&& forall|id: u64| #[trigger] self.ids@.contains(id) <==> self.values@.dom().contains(id)
    }

    /// The ids of the map in the order in which they came in.
    pub closed spec fn order(&self) -> Seq<u64> {
        self.ids@
    }

    /// The order lists each id of the map, and nothing else, once.
    pub proof fn order_lists_the_map(&self)
        requires
            self.wf(),
        ensures
            self.order().no_duplicates(),
            forall|id: u64| #[trigger] self.order().contains(id) <==> self@.dom().contains(id),
    {
    }

    pub fn new() -> (r: Self)
        ensures
            r.wf(),
            r@ == Map::<u64, V>::empty(),
            r.order() == Seq::<u64>::empty(),
    {
        SurfaceMap { values: HashMap::new(), ids: Vec::new() }
    }

    pub fn len(&self) -> (r: usize)
        requires
            self.wf(),
        ensures
            r == self.order().len(),
    {
        self.ids.len()
    }

    pub fn is_empty(&self) -> (r: bool)
        requires
            self.wf(),
        ensures
            r == (self@ == Map::<u64, V>::empty()),
    {
        let r = self.ids.len() == 0;
        proof {
            if r {
                assert forall|id: u64| !self@.dom().contains(id) by {
                    assert(!self.ids@.contains(id));
                }
                assert(self@ =~= Map::<u64, V>::empty());
            } else {
                assert(self.ids@.contains(self.ids@[0]));
                assert(self@.dom().contains(self.ids@[0]));
            }
        }
        r
    }

    /// The ids of the map in the order in which they came in.
    pub fn ids(&self) -> (r: Vec<u64>)
        requires
            self.wf(),
        ensures
            r@ == self.order(),
    {
        let mut r: Vec<u64> = Vec::new();
        let mut i: usize = 0;
        while i < self.ids.len()
            invariant
                i <= self.ids.len(),
                r@ == self.ids@.subrange(0, i as int),
            decreases self.ids.len() - i,
        {
            r.push(self.ids[i]);
            proof {
                assert(self.ids@.subrange(0, i + 1) =~= self.ids@.subrange(0, i as int).push(
                    self.ids@[i as int],
                ));
            }
            i = i + 1;
        }
        proof {
            assert(self.ids@.subrange(0, i as int) =~= self.ids@);
        }
        r
    }

    pub fn contains(&self, id: u64) -> (r: bool)
        requires
            self.wf(),
        ensures
            r == self@.dom().contains(id),
    {
        self.values.contains_key(&id)
    }

    pub fn get(&self, id: u64) -> (r: Option<V>)
        requires
            self.wf(),
        ensures
            r == if self@.dom().contains(id) {
                Some(self@[id])
            } else {
                None
            },
    {
        match self.values.get(&id) {
            Some(value) => Some(*value),
            None => None,
        }
    }

    pub fn insert(&mut self, id: u64, value: V)
        requires
            old(self).wf(),
        ensures
            final(self).wf(),
            final(self)@ == old(self)@.insert(id, value),
            final(self).order() == if old(self)@.dom().contains(id) {
                old(self).order()
            } else {
                old(self).order().push(id)
            },
    {
        let ghost ids = self.ids@;
        if self.values.insert(id, value).is_none() {
            self.ids.push(id);
            proof {
                assert forall|k: u64| #[trigger] self.ids@.contains(k) <==> ids.contains(k) || k
                    == id by {
                    assert(self.ids@[ids.len() as int] == id);
                    if ids.contains(k) {
                        assert(self.ids@[ids.index_of(k)] == k);
                    }
                    if self.ids@.contains(k) && k != id {
                        assert(ids[self.ids@.index_of(k)] == k);
                    }
                }
                assert(!ids.contains(id));
                assert(self.ids@.no_duplicates());
            }
        }
    }

    /// Remove `id`; the result says whether it was there.
    pub fn remove(&mut self, id: u64) -> (r: bool)
        requires
            old(self).wf(),
        ensures
            final(self).wf(),
            r == old(self)@.dom().contains(id),
            final(self)@ == old(self)@.remove(id),
            final(self).order() == if r {
                old(self).order().remove(old(self).order().index_of(id))
            } else {
                old(self).order()
            },
    {
        let ghost ids = self.ids@;
        let ghost values = self.values@;
        if self.values.remove(&id).is_none() {
            proof {
                assert(values.remove(id) =~= values);
            }
            return false;
        }
        proof {
            assert(ids.contains(id));
        }
        let mut i: usize = 0;
        while self.ids[i] != id
            invariant
                self.ids@ == ids,
                ids.contains(id),
                i < self.ids.len(),
                forall|k: int| 0 <= k < i ==> ids[k] != id,
            decreases ids.len() - i,
        {
            proof {
                assert(ids[ids.index_of(id)] == id);
            }
            i = i + 1;
        }
        let _ = self.ids.remove(i);
        proof {
            assert(ids[ids.index_of(id)] == id);
            assert(ids.index_of(id) == i);
            lemma_remove(ids, i as int);
        }
        true
    }
}

proof fn lemma_remove(ids: Seq<u64>, i: int)
    requires
        ids.no_duplicates(),
        0 <= i < ids.len(),
    ensures
        ids.remove(i).no_duplicates(),
        forall|k: u64| #[trigger] ids.remove(i).contains(k) <==> ids.contains(k) && k != ids[i],
{
    let left = ids.remove(i);
    assert forall|k: u64| #[trigger] left.contains(k) <==> ids.contains(k) && k != ids[i] by {
        if left.contains(k) {
            let j = left.index_of(k);
            assert(left[j] == k);
            assert(ids[if j < i { j } else { j + 1 }] == k);
        }
        if ids.contains(k) && k != ids[i] {
            let j = ids.index_of(k);
            assert(ids[j] == k);
            assert(left[if j < i { j } else { j - 1 }] == k);
        }
    }
    assert forall|a: int, b: int| 0 <= a < left.len() && 0 <= b < left.len() && a != b implies left[a]
        != left[b] by {
        let a2 = if a < i { a } else { a + 1 };
        let b2 = if b < i { b } else { b + 1 };
        assert(ids[a2] != ids[b2]);
    }
}

} // verus!
