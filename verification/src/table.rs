//! The worker handle table: the orchestrator's map from store identifier to
//! the handle of that store's running worker.

use vstd::prelude::*;

verus! {

/// An association list from store identifier to worker handle, with unique
/// keys.  The orchestrator owns exactly one entry per running worker.
pub struct HandleTable<H> {
    entries: Vec<(u64, H)>,
}

impl<H> View for HandleTable<H> {
    type V = Map<u64, H>;

    closed spec fn view(&self) -> Map<u64, H> {
        Self::entries_map(self.entries@)
    }
}

impl<H> HandleTable<H> {
    /// The map an entry sequence denotes; a later entry would win, but the
    /// table never holds two entries with one key.
    pub closed spec fn entries_map(s: Seq<(u64, H)>) -> Map<u64, H>
        decreases s.len(),
    {
        if s.len() == 0 {
            Map::empty()
        } else {
            Self::entries_map(s.drop_last()).insert(s.last().0, s.last().1)
        }
    }

    /// The table's keys are unique.
    pub closed spec fn wf(&self) -> bool {
        forall|i: int, j: int|
            0 <= i < j < self.entries@.len() ==> self.entries@[i].0 != self.entries@[j].0
    }

    /// The domain of the denoted map is exactly the set of keys.
    proof fn lemma_entries_map_dom(s: Seq<(u64, H)>)
        ensures
            forall|id: u64| #[trigger]
                Self::entries_map(s).contains_key(id) <==> exists|i: int|
                    0 <= i < s.len() && (#[trigger] s[i]).0 == id,
        decreases s.len(),
    {
        if s.len() > 0 {
            Self::lemma_entries_map_dom(s.drop_last());
            assert forall|id: u64| #[trigger]
                Self::entries_map(s).contains_key(id) implies exists|i: int|
                0 <= i < s.len() && (#[trigger] s[i]).0 == id by {
                if id == s.last().0 {
                    assert(s[s.len() - 1].0 == id);
                } else {
                    assert(Self::entries_map(s.drop_last()).contains_key(id));
                    let i = choose|i: int| 0 <= i < s.drop_last().len() && (#[trigger] s.drop_last()[i]).0 == id;
                    assert(s.drop_last()[i] == s[i]);
                    assert(s[i].0 == id);
                }
            }
            assert forall|id: u64|
                (exists|i: int| 0 <= i < s.len() && (#[trigger] s[i]).0 == id) implies #[trigger]
                Self::entries_map(s).contains_key(id) by {
                let i = choose|i: int| 0 <= i < s.len() && (#[trigger] s[i]).0 == id;
                if i < s.len() - 1 {
                    assert(s.drop_last()[i] == s[i]);
                    assert(s.drop_last()[i].0 == id);
                    assert(Self::entries_map(s.drop_last()).contains_key(id));
                }
            }
        }
    }

    /// An empty table.
    pub fn new() -> (r: Self)
        ensures
            r.wf(),
            r@ == Map::<u64, H>::empty(),
    {
        HandleTable { entries: Vec::new() }
    }

    /// Whether a worker handle is recorded under this store identifier.
    pub fn contains(&self, store_id: u64) -> (r: bool)
        requires
            self.wf(),
        ensures
            r == self@.contains_key(store_id),
    {
        proof {
            Self::lemma_entries_map_dom(self.entries@);
        }
        let mut i: usize = 0;
        while i < self.entries.len()
            invariant
                0 <= i <= self.entries@.len(),
                forall|k: int| 0 <= k < i ==> (#[trigger] self.entries@[k]).0 != store_id,
            decreases self.entries@.len() - i,
        {
            if self.entries[i].0 == store_id {
                proof {
                    Self::lemma_entries_map_dom(self.entries@);
                    assert(self.entries@[i as int].0 == store_id);
                }
                return true;
            }
            i += 1;
        }
        false
    }

    /// Record a worker handle under a store identifier not yet present.
    pub fn insert(&mut self, store_id: u64, handle: H)
        requires
            old(self).wf(),
            !old(self)@.contains_key(store_id),
        ensures
            final(self).wf(),
            final(self)@ == old(self)@.insert(store_id, handle),
    {
        proof {
            Self::lemma_entries_map_dom(self.entries@);
        }
        self.entries.push((store_id, handle));
        proof {
            assert(self.entries@.drop_last() =~= old(self).entries@);
            assert forall|i: int, j: int|
                0 <= i < j < self.entries@.len() implies self.entries@[i].0
                != self.entries@[j].0 by {
                if j == self.entries@.len() - 1 {
                    assert(old(self).entries@[i].0 == self.entries@[i].0);
                }
            }
        }
    }

    /// Remove and return the handle recorded under a store identifier, if
    /// any.
    pub fn remove(&mut self, store_id: u64) -> (r: Option<H>)
        requires
            old(self).wf(),
        ensures
            final(self).wf(),
            (r is Some <==> old(self)@.contains_key(store_id)),
            final(self)@ == old(self)@.remove(store_id),
    {
        proof {
            Self::lemma_entries_map_dom(self.entries@);
        }
        let mut i: usize = 0;
        while i < self.entries.len()
            invariant
                0 <= i <= self.entries@.len(),
                old(self).wf(),
                self.entries@ == old(self).entries@,
                forall|k: int| 0 <= k < i ==> (#[trigger] self.entries@[k]).0 != store_id,
            decreases self.entries@.len() - i,
        {
            if self.entries[i].0 == store_id {
                proof {
                    Self::lemma_entries_map_dom(old(self).entries@);
                    assert(self.entries@[i as int].0 == store_id);
                }
                let (_, h) = self.entries.remove(i);
                proof {
                    Self::lemma_remove_entry(old(self).entries@, i as int);
                    assert(self@ =~= old(self)@.remove(store_id));
                }
                return Some(h);
            }
            i += 1;
        }
        proof {
            assert(self@ =~= old(self)@.remove(store_id));
        }
        None
    }

    /// Removing the entry at position `i` of a unique-keyed sequence
    /// removes exactly its key from the denoted map.
    proof fn lemma_remove_entry(s: Seq<(u64, H)>, i: int)
        requires
            0 <= i < s.len(),
            forall|p: int, q: int| 0 <= p < q < s.len() ==> s[p].0 != s[q].0,
        ensures
            forall|p: int, q: int|
                0 <= p < q < s.remove(i).len() ==> s.remove(i)[p].0 != s.remove(i)[q].0,
            Self::entries_map(s.remove(i)) == Self::entries_map(s).remove(s[i].0),
        decreases s.len(),
    {
        Self::lemma_entries_map_dom(s);
        Self::lemma_entries_map_dom(s.remove(i));
        if i == s.len() - 1 {
            assert(s.remove(i) =~= s.drop_last());
            assert(Self::entries_map(s) == Self::entries_map(s.drop_last()).insert(
                s.last().0,
                s.last().1,
            ));
            assert(!Self::entries_map(s.drop_last()).contains_key(s.last().0)) by {
                Self::lemma_entries_map_dom(s.drop_last());
            }
            assert(Self::entries_map(s.remove(i)) =~= Self::entries_map(s).remove(s[i].0));
        } else {
            Self::lemma_remove_entry(s.drop_last(), i);
            assert(s.remove(i).drop_last() =~= s.drop_last().remove(i));
            assert(s.remove(i).last() == s.last());
            assert(Self::entries_map(s.remove(i)) == Self::entries_map(
                s.drop_last().remove(i),
            ).insert(s.last().0, s.last().1));
            assert(Self::entries_map(s.remove(i)) =~= Self::entries_map(s).remove(s[i].0));
        }
    }

    /// The store identifiers currently recorded, each exactly once.
    pub fn ids(&self) -> (r: Vec<u64>)
        requires
            self.wf(),
        ensures
            r@.no_duplicates(),
            r@.len() == self@.dom().len(),
            forall|id: u64| #[trigger] r@.contains(id) <==> self@.contains_key(id),
    {
        proof {
            Self::lemma_entries_map_dom(self.entries@);
            Self::lemma_dom_len(self.entries@);
        }
        let mut r: Vec<u64> = Vec::new();
        let mut i: usize = 0;
        while i < self.entries.len()
            invariant
                0 <= i <= self.entries@.len(),
                r@.len() == i,
                forall|k: int| 0 <= k < i ==> r@[k] == (#[trigger] self.entries@[k]).0,
                self.wf(),
            decreases self.entries@.len() - i,
        {
            r.push(self.entries[i].0);
            i += 1;
        }
        proof {
            assert forall|p: int, q: int| 0 <= p < q < r@.len() implies r@[p] != r@[q] by {
                assert(r@[p] == self.entries@[p].0);
                assert(r@[q] == self.entries@[q].0);
            }
            assert forall|id: u64| #[trigger] r@.contains(id) implies self@.contains_key(id) by {
                let k = choose|k: int| 0 <= k < r@.len() && r@[k] == id;
                assert(self.entries@[k].0 == id);
            }
            assert forall|id: u64| self@.contains_key(id) implies #[trigger] r@.contains(id) by {
                let k = choose|k: int| 0 <= k < self.entries@.len() && (#[trigger] self.entries@[k]).0 == id;
                assert(r@[k] == id);
            }
        }
        r
    }

    /// With unique keys, the denoted map has exactly one entry per element.
    proof fn lemma_dom_len(s: Seq<(u64, H)>)
        requires
            forall|p: int, q: int| 0 <= p < q < s.len() ==> s[p].0 != s[q].0,
        ensures
            Self::entries_map(s).dom().finite(),
            Self::entries_map(s).dom().len() == s.len(),
        decreases s.len(),
    {
        if s.len() > 0 {
            Self::lemma_dom_len(s.drop_last());
            Self::lemma_entries_map_dom(s.drop_last());
            assert(!Self::entries_map(s.drop_last()).contains_key(s.last().0));
        }
    }
}

} // verus!
