//! A hash index whose writes within a transaction are journaled, so that the
//! transaction can be rolled back to the index as it stood.
use vstd::prelude::*;
use std::collections::HashMap;
use std::hash::Hash;
use vstd::std_specs::hash::obeys_key_model;

verus! {

/// `m` with the entry of `k` put back as `o` records it.
pub open spec fn restore<K, V>(m: Map<K, V>, k: K, o: Option<V>) -> Map<K, V> {
    match o {
        Some(v) => m.insert(k, v),
        None => m.remove(k),
    }
}

/// The map that `m` was before the writes journaled in `log`.
pub open spec fn undo<K, V>(m: Map<K, V>, log: Seq<(K, Option<V>)>) -> Map<K, V>
    decreases log.len(),
{
    if log.len() == 0 {
        m
    } else {
        undo(restore(m, log.last().0, log.last().1), log.drop_last())
    }
}

/// A hash map with a journal of the prior value of each key written.
pub struct HashWrap<K, V> {
    pub map: HashMap<K, V>,
    pub log: Vec<(K, Option<V>)>,
}

impl<K, V> View for HashWrap<K, V> {
    type V = Map<K, V>;

    open spec fn view(&self) -> Map<K, V> {
        self.map@
    }
}

impl<K: Eq + Hash + Copy, V> HashWrap<K, V> {
    /// The map as it stood when the journal was last empty.
    pub open spec fn base(&self) -> Map<K, V> {
        undo(self.map@, self.log@)
    }

    pub fn new() -> (r: HashWrap<K, V>)
        ensures
            r@ == Map::<K, V>::empty(),
            r.log@.len() == 0,
    {
        HashWrap { map: HashMap::new(), log: Vec::new() }
    }

    pub fn contains_key(&self, k: &K) -> (r: bool)
        requires
            obeys_key_model::<K>(),
        ensures
            r == self@.contains_key(*k),
    {
        self.map.contains_key(k)
    }

    pub fn get(&self, k: &K) -> (r: Option<&V>)
        requires
            obeys_key_model::<K>(),
        ensures
            match r {
                Some(v) => self@.contains_key(*k) && *v == self@[*k],
                None => !self@.contains_key(*k),
            },
    {
        self.map.get(k)
    }

    /// Writes `v` at `k`, journaling the value it replaces.
    pub fn insert(&mut self, k: K, v: V)
        requires
            obeys_key_model::<K>(),
        ensures
            final(self)@ == old(self)@.insert(k, v),
            final(self).base() == old(self).base(),
    {
        let prev = self.map.insert(k, v);
        proof {
            assert(restore(self.map@, k, prev) =~= old(self).map@);
        }
        self.log.push((k, prev));
        proof {
            assert(self.log@.drop_last() =~= old(self).log@);
        }
    }

    /// Removes the entry of `k`, journaling it; says whether there was one.
    pub fn remove(&mut self, k: &K) -> (r: bool)
        requires
            obeys_key_model::<K>(),
        ensures
            final(self)@ == old(self)@.remove(*k),
            final(self).base() == old(self).base(),
            r == old(self)@.contains_key(*k),
    {
        let prev = self.map.remove(k);
        let present = prev.is_some();
        let kk = *k;
        proof {
            assert(restore(self.map@, kk, prev) =~= old(self).map@);
        }
        self.log.push((kk, prev));
        proof {
            assert(self.log@.drop_last() =~= old(self).log@);
        }
        present
    }

    /// Forgets the journal: the writes stand.
    pub fn commit(&mut self)
        ensures
            final(self)@ == old(self)@,
            final(self).log@.len() == 0,
    {
        self.log.clear();
    }

    /// Undoes every journaled write.
    pub fn rollback(&mut self)
        requires
            obeys_key_model::<K>(),
        ensures
            final(self)@ == old(self).base(),
            final(self).log@.len() == 0,
    {
        while self.log.len() > 0
            invariant
                obeys_key_model::<K>(),
                undo(self.map@, self.log@) == old(self).base(),
            decreases self.log@.len(),
        {
            let ghost pre_map = self.map@;
            let ghost pre_log = self.log@;
            let e = self.log.pop();
            match e {
                Some((k, o)) => {
                    match o {
                        Some(v) => {
                            self.map.insert(k, v);
                        },
                        None => {
                            self.map.remove(&k);
                        },
                    }
                    proof {
                        assert(self.log@ =~= pre_log.drop_last());
                        assert(self.map@ =~= restore(pre_map, k, pre_log.last().1));
                    }
                },
                None => {},
            }
        }
    }
}

} // verus!
