//! Allocation of fresh IDs, with snapshots that a transaction publishes back
//! only when it commits work.
use vstd::prelude::*;

verus! {

/// A counter of IDs: the next ID to be handed out.
#[derive(Debug)]
pub struct IDCounter {
    pub store: u64,
}

impl IDCounter {
    pub fn new(init: u64) -> (r: IDCounter)
        ensures
            r.store == init,
    {
        IDCounter { store: init }
    }

    /// Hands out the next ID.
    pub fn get(&mut self) -> (r: u64)
        requires
            old(self).store < u64::MAX,
        ensures
            r == old(self).store,
            final(self).store == old(self).store + 1,
    {
        let r = self.store;
        self.store = self.store + 1;
        r
    }

    /// An independent counter that starts where this one stands.
    pub fn snapshot(&self) -> (r: IDCounter)
        ensures
            r.store == self.store,
    {
        IDCounter { store: self.store }
    }
}

/// A snapshot of a counter, taken by a transaction.
#[derive(Debug)]
pub struct IDWrap {
    pub cur: IDCounter,
}

impl IDWrap {
    pub fn new(inner: &IDCounter) -> (r: IDWrap)
        ensures
            r.cur.store == inner.store,
    {
        IDWrap { cur: inner.snapshot() }
    }

    pub fn get(&mut self) -> (r: u64)
        requires
            old(self).cur.store < u64::MAX,
        ensures
            r == old(self).cur.store,
            final(self).cur.store == old(self).cur.store + 1,
    {
        self.cur.get()
    }

    /// Publishes the snapshot's position to the counter it was taken from.
    pub fn commit(self, inner: &mut IDCounter)
        ensures
            final(inner).store == self.cur.store,
    {
        inner.store = self.cur.store;
    }
}

} // verus!
