//! Fixed-capacity FIFO ring: pushing onto a full ring drops the oldest
//! element first, so the ring always holds the most recent values in the
//! order they arrived.

use vstd::prelude::*;

verus! {

/// What one push leaves in a ring of capacity `cap`: the value appended, and
/// the oldest element dropped first when the ring is full.
pub open spec fn ring_pushed<T>(s: Seq<T>, cap: nat, v: T) -> Seq<T> {
    if s.len() < cap {
        s.push(v)
    } else {
        s.drop_first().push(v)
    }
}

/// What a whole run of pushes leaves in the ring, oldest first.
pub open spec fn ring_pushed_all<T>(s: Seq<T>, cap: nat, vs: Seq<T>) -> Seq<T>
    decreases vs.len(),
{
    if vs.len() == 0 {
        s
    } else {
        ring_pushed(ring_pushed_all(s, cap, vs.drop_last()), cap, vs.last())
    }
}

/// Pushing a run of values onto an empty ring leaves exactly the most recent
/// `cap` of them, oldest first.
pub proof fn lemma_ring_recent<T>(cap: nat, vs: Seq<T>)
    requires
        cap >= 1,
    ensures
        ring_pushed_all(Seq::<T>::empty(), cap, vs) == (if vs.len() <= cap {
            vs
        } else {
            vs.skip(vs.len() - cap)
        }),
    decreases vs.len(),
{
    if vs.len() == 0 {
        assert(ring_pushed_all(Seq::<T>::empty(), cap, vs) =~= vs);
    } else {
        lemma_ring_recent(cap, vs.drop_last());
        let prev = ring_pushed_all(Seq::<T>::empty(), cap, vs.drop_last());
        if vs.len() <= cap {
            assert(prev == vs.drop_last());
            assert(ring_pushed(prev, cap, vs.last()) =~= vs);
        } else if vs.len() == cap + 1 {
            assert(prev == vs.drop_last());
            assert(prev.len() == cap);
            assert(ring_pushed(prev, cap, vs.last()) =~= vs.skip(vs.len() - cap));
        } else {
            assert(prev == vs.drop_last().skip(vs.len() - 1 - cap));
            assert(prev.len() == cap);
            assert(ring_pushed(prev, cap, vs.last()) =~= vs.skip(vs.len() - cap));
        }
    }
}

/// A bounded FIFO of the most recent values.
pub struct Ring<T> {
    /// Held values, oldest first.
    pub items: Vec<T>,
    /// Bound on how many values are kept; at least one.
    pub cap: usize,
}

impl<T> Ring<T> {
    /// The ring never outgrows its capacity.
    pub open spec fn wf(&self) -> bool {
        &&& self.cap >= 1
        &&& self.items@.len() <= self.cap
    }

    /// An empty ring with the given capacity.
    pub fn new(cap: usize) -> (r: Ring<T>)
        requires
            cap >= 1,
        ensures
            r.wf(),
            r.cap == cap,
            r.items@.len() == 0,
    {
        Ring { items: Vec::new(), cap }
    }

    /// How many values the ring holds.
    pub fn len(&self) -> (r: usize)
        ensures
            r == self.items@.len(),
    {
        self.items.len()
    }

    /// Appends a value, dropping the oldest one first when the ring is full.
    pub fn push(&mut self, v: T)
        requires
            old(self).wf(),
        ensures
            final(self).wf(),
            final(self).cap == old(self).cap,
            final(self).items@ == ring_pushed(old(self).items@, old(self).cap as nat, v),
    {
        if self.items.len() >= self.cap {
            let _ = self.items.remove(0);
            proof {
                assert(self.items@ =~= old(self).items@.drop_first());
            }
        }
        self.items.push(v);
    }

    /// The held values, oldest first.
    pub fn items(&self) -> (r: &Vec<T>)
        ensures
            r@ == self.items@,
    {
        &self.items
    }
}

} // verus!
