//! Bounded per-metric sample queue: the shared shape of every telemetry
//! history. One sample is appended per tick; the oldest is evicted once the
//! capacity is reached, so the length never exceeds the capacity.

use vstd::prelude::*;

verus! {

pub struct RingHistory<T> {
    data: Vec<T>,
    cap: usize,
}

impl<T> View for RingHistory<T> {
    type V = Seq<T>;

    closed spec fn view(&self) -> Seq<T> {
        self.data@
    }
}

impl<T: Copy> RingHistory<T> {
    /// Capacity of the queue: the number of most recent samples retained.
    pub closed spec fn cap(&self) -> nat {
        self.cap as nat
    }

    /// Well-formed: never longer than its (non-zero) capacity.
    pub open spec fn wf(&self) -> bool {
        1 <= self.cap() && self@.len() <= self.cap()
    }

    pub fn new(cap: usize) -> (r: RingHistory<T>)
        requires
            cap >= 1,
        ensures
            r@ == Seq::<T>::empty(),
            r.cap() == cap,
            r.wf(),
    {
        RingHistory { data: Vec::new(), cap }
    }

    /// Appends one sample, evicting the oldest one when the queue is full.
    pub fn push(&mut self, v: T)
        requires
            old(self).wf(),
        ensures
            final(self).wf(),
            final(self).cap() == old(self).cap(),
            old(self)@.len() < old(self).cap() ==> final(self)@ == old(self)@.push(v),
            old(self)@.len() == old(self).cap() ==> final(self)@ == old(self)@.skip(1).push(v),
            final(self)@.len() >= 1,
            final(self)@.last() == v,
    {
        if self.data.len() == self.cap {
            self.data.remove(0);
            assert(self.data@ =~= old(self)@.skip(1));
        }
        self.data.push(v);
    }

    pub fn len(&self) -> (r: usize)
        ensures
            r == self@.len(),
    {
        self.data.len()
    }

    pub fn capacity(&self) -> (r: usize)
        ensures
            r == self.cap(),
    {
        self.cap
    }

    /// Latest sample; every listed entity has at least one sample in each of
    /// its histories, so readers default to this value.
    pub fn last(&self) -> (r: T)
        requires
            self@.len() >= 1,
        ensures
            r == self@.last(),
    {
        self.data[self.data.len() - 1]
    }

    /// The retained samples, oldest first.
    pub fn samples(&self) -> (r: &Vec<T>)
        ensures
            r@ == self@,
    {
        &self.data
    }
}

} // verus!
