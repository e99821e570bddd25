//! The admission signal: a count of work items that are known to be
//! available and not yet claimed by a woken worker.

use vstd::prelude::*;

verus! {

pub struct AdmissionSignal {
    count: u64,
}

impl AdmissionSignal {
    pub closed spec fn count(&self) -> nat {
        self.count as nat
    }

    pub fn new() -> (r: AdmissionSignal)
        ensures
            r.count() == 0,
    {
        AdmissionSignal { count: 0 }
    }

    /// The current count.
    pub fn available(&self) -> (r: u64)
        ensures
            r == self.count(),
    {
        self.count
    }

    /// Announces one more available item. A count at its largest value stays
    /// there: a woken worker drains the whole queue, so no item waits on it.
    pub fn release(&mut self)
        ensures
            old(self).count() < u64::MAX ==> final(self).count() == old(self).count() + 1,
            old(self).count() == u64::MAX ==> final(self).count() == old(self).count(),
    {
        if self.count < u64::MAX {
            self.count = self.count + 1;
        }
    }

    /// Takes one announcement if there is any; reports whether it did.
    pub fn try_acquire(&mut self) -> (r: bool)
        ensures
            r == (old(self).count() > 0),
            r ==> final(self).count() == old(self).count() - 1,
            !r ==> final(self).count() == old(self).count(),
    {
        if self.count > 0 {
            self.count = self.count - 1;
            true
        } else {
            false
        }
    }
}

} // verus!
