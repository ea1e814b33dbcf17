//! The lockdown scheduler: a monotone cursor over ordered lockdown windows.
//! On each day it selects the mobility regime (0 normal, 1 lockdown) by the
//! window under the cursor, and advances the cursor once a window has passed.

use vstd::prelude::*;

verus! {

/// A stateful cursor over (start, end) day windows, supplied sorted and
/// non-overlapping; the scheduler does not sort them.
pub struct LockdownScheduler {
    starts: Vec<u32>,
    ends: Vec<u32>,
    cursor: usize,
}

impl LockdownScheduler {
    pub closed spec fn starts(self) -> Seq<u32> {
        self.starts@
    }

    pub closed spec fn ends(self) -> Seq<u32> {
        self.ends@
    }

    pub closed spec fn cursor(self) -> int {
        self.cursor as int
    }

    /// As many ends as starts, at least one window, windows ordered and
    /// non-overlapping, cursor on a real window.
    pub open spec fn wf(self) -> bool {
        &&& self.starts().len() == self.ends().len()
        &&& self.starts().len() >= 1
        &&& forall|i: int| 0 <= i < self.starts().len() ==> self.starts()[i] <= self.ends()[i]
        &&& forall|i: int|
            0 <= i < self.starts().len() - 1 ==> self.ends()[i] <= self.starts()[i + 1]
        &&& 0 <= self.cursor() < self.starts().len()
    }

    pub fn new(starts: Vec<u32>, ends: Vec<u32>) -> (s: LockdownScheduler)
        requires
            starts@.len() == ends@.len(),
            starts@.len() >= 1,
            forall|i: int| 0 <= i < starts@.len() ==> starts@[i] <= ends@[i],
            forall|i: int| 0 <= i < starts@.len() - 1 ==> ends@[i] <= starts@[i + 1],
        ensures
            s.wf(),
            s.starts() == starts@,
            s.ends() == ends@,
            s.cursor() == 0,
    {
        LockdownScheduler { starts, ends, cursor: 0 }
    }

    /// The regime this scheduler selects for `day`: 1 exactly when `day`
    /// lies inside the window under the cursor.
    pub open spec fn spec_regime(self, day: u32) -> int {
        if self.starts()[self.cursor()] <= day < self.ends()[self.cursor()] {
            1
        } else {
            0
        }
    }

    /// The regime for `day`: 1 exactly when `day` lies inside the window
    /// under the cursor; otherwise 0, advancing the cursor when the window
    /// has already passed and another remains.
    pub fn regime(&mut self, day: u32) -> (r: usize)
        requires
            old(self).wf(),
        ensures
            final(self).wf(),
            final(self).starts() == old(self).starts(),
            final(self).ends() == old(self).ends(),
            r <= 1,
            r as int == old(self).spec_regime(day),
            (r == 1) == (old(self).starts()[old(self).cursor()] <= day
                < old(self).ends()[old(self).cursor()]),
            final(self).cursor() == if r == 0 && day >= old(self).ends()[old(self).cursor()]
                && old(self).cursor() + 1 < old(self).starts().len() {
                old(self).cursor() + 1
            } else {
                old(self).cursor()
            },
    {
        let ix = self.cursor;
        let n = self.starts.len();
        assert(ix < n);
        if day >= self.starts[ix] && day < self.ends[ix] {
            1
        } else {
            if day >= self.ends[ix] && ix + 1 < n {
                self.cursor = ix + 1;
            }
            0
        }
    }
}

} // verus!
