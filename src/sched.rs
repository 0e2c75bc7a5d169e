//! Round-robin choice of the PD to serve on each tick.
use vstd::prelude::*;

verus! {

/// Round-robin over `nr_pds` PDs: each tick serves the PD at `cursor`.
#[derive(Clone, Copy, Debug, PartialEq, Eq)]
pub struct Scheduler {
    /// Number of PDs
    pub nr_pds: usize,
    /// The PD served on the next tick
    pub cursor: usize,
}

/// The PD served `k` ticks after the one at `start`, among `n`.
pub open spec fn served_after(start: int, k: int, n: int) -> int {
    (start + k) % n
}

impl Scheduler {
    /// A scheduler is well formed when it has a PD and its cursor is one.
    pub open spec fn wf(&self) -> bool {
        self.nr_pds >= 1 && self.cursor < self.nr_pds
    }

    /// A scheduler over `nr_pds` PDs that starts with the first.
    pub fn new(nr_pds: usize) -> (r: Self)
        requires
            nr_pds >= 1,
        ensures
            r.wf(),
            r.nr_pds == nr_pds,
            r.cursor == 0,
    {
        Scheduler { nr_pds, cursor: 0 }
    }

    /// Returns the PD to serve on this tick and moves on to the next.
    pub fn tick(&mut self) -> (r: usize)
        requires
            old(self).wf(),
        ensures
            final(self).wf(),
            final(self).nr_pds == old(self).nr_pds,
            r == old(self).cursor,
            final(self).cursor == served_after(old(self).cursor as int, 1, old(self).nr_pds as int),
    {
        let r = self.cursor;
        proof {
            let n = self.nr_pds as int;
            let c = self.cursor as int;
            if c + 1 == n {
                vstd::arithmetic::div_mod::lemma_mod_self_0(n);
            } else {
                vstd::arithmetic::div_mod::lemma_small_mod((c + 1) as nat, n as nat);
            }
        }
        self.cursor = if self.cursor + 1 == self.nr_pds {
            0
        } else {
            self.cursor + 1
        };
        r
    }
}

/// Every PD is served within `n` consecutive ticks, whatever PD the first
/// of them serves: with one tick per poll period, each of `n` PDs gets a
/// poll at least once every `n` poll periods.
pub proof fn lemma_round_robin_fair(n: int, start: int, pd: int)
    requires
        n >= 1,
        0 <= start < n,
        0 <= pd < n,
    ensures
        exists|k: int| 0 <= k < n && #[trigger] served_after(start, k, n) == pd,
{
    let k = if pd >= start {
        pd - start
    } else {
        pd - start + n
    };
    assert((start + k) % n == pd) by {
        if pd < start {
            vstd::arithmetic::div_mod::lemma_mod_add_multiples_vanish(pd, n);
        }
        vstd::arithmetic::div_mod::lemma_small_mod(pd as nat, n as nat);
    }
    assert(served_after(start, k, n) == pd);
}

} // verus!
