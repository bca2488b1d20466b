//! Bounded admission for pooled handlers.
//!
//! A pooled handler runs as an independently scheduled task; the pool
//! counts the instances in flight and refuses admission beyond its
//! fixed size, so a burst of one request kind cannot grow resource
//! use without bound. A slot is released exactly once, when the task
//! completes, and the next admission then succeeds again.

use vstd::prelude::*;

verus! {

/// How a handler binding executes.
#[derive(Clone, Copy, Debug, PartialEq, Eq, Structural)]
pub enum HandlerKind {
    /// Runs to completion before the next frame is read.
    Inline,
    /// Runs as a separately scheduled task, at most `pool_size` at
    /// once.
    Pooled { pool_size: u32 },
}

/// The admission counter of one pooled binding.
#[derive(Clone, Copy, Debug, PartialEq, Eq, Structural)]
pub struct Pool {
    /// How many instances may run at once.
    pub size: u32,
    /// How many instances run now.
    pub in_flight: u32,
}

/// A further instance may be admitted.
pub open spec fn spec_can_admit(p: Pool) -> bool {
    p.in_flight < p.size
}

/// The pool after one admission attempt: one more in flight when
/// there was room, unchanged when there was none.
pub open spec fn spec_admit(p: Pool) -> Pool {
    if p.in_flight < p.size {
        Pool { size: p.size, in_flight: (p.in_flight + 1) as u32 }
    } else {
        p
    }
}

/// The pool after one completion.
pub open spec fn spec_release(p: Pool) -> Pool {
    if p.in_flight > 0 {
        Pool { size: p.size, in_flight: (p.in_flight - 1) as u32 }
    } else {
        p
    }
}

/// The pool after `n` admission attempts.
pub open spec fn spec_admit_n(p: Pool, n: nat) -> Pool
    decreases n,
{
    if n == 0 {
        p
    } else {
        spec_admit(spec_admit_n(p, (n - 1) as nat))
    }
}

impl Pool {
    /// No more instances run than the pool admits.
    pub open spec fn wf(self) -> bool {
        self.in_flight <= self.size
    }

    /// An idle pool of `size` slots.
    pub fn new(size: u32) -> (p: Pool)
        ensures
            p.wf(),
            p.size == size,
            p.in_flight == 0,
    {
        Pool { size, in_flight: 0 }
    }

    /// Attempts to reserve a slot. Succeeds exactly when fewer than
    /// `size` instances are in flight.
    pub fn try_admit(&mut self) -> (admitted: bool)
        requires
            old(self).wf(),
        ensures
            final(self).wf(),
            admitted == spec_can_admit(*old(self)),
            *final(self) == spec_admit(*old(self)),
    {
        if self.in_flight < self.size {
            self.in_flight = self.in_flight + 1;
            true
        } else {
            false
        }
    }

    /// Returns the slot of one completed instance.
    pub fn release(&mut self)
        requires
            old(self).wf(),
            old(self).in_flight >= 1,
        ensures
            final(self).wf(),
            *final(self) == spec_release(*old(self)),
    {
        self.in_flight = self.in_flight - 1;
    }
}

/// After `n` admission attempts on an idle pool, `min(n, size)`
/// instances are in flight, and the size never changes.
pub proof fn lemma_admit_n_in_flight(size: u32, n: nat)
    ensures
        spec_admit_n(Pool { size, in_flight: 0 }, n).size == size,
        spec_admit_n(Pool { size, in_flight: 0 }, n).in_flight == if n <= size {
            n
        } else {
            size as nat
        },
    decreases n,
{
    if n > 0 {
        lemma_admit_n_in_flight(size, (n - 1) as nat);
    }
}

/// Admission bound: on an idle pool of `k` slots, each of the first
/// `k` admission attempts succeeds; the `(k+1)`-th finds the pool
/// exhausted and is rejected; and as soon as any one instance
/// completes, the next attempt succeeds again.
pub proof fn lemma_admission_bound(k: u32)
    requires
        k >= 1,
    ensures
        forall|n: nat|
            n < k ==> spec_can_admit(#[trigger] spec_admit_n(Pool { size: k, in_flight: 0 }, n)),
        !spec_can_admit(spec_admit_n(Pool { size: k, in_flight: 0 }, k as nat)),
        spec_can_admit(spec_release(spec_admit_n(Pool { size: k, in_flight: 0 }, k as nat))),
{
    assert forall|n: nat| n < k implies spec_can_admit(
        #[trigger] spec_admit_n(Pool { size: k, in_flight: 0 }, n),
    ) by {
        lemma_admit_n_in_flight(k, n);
    }
    lemma_admit_n_in_flight(k, k as nat);
}

} // verus!
