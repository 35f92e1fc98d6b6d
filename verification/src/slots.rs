//! The bounded reserve-or-fail counter behind both concurrency caps: at
//! most two bundling workers and at most two downloads run at once, and a
//! request past the cap fails immediately instead of queueing.

use vstd::prelude::*;

verus! {

/// A bounded counting semaphore: `in_flight` slots of `cap` are taken.
/// Reservation never blocks; it fails when the cap is reached, and every
/// worker releases its slot exactly once on any exit path.
pub struct SlotCounter {
    pub in_flight: u32,
    pub cap: u32,
}

/// What a reservation attempt does to the counter and whether it succeeds.
pub open spec fn spec_try_reserve(s: SlotCounter) -> (SlotCounter, bool) {
    if s.in_flight < s.cap {
        (SlotCounter { in_flight: (s.in_flight + 1) as u32, cap: s.cap }, true)
    } else {
        (s, false)
    }
}

/// What a release does to the counter: one slot comes back, and a release
/// with nothing in flight changes nothing.
pub open spec fn spec_release(s: SlotCounter) -> SlotCounter {
    if s.in_flight > 0 {
        SlotCounter { in_flight: (s.in_flight - 1) as u32, cap: s.cap }
    } else {
        s
    }
}

impl SlotCounter {
    /// The counter never holds more than its cap.
    pub open spec fn wf(&self) -> bool {
        self.in_flight <= self.cap
    }

    /// A fresh counter with the given capacity and nothing in flight.
    pub fn new(cap: u32) -> (r: SlotCounter)
        ensures
            r.wf(),
            r.in_flight == 0,
            r.cap == cap,
    {
        SlotCounter { in_flight: 0, cap }
    }

    /// Reserve a slot, or fail immediately when all are taken.
    pub fn try_reserve(&mut self) -> (ok: bool)
        requires
            old(self).wf(),
        ensures
            final(self).wf(),
            (*final(self), ok) == spec_try_reserve(*old(self)),
            ok == (old(self).in_flight < old(self).cap),
    {
        if self.in_flight < self.cap {
            self.in_flight = self.in_flight + 1;
            true
        } else {
            false
        }
    }

    /// Release a slot; releasing with nothing in flight changes nothing.
    pub fn release(&mut self)
        requires
            old(self).wf(),
        ensures
            final(self).wf(),
            *final(self) == spec_release(*old(self)),
    {
        if self.in_flight > 0 {
            self.in_flight = self.in_flight - 1;
        }
    }
}

/// With every slot taken, one more reservation fails at once and leaves
/// the counter untouched; releasing a slot makes the next reservation
/// succeed again.
pub proof fn lemma_saturated_then_release(s: SlotCounter)
    requires
        s.wf(),
        s.cap > 0,
        s.in_flight == s.cap,
    ensures
        !spec_try_reserve(s).1,
        spec_try_reserve(s).0 == s,
        spec_try_reserve(spec_release(s)).1,
        spec_try_reserve(spec_release(s)).0.in_flight == s.cap,
{
}

/// Reservations and releases keep the counter within its cap, however
/// they interleave.
pub proof fn lemma_cap_is_invariant(s: SlotCounter)
    requires
        s.wf(),
    ensures
        spec_try_reserve(s).0.wf(),
        spec_release(s).wf(),
        spec_try_reserve(s).0.in_flight <= s.cap,
        spec_release(s).in_flight <= s.cap,
{
}

} // verus!
