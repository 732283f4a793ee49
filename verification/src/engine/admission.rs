//! Admission of requests to the one compute device.
//!
//! Requests wait in a queue for the device. A gauge counts those that wait or
//! run; beyond a configured depth a request is refused.

use vstd::prelude::*;

verus! {

/// The outcome of an admission.
#[derive(Clone, Copy, Debug, PartialEq, Eq, Structural)]
pub enum Admission {
    Admitted {
        /// Requests that wait or run, this one included.
        depth: u64,
        /// Milliseconds that the request waited.
        wait_ms: u64,
    },
    QueueFull,
}

/// No request is let in at this depth. Zero stands for no bound.
pub open spec fn is_full(pending: nat, max_queue_depth: nat) -> bool {
    max_queue_depth > 0 && pending >= max_queue_depth
}

/// Whether a request is refused at this depth. Zero stands for no bound.
pub fn queue_full(pending: usize, max_queue_depth: usize) -> (r: bool)
    ensures
        r == is_full(pending as nat, max_queue_depth as nat),
{
    max_queue_depth > 0 && pending >= max_queue_depth
}

/// The gauge when a request has left; it never goes below zero.
pub open spec fn left(pending: nat) -> nat {
    if pending == 0 {
        0
    } else {
        (pending - 1) as nat
    }
}

/// The gauge after an admission attempt.
pub open spec fn after_admission(pending: nat, max_queue_depth: nat, granted: bool) -> nat {
    if is_full(pending, max_queue_depth) || !granted {
        pending
    } else {
        pending + 1
    }
}

/// The gauge when a request has left; it never goes below zero.
pub fn after_leave(pending: usize) -> (r: usize)
    ensures
        r == left(pending as nat),
{
    if pending == 0 {
        0
    } else {
        pending - 1
    }
}

/// The gauge of requests that wait or run.
#[derive(Debug)]
pub struct AdmissionGauge {
    pending: usize,
}

impl View for AdmissionGauge {
    type V = nat;

    closed spec fn view(&self) -> nat {
        self.pending as nat
    }
}

impl AdmissionGauge {
    /// A gauge that stands at `pending`.
    pub fn new(pending: usize) -> (r: Self)
        ensures
            r@ == pending,
    {
        AdmissionGauge { pending }
    }

    /// Requests that wait or run.
    pub fn pending(&self) -> (r: usize)
        ensures
            r == self@,
    {
        self.pending
    }

    /// Admits a request. `permit` is what waiting for the device gave: the
    /// milliseconds waited, or `None` where the queue was closed. A refused
    /// request leaves the gauge as it was; an admitted one is counted until it
    /// leaves.
    pub fn admit_request(&mut self, max_queue_depth: usize, permit: Option<u64>) -> (r: Admission)
        requires
            old(self)@ < usize::MAX,
        ensures
            final(self)@ == after_admission(old(self)@, max_queue_depth as nat, permit is Some),
            r == match permit {
                Some(wait_ms) if !is_full(old(self)@, max_queue_depth as nat) => (
                Admission::Admitted { depth: (old(self)@ + 1) as u64, wait_ms }),
                _ => Admission::QueueFull,
            },
    {
        if queue_full(self.pending, max_queue_depth) {
            return Admission::QueueFull;
        }
        self.pending = self.pending + 1;
        match permit {
            Some(wait_ms) => Admission::Admitted { depth: self.pending as u64, wait_ms },
            None => {
                self.pending = self.pending - 1;
                Admission::QueueFull
            },
        }
    }

    /// A request has left.
    pub fn leave(&mut self)
        ensures
            final(self)@ == left(old(self)@),
    {
        self.pending = after_leave(self.pending);
    }
}

/// A bounded queue never holds more than its bound.
pub proof fn law_queue_is_bounded(pending: nat, max_queue_depth: nat, granted: bool)
    requires
        max_queue_depth > 0,
        pending <= max_queue_depth,
    ensures
        after_admission(pending, max_queue_depth, granted) <= max_queue_depth,
{
}

/// An unbounded queue refuses nobody.
pub proof fn law_zero_is_unbounded(pending: nat)
    ensures
        !is_full(pending, 0),
{
}

/// A request that was admitted and has left leaves the gauge as it found it.
pub proof fn law_admission_balances(pending: nat, max_queue_depth: nat)
    requires
        !is_full(pending, max_queue_depth),
    ensures
        left(after_admission(pending, max_queue_depth, true)) == pending,
{
}

/// A request that is granted the device is counted and learns how deep the queue is,
/// itself included, and how long it waited; a full or closed queue counts nothing. One
/// that leaves is counted off, as long as there is one.
pub proof fn law_gauge_counts_the_admitted(
    g: &mut AdmissionGauge,
    max_queue_depth: usize,
    permit: Option<u64>,
    r: Admission,
    h: &mut AdmissionGauge,
)
    requires
        call_ensures(AdmissionGauge::admit_request, (g, max_queue_depth, permit), r),
        old(g)@ < usize::MAX,
        call_ensures(AdmissionGauge::leave, (h,), ()),
    ensures
        permit is Some && (max_queue_depth == 0 || old(g)@ < max_queue_depth) ==> (
        r matches Admission::Admitted { depth, wait_ms } && depth == old(g)@ + 1 && Some(wait_ms)
            == permit && final(g)@ == old(g)@ + 1),
        permit is None || (max_queue_depth > 0 && old(g)@ >= max_queue_depth) ==> r
            == Admission::QueueFull && final(g)@ == old(g)@,
        old(h)@ > 0 ==> final(h)@ == old(h)@ - 1,
        old(h)@ == 0 ==> final(h)@ == 0,
{
}

/// A queue with a bound is full at its bound; one without is never full.
pub proof fn law_full_at_the_bound(pending: usize, max_queue_depth: usize, r: bool, left: usize, n: usize)
    requires
        call_ensures(queue_full, (pending, max_queue_depth), r),
        call_ensures(after_leave, (n,), left),
    ensures
        max_queue_depth == 0 ==> !r,
        max_queue_depth > 0 ==> r == (pending >= max_queue_depth),
        n > 0 ==> left == n - 1,
        n == 0 ==> left == 0,
{
}

} // verus!
