//! A one-shot deadline.  Time is a caller-supplied monotonic clock in
//! milliseconds; the engine never reads a clock itself.

use vstd::prelude::*;

verus! {

/// An optional deadline.  `check` passes while the deadline is unset or
/// still in the future.
pub struct Timeout {
    deadline: Option<u64>,
}

impl View for Timeout {
    type V = Option<u64>;

    closed spec fn view(&self) -> Option<u64> {
        self.deadline
    }
}

impl Timeout {
    /// A timeout with no deadline set.
    pub fn new() -> (t: Timeout)
        ensures
            t@ == None::<u64>,
    {
        Timeout { deadline: None }
    }

    /// Record a deadline `duration` milliseconds from `now`.
    pub fn set(&mut self, now: u64, duration: u64)
        requires
            now + duration <= u64::MAX,
        ensures
            final(self)@ == Some((now + duration) as u64),
    {
        self.deadline = Some(now + duration);
    }

    /// Unset the deadline.
    pub fn clear(&mut self)
        ensures
            final(self)@ == None::<u64>,
    {
        self.deadline = None;
    }

    /// True iff the deadline is unset or has not passed yet.
    pub fn check(&self, now: u64) -> (ok: bool)
        ensures
            ok == self.spec_check(now),
    {
        match self.deadline {
            None => true,
            Some(deadline) => now < deadline,
        }
    }

    /// What `check` returns: no deadline, or `now` before it.
    pub open spec fn spec_check(&self, now: u64) -> bool {
        match self@ {
            None => true,
            Some(deadline) => now < deadline,
        }
    }
}

} // verus!
