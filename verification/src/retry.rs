//! What to do when the store fails.
//!
//! A failed read or write is tried again a bounded number of times, with a
//! wait that doubles from one try to the next. A read that keeps failing is
//! given up for the cycle. A write that keeps failing is given up too, and
//! the caller reports the record so that it can be recovered by hand. Neither
//! ends the process.

use vstd::prelude::*;

verus! {

/// The decision after a failure.
#[derive(Debug, Clone, Copy, PartialEq, Eq, Structural)]
pub enum Verdict {
    /// Try again after waiting this many milliseconds.
    Retry { wait_ms: u64 },
    /// Stop trying.
    GiveUp,
}

/// How often an operation is tried, and how long the first wait is.
#[derive(Debug, Clone, Copy, PartialEq, Eq, Structural)]
pub struct RetryPolicy {
    /// The number of tries in all, the first one included.
    pub attempts: u32,
    /// The wait before the second try, in milliseconds.
    pub first_wait_ms: u64,
}

/// The wait after the given number of failures: the first wait, doubled once
/// for each failure after the first, and never more than a `u64` holds.
pub open spec fn wait_after(first_wait_ms: u64, failures: nat) -> u64
    decreases failures,
{
    if failures <= 1 {
        first_wait_ms
    } else {
        let before = wait_after(first_wait_ms, (failures - 1) as nat);
        if before + before > u64::MAX {
            u64::MAX
        } else {
            (before + before) as u64
        }
    }
}

/// The decision after the given number of failures under a policy: another
/// try as long as tries are left.
pub open spec fn verdict(policy: RetryPolicy, failures: u32) -> Verdict {
    if failures < policy.attempts {
        Verdict::Retry { wait_ms: wait_after(policy.first_wait_ms, failures as nat) }
    } else {
        Verdict::GiveUp
    }
}

impl RetryPolicy {
    /// The policy for reading pipelines and tasks: four tries, the waits
    /// between them a quarter, a half and one second, which fits into one
    /// poll interval.
    pub fn for_reads() -> (policy: Self)
        ensures
            policy == (RetryPolicy { attempts: 4, first_wait_ms: 250 }),
    {
        RetryPolicy { attempts: 4, first_wait_ms: 250 }
    }

    /// The policy for writing an execution record: three tries, the waits
    /// between them a tenth and a fifth of a second.
    pub fn for_writes() -> (policy: Self)
        ensures
            policy == (RetryPolicy { attempts: 3, first_wait_ms: 100 }),
    {
        RetryPolicy { attempts: 3, first_wait_ms: 100 }
    }

    /// Decides what follows the failure that brought the number of failed
    /// tries of one operation to `failures`.
    pub fn after_failure(&self, failures: u32) -> (decision: Verdict)
        ensures
            decision == verdict(*self, failures),
    {
        if failures >= self.attempts {
            return Verdict::GiveUp;
        }
        let mut wait_ms: u64 = self.first_wait_ms;
        let mut counted: u32 = 1;
        while counted < failures
            invariant
                1 <= counted,
                counted <= failures || (failures == 0 && counted == 1),
                wait_ms == wait_after(self.first_wait_ms, counted as nat),
            decreases failures - counted,
        {
            wait_ms = wait_ms.saturating_add(wait_ms);
            counted += 1;
        }
        assert(wait_after(self.first_wait_ms, 0) == wait_after(self.first_wait_ms, 1));
        Verdict::Retry { wait_ms }
    }
}

/// A policy never asks for more tries than it allows: once the failures
/// reach the number of tries, the decision is to give up, and it stays so.
pub proof fn retries_are_bounded(policy: RetryPolicy, failures: u32)
    requires
        failures >= policy.attempts,
    ensures
        verdict(policy, failures) == Verdict::GiveUp,
{
}

} // verus!
