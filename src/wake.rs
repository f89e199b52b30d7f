//! The wake bridge's counter and how the driver's wait loop reads it.
//!
//! Writers add to the counter from any thread; the one reader drains it. The
//! counter is additive and keeps its value until drained, so a notification is
//! never lost: it is seen by the wait that is running or by the next one.

use vstd::prelude::*;

verus! {

/// The largest value the kernel's notification counter holds.
pub const WAKE_COUNTER_MAX: u64 = 0xffff_ffff_ffff_fffe;

/// Why a driver's wait returned.
#[derive(Clone, Copy, Debug, PartialEq, Eq, Structural)]
pub enum WakeReason {
    Completions,
    ExternalNotify,
    TimedOut,
}

/// The value of the counter after one more notification. At the top the
/// counter stays where it is: it already reads as a pending wake.
pub open spec fn notified(pending: nat) -> nat {
    if pending + 1 <= WAKE_COUNTER_MAX {
        pending + 1
    } else {
        WAKE_COUNTER_MAX as nat
    }
}

/// The value of the counter after `n` notifications.
pub open spec fn notified_times(pending: nat, n: nat) -> nat
    decreases n,
{
    if n == 0 {
        pending
    } else {
        notified(notified_times(pending, (n - 1) as nat))
    }
}

/// Why a wait returned, given how many completions it found and what it
/// drained from the counter: real completions first, then an external
/// notification, then the timeout.
pub open spec fn reason_of(completions: nat, drained: nat) -> WakeReason {
    if completions > 0 {
        WakeReason::Completions
    } else if drained > 0 {
        WakeReason::ExternalNotify
    } else {
        WakeReason::TimedOut
    }
}

/// The notification counter of one wake bridge, as the kernel keeps it for
/// an eventfd; a backend without such an object keeps this one instead.
pub struct WakeCounter {
    pending: u64,
}

impl View for WakeCounter {
    type V = nat;

    closed spec fn view(&self) -> nat {
        self.pending as nat
    }
}

impl WakeCounter {
    pub closed spec fn wf(&self) -> bool {
        self.pending <= WAKE_COUNTER_MAX
    }

    /// A counter with nothing pending.
    pub fn new() -> (r: Self)
        ensures
            r.wf(),
            r@ == 0,
    {
        WakeCounter { pending: 0 }
    }

    /// Records one notification.
    pub fn notify(&mut self)
        requires
            old(self).wf(),
        ensures
            final(self).wf(),
            final(self)@ == notified(old(self)@),
    {
        if self.pending < WAKE_COUNTER_MAX {
            self.pending = self.pending + 1;
        }
    }

    /// Whether a wait would return at once rather than block.
    pub fn is_ready(&self) -> (r: bool)
        ensures
            r <==> self@ > 0,
    {
        self.pending > 0
    }

    /// Takes everything pending, leaving the counter at zero.
    pub fn drain(&mut self) -> (r: u64)
        requires
            old(self).wf(),
        ensures
            final(self).wf(),
            r == old(self)@,
            final(self)@ == 0,
    {
        let r = self.pending;
        self.pending = 0;
        r
    }
}

/// Why a wait returned; see [`reason_of`].
pub fn wake_reason(completions: usize, drained: u64) -> (r: WakeReason)
    ensures
        r == reason_of(completions as nat, drained as nat),
{
    if completions > 0 {
        WakeReason::Completions
    } else if drained > 0 {
        WakeReason::ExternalNotify
    } else {
        WakeReason::TimedOut
    }
}

/// No notification is lost: after one or more notifications, whatever was
/// pending before, the next wait finds the counter nonzero, returns without
/// blocking, drains a nonzero value, and does not report a timeout.
pub proof fn lemma_no_lost_wake(pending: nat, n: nat, completions: nat)
    requires
        pending <= WAKE_COUNTER_MAX,
        n >= 1,
    ensures
        notified_times(pending, n) > 0,
        notified_times(pending, n) <= WAKE_COUNTER_MAX,
        pending + n <= WAKE_COUNTER_MAX ==> notified_times(pending, n) == pending + n,
        reason_of(completions, notified_times(pending, n)) != WakeReason::TimedOut,
    decreases n,
{
    reveal_with_fuel(notified_times, 2);
    if n > 1 {
        lemma_no_lost_wake(pending, (n - 1) as nat, completions);
    }
}

} // verus!
