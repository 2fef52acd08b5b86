//! Limits how often listeners are told that something changed.

use vstd::prelude::*;

verus! {

/// What to do about a change.
#[derive(Debug, Clone, Copy, PartialEq, Eq, Structural)]
pub enum EmitPlan {
    /// Tell the listeners now.
    Now,
    /// Wait this many milliseconds, call [`EmitGate::fired`], then tell the listeners.
    After(u64),
    /// A waiting notice covers the change.
    Covered,
}

/// When the listeners were last told, and whether a notice is waiting.
#[derive(Debug, Clone, Copy, PartialEq, Eq, Structural)]
pub struct EmitGate {
    pub last_ms: u64,
    pub pending: bool,
}

/// The milliseconds from `last` to `now`; 0 where the clock went back.
pub open spec fn elapsed(last: u64, now: u64) -> int {
    if now >= last {
        now - last
    } else {
        0
    }
}

impl EmitGate {
    /// A gate that has not let anything through.
    pub fn new() -> (gate: EmitGate)
        ensures
            gate == (EmitGate { last_ms: 0, pending: false }),
    {
        EmitGate { last_ms: 0, pending: false }
    }

    /// What to do about a change at `now`, where listeners are told once in `interval`
    /// milliseconds.
    pub open spec fn plan(self, now: u64, interval: u64) -> EmitPlan {
        if elapsed(self.last_ms, now) >= interval {
            EmitPlan::Now
        } else if self.pending {
            EmitPlan::Covered
        } else {
            EmitPlan::After((interval - elapsed(self.last_ms, now)) as u64)
        }
    }

    /// Notes a change and says what to do about it.
    pub fn note(&mut self, now: u64, interval: u64) -> (plan: EmitPlan)
        ensures
            plan == old(self).plan(now, interval),
            *final(self) == (match plan {
                EmitPlan::Now => EmitGate { last_ms: now, pending: old(self).pending },
                EmitPlan::After(_) => EmitGate { last_ms: old(self).last_ms, pending: true },
                EmitPlan::Covered => *old(self),
            }),
    {
        let since: u64 = now.saturating_sub(self.last_ms);
        if since >= interval {
            self.last_ms = now;
            return EmitPlan::Now;
        }
        if self.pending {
            return EmitPlan::Covered;
        }
        self.pending = true;
        EmitPlan::After(interval - since)
    }

    /// Notes at `now` that the waiting notice goes out.
    pub fn fired(&mut self, now: u64)
        ensures
            *final(self) == (EmitGate { last_ms: now, pending: false }),
    {
        self.last_ms = now;
        self.pending = false;
    }

    /// Notes at `now` that the listeners are told at once.
    pub fn forced(&mut self, now: u64)
        ensures
            *final(self) == (EmitGate { last_ms: now, pending: old(self).pending }),
    {
        self.last_ms = now;
    }
}

/// A notice never waits longer than the interval, and it never waits for nothing.
pub proof fn law_wait_is_bounded(gate: EmitGate, now: u64, interval: u64)
    ensures
        gate.plan(now, interval) matches EmitPlan::After(wait) ==> 0 < wait <= interval,
{
}

/// While a notice is waiting and the interval has not passed, no second one is made.
pub proof fn law_one_notice_waits(gate: EmitGate, now: u64, interval: u64)
    requires
        gate.pending,
    ensures
        !(gate.plan(now, interval) is After),
{
}

} // verus!
