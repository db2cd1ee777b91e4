//! The protocol timer of an RTC core.
//!
//! After each round of work the core schedules one wake-up: at the engine's next
//! deadline, or after an idle poll interval when the engine has none. Every schedule
//! supersedes the ones before it, so only the latest wake-up acts.
use vstd::prelude::*;

verus! {

/// How long a core waits before polling again when the engine has no deadline, in
/// milliseconds.
pub const IDLE_TIMEOUT_POLL_MS: u64 = 100;

/// A scheduled wake-up: its generation, and whether the engine had a deadline then.
#[derive(Debug, Clone, Copy, PartialEq, Eq, Structural)]
pub struct ProtocolTimeout {
    pub generation: u64,
    pub protocol_timer_due: bool,
}

/// What a core does when a wake-up fires.
#[derive(Debug, Clone, Copy, PartialEq, Eq, Structural)]
pub enum TimeoutStep {
    /// A later schedule superseded it: nothing.
    Stale,
    /// The engine's deadline has come: let it handle the timeout, then do the work.
    HandleTimeout,
    /// It was only the idle poll: schedule again.
    Reschedule,
}

/// The generation after `g`, wrapping like the counter it is.
pub open spec fn next_generation(g: u64) -> u64 {
    if g == u64::MAX {
        0
    } else {
        (g + 1) as u64
    }
}

/// The generation of the latest scheduled wake-up.
#[derive(Debug)]
pub struct TimeoutTimer {
    generation: u64,
}

impl TimeoutTimer {
    pub closed spec fn spec_generation(&self) -> u64 {
        self.generation
    }

    pub fn new() -> (t: TimeoutTimer)
        ensures
            t.spec_generation() == 0,
    {
        TimeoutTimer { generation: 0 }
    }

    /// Schedules the next wake-up, superseding the earlier ones; `has_deadline` says
    /// whether the engine has a deadline (else the wake-up is the idle poll).
    pub fn schedule_timeout(&mut self, has_deadline: bool) -> (t: ProtocolTimeout)
        ensures
            final(self).spec_generation() == next_generation(old(self).spec_generation()),
            t.generation == final(self).spec_generation(),
            t.protocol_timer_due == has_deadline,
    {
        self.generation = self.generation.wrapping_add(1);
        ProtocolTimeout { generation: self.generation, protocol_timer_due: has_deadline }
    }

    /// What to do when wake-up `t` fires.
    pub fn on_timeout(&self, t: ProtocolTimeout) -> (s: TimeoutStep)
        ensures
            s == (if t.generation != self.spec_generation() {
                TimeoutStep::Stale
            } else if t.protocol_timer_due {
                TimeoutStep::HandleTimeout
            } else {
                TimeoutStep::Reschedule
            }),
    {
        if t.generation != self.generation {
            TimeoutStep::Stale
        } else if t.protocol_timer_due {
            TimeoutStep::HandleTimeout
        } else {
            TimeoutStep::Reschedule
        }
    }
}

/// A wake-up is superseded by the next schedule: once the timer has moved on, it does
/// nothing when it fires.
pub proof fn lemma_superseded_timeout_is_stale(t: ProtocolTimeout, scheduled_at: u64)
    requires
        t.generation == scheduled_at,
    ensures
        t.generation != next_generation(scheduled_at),
{
}

} // verus!
