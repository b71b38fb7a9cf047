//! The processing configuration and the cutoff policy that decides when to
//! stop collecting messages.
use vstd::prelude::*;

verus! {

/// How collected messages are limited, ordered and shown.
#[derive(Clone, Copy, Debug)]
pub struct Config {
    /// Largest number of diagnostics kept; 0 means no limit.
    pub message_limit: usize,
    /// Seconds of collection after the first error; 0 means no limit.
    pub time_limit_seconds: u64,
    pub ascending: bool,
    pub force_warn: bool,
    pub show_deps_warnings: bool,
    pub json_output: bool,
}

/// Where the cutoff policy stands.
#[derive(Clone, Copy, Debug, PartialEq, Eq, Structural)]
pub enum Phase {
    Collecting,
    /// An error was seen; collection stops at the first message at or past this
    /// time, in milliseconds.
    ArmedAfterError(u64),
    Stopped,
}

/// The cutoff policy: a count of diagnostics against a limit, and a deadline
/// set by the first error.
#[derive(Clone, Copy, Debug)]
pub struct Tracker {
    pub phase: Phase,
    pub count: usize,
    pub message_limit: usize,
    pub time_limit_seconds: u64,
}

pub const MILLIS_PER_SECOND: u64 = 1000;

/// The deadline that an error seen at `now` sets, saturating at the largest time.
pub open spec fn deadline(now: u64, seconds: u64) -> u64 {
    let d = now as int + seconds as int * MILLIS_PER_SECOND as int;
    if d > u64::MAX as int { u64::MAX } else { d as u64 }
}

/// The phase after one message, given the count of diagnostics including it.
pub open spec fn next_phase(
    phase: Phase,
    count: usize,
    message_limit: usize,
    time_limit_seconds: u64,
    is_error: bool,
    now: u64,
) -> Phase {
    match phase {
        Phase::Stopped => Phase::Stopped,
        _ => if message_limit > 0 && count >= message_limit {
            Phase::Stopped
        } else {
            match phase {
                Phase::ArmedAfterError(d) => if now >= d {
                    Phase::Stopped
                } else {
                    phase
                },
                _ => if is_error && time_limit_seconds > 0 {
                    Phase::ArmedAfterError(deadline(now, time_limit_seconds))
                } else {
                    phase
                },
            }
        },
    }
}

impl Tracker {
    /// A tracker in its initial phase, with no diagnostic counted.
    pub fn new(config: &Config) -> (r: Tracker)
        ensures
            r.phase == Phase::Collecting,
            r.count == 0,
            r.message_limit == config.message_limit,
            r.time_limit_seconds == config.time_limit_seconds,
    {
        Tracker {
            phase: Phase::Collecting,
            count: 0,
            message_limit: config.message_limit,
            time_limit_seconds: config.time_limit_seconds,
        }
    }

    pub open spec fn is_stopped(&self) -> bool {
        self.phase == Phase::Stopped
    }

    /// A tracker that is still collecting has counted fewer diagnostics than the limit.
    pub open spec fn wf(&self) -> bool {
        &&& self.message_limit > 0 ==> self.count <= self.message_limit
        &&& (self.message_limit > 0 && self.count == self.message_limit) ==> self.is_stopped()
    }

    pub fn stopped(&self) -> (r: bool)
        ensures
            r == self.is_stopped(),
    {
        self.phase == Phase::Stopped
    }

    /// Accounts for one arriving message at time `now` (milliseconds). Once
    /// stopped the tracker no longer changes.
    pub fn observe(&mut self, is_diagnostic: bool, is_error: bool, now: u64)
        requires
            old(self).wf(),
            old(self).count < usize::MAX,
        ensures
            final(self).wf(),
            final(self).message_limit == old(self).message_limit,
            final(self).time_limit_seconds == old(self).time_limit_seconds,
            old(self).is_stopped() ==> *final(self) == *old(self),
            !old(self).is_stopped() ==> final(self).count == if is_diagnostic {
                old(self).count + 1
            } else {
                old(self).count as int
            },
            !old(self).is_stopped() ==> final(self).phase == next_phase(
                old(self).phase,
                final(self).count,
                old(self).message_limit,
                old(self).time_limit_seconds,
                is_error,
                now,
            ),
    {
        if self.phase == Phase::Stopped {
            return;
        }
        if is_diagnostic {
            self.count = self.count + 1;
        }
        if self.message_limit > 0 && self.count >= self.message_limit {
            self.phase = Phase::Stopped;
        } else {
            match self.phase {
                Phase::ArmedAfterError(d) => {
                    if now >= d {
                        self.phase = Phase::Stopped;
                    }
                },
                _ => {
                    if is_error && self.time_limit_seconds > 0 {
                        let d: u64 = if self.time_limit_seconds > (u64::MAX - now) / MILLIS_PER_SECOND {
                            u64::MAX
                        } else {
                            now + self.time_limit_seconds * MILLIS_PER_SECOND
                        };
                        self.phase = Phase::ArmedAfterError(d);
                    }
                },
            }
        }
    }
}

/// With no time limit, a message never arms the deadline: a tracker that is not
/// armed is still not armed after it. Since a tracker starts collecting, it is
/// never armed, and the time path never stops it.
pub proof fn lemma_no_time_cutoff(
    phase: Phase,
    count: usize,
    message_limit: usize,
    is_error: bool,
    now: u64,
)
    requires
        !(phase is ArmedAfterError),
    ensures
        !(next_phase(phase, count, message_limit, 0, is_error, now) is ArmedAfterError),
{
}

/// With no message limit, the count never stops collection: the phase after a
/// message is the same whatever the count.
pub proof fn lemma_no_count_cutoff(
    phase: Phase,
    count: usize,
    other: usize,
    time_limit_seconds: u64,
    is_error: bool,
    now: u64,
)
    ensures
        next_phase(phase, count, 0, time_limit_seconds, is_error, now) == next_phase(
            phase,
            other,
            0,
            time_limit_seconds,
            is_error,
            now,
        ),
{
}

} // verus!
