//! The polling of a freshly spawned child until it answers: up to `attempts`
//! probes; a probe that times out is retried at once, one that gets no
//! successful answer is retried after a pause. The caller performs the probes
//! and pauses.
use vstd::prelude::*;

verus! {

/// Probes `http://127.0.0.1:<port>/` until it answers with a success status.
#[derive(Debug, Clone, Copy)]
pub struct HttpHealthChecker;

/// The result of one probe.
#[derive(Debug, Clone, Copy, PartialEq, Eq)]
pub enum ProbeOutcome {
    /// The probe got no answer within the interval.
    TimedOut,
    /// The child answered with a success status.
    Success,
    /// The request failed or the status was not a success.
    NotReady,
}

/// What to do after a probe.
#[derive(Debug, Clone, Copy, PartialEq, Eq)]
pub enum PollNext {
    Healthy,
    Probe,
    SleepThenProbe,
    GiveUp,
    SleepThenGiveUp,
}

/// Whether to probe at all.
pub fn first_probe(attempts: u32) -> (r: bool)
    ensures
        r == (attempts > 0),
{
    attempts > 0
}

/// After probe number `done` (counting from 1) of `attempts` came back with
/// `outcome`.
pub fn after_probe(done: u32, attempts: u32, outcome: ProbeOutcome) -> (r: PollNext)
    requires
        1 <= done <= attempts,
    ensures
        r == (match outcome {
            ProbeOutcome::Success => PollNext::Healthy,
            ProbeOutcome::TimedOut => if done < attempts {
                PollNext::Probe
            } else {
                PollNext::GiveUp
            },
            ProbeOutcome::NotReady => if done < attempts {
                PollNext::SleepThenProbe
            } else {
                PollNext::SleepThenGiveUp
            },
        }),
{
    match outcome {
        ProbeOutcome::Success => PollNext::Healthy,
        ProbeOutcome::TimedOut => if done < attempts {
            PollNext::Probe
        } else {
            PollNext::GiveUp
        },
        ProbeOutcome::NotReady => if done < attempts {
            PollNext::SleepThenProbe
        } else {
            PollNext::SleepThenGiveUp
        },
    }
}

} // verus!
