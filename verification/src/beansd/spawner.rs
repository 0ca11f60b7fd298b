//! Killing a child: SIGTERM, wait; if it does not exit in time, SIGKILL, wait;
//! if it still has not exited, give up. The caller sends the signals and waits.
use vstd::prelude::*;

verus! {

/// Spawns `beans-serve serve --port <port>` in the project directory.
#[derive(Debug)]
pub struct BeansServeSpawner {
    pub binary: String,
}

/// Which signal was sent last.
#[derive(Debug, Clone, Copy, PartialEq, Eq)]
pub enum KillPhase {
    Term,
    Kill,
}

/// How waiting for the child ended.
#[derive(Debug, PartialEq, Eq)]
pub enum WaitOutcome {
    Exited,
    Failed { cause: String },
    TimedOut,
}

#[derive(Debug, PartialEq, Eq)]
pub enum KillError {
    Wait { cause: String },
    TimedOut,
}

impl KillError {
    pub open spec fn spec_message(&self) -> Seq<char> {
        match self {
            KillError::Wait { cause } => cause@,
            KillError::TimedOut => "process did not exit in time"@,
        }
    }

    pub fn message(&self) -> (m: String)
        ensures
            m@ == self.spec_message(),
    {
        match self {
            KillError::Wait { cause } => cause.clone(),
            KillError::TimedOut => String::from_str("process did not exit in time"),
        }
    }
}

/// What to do after waiting.
#[derive(Debug, PartialEq, Eq)]
pub enum KillNext {
    Done,
    SendKill,
    Fail { error: KillError },
}

/// After the wait that followed the signal of `phase` ended with `outcome`.
pub fn after_wait(phase: KillPhase, outcome: WaitOutcome) -> (r: KillNext)
    ensures
        r == (match outcome {
            WaitOutcome::Exited => KillNext::Done,
            WaitOutcome::Failed { cause } => KillNext::Fail { error: KillError::Wait { cause } },
            WaitOutcome::TimedOut => match phase {
                KillPhase::Term => KillNext::SendKill,
                KillPhase::Kill => KillNext::Fail { error: KillError::TimedOut },
            },
        }),
{
    match outcome {
        WaitOutcome::Exited => KillNext::Done,
        WaitOutcome::Failed { cause } => KillNext::Fail { error: KillError::Wait { cause } },
        WaitOutcome::TimedOut => match phase {
            KillPhase::Term => KillNext::SendKill,
            KillPhase::Kill => KillNext::Fail { error: KillError::TimedOut },
        },
    }
}

} // verus!
