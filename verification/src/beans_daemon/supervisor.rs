//! The supervisor's registry transitions once a started child has passed or
//! failed its health check, and the polling decision of that check.
use vstd::prelude::*;
use crate::beans_daemon::registry::{transitioned, ProjectState, Registry, RegistryError};

verus! {

/// The reason recorded when a child fails its startup health check.
pub open spec fn health_timeout_reason() -> Seq<char> {
    "startup health check timed out"@
}

/// Records the health-check result of the child `pid` spawned at `spawned_at`
/// on `port` for `key`: healthy, or dead as of `now` (the caller kills an
/// unhealthy child). Refused when the key is not registered.
pub fn finish_start_project(
    reg: &mut Registry,
    key: &String,
    port: u16,
    pid: u32,
    spawned_at: u64,
    healthy: bool,
    now: u64,
) -> (r: Result<(), RegistryError>)
    ensures
        match r {
            Ok(()) => if healthy {
                exists|prior: ProjectState|
                    transitioned(*old(reg), *final(reg), key@, ProjectState::Healthy { port, pid, spawned_at }, prior)
            } else {
                exists|prior: ProjectState, reason: String|
                    reason@ == health_timeout_reason() && transitioned(
                        *old(reg),
                        *final(reg),
                        key@,
                        ProjectState::Dead { reason, since: now },
                        prior,
                    )
            },
            Err(e) => !old(reg).contains(key@) && final(reg)@ == old(reg)@ && e
                == (RegistryError::UnknownProject { key: *key }),
        },
{
    if healthy {
        match reg.transition_state(key, ProjectState::Healthy { port, pid, spawned_at }) {
            Ok(_) => Ok(()),
            Err(e) => Err(e),
        }
    } else {
        let reason = String::from_str("startup health check timed out");
        match reg.transition_state(key, ProjectState::Dead { reason, since: now }) {
            Ok(_) => Ok(()),
            Err(e) => Err(e),
        }
    }
}

/// Whether to keep polling a starting child at clock reading `now`, given
/// the `deadline` for it to become healthy.
pub fn health_poll_continues(now: u64, deadline: u64) -> (r: bool)
    ensures
        r == (now < deadline),
{
    now < deadline
}

/// Which signal an eviction sent last.
#[derive(Debug, Clone, Copy, PartialEq, Eq)]
pub enum EvictPhase {
    Term,
    Kill,
}

/// How an eviction ended; the entry is dropped from the registry in each case.
#[derive(Debug, Clone, Copy, PartialEq, Eq)]
pub enum EvictOutcome {
    /// The child exited after SIGTERM.
    Clean,
    /// The child exited after SIGKILL.
    Killed,
    /// The child did not exit in time and is left behind.
    Orphaned,
}

/// What an eviction does once waiting for the child has ended.
#[derive(Debug, Clone, Copy, PartialEq, Eq)]
pub enum EvictNext {
    /// Send SIGKILL and wait again.
    SendKill,
    /// Drop the project from the registry.
    Remove { outcome: EvictOutcome },
}

/// After the wait that followed the signal of `phase`, which the child
/// `exited` within or not: SIGTERM is followed by SIGKILL when the child
/// outlives its grace; after SIGKILL the entry is dropped whatever happened.
pub fn evict_after_wait(phase: EvictPhase, exited: bool) -> (r: EvictNext)
    ensures
        r == (match phase {
            EvictPhase::Term => if exited {
                EvictNext::Remove { outcome: EvictOutcome::Clean }
            } else {
                EvictNext::SendKill
            },
            EvictPhase::Kill => if exited {
                EvictNext::Remove { outcome: EvictOutcome::Killed }
            } else {
                EvictNext::Remove { outcome: EvictOutcome::Orphaned }
            },
        }),
{
    match phase {
        EvictPhase::Term => if exited {
            EvictNext::Remove { outcome: EvictOutcome::Clean }
        } else {
            EvictNext::SendKill
        },
        EvictPhase::Kill => if exited {
            EvictNext::Remove { outcome: EvictOutcome::Killed }
        } else {
            EvictNext::Remove { outcome: EvictOutcome::Orphaned }
        },
    }
}

} // verus!
