//! What the daemon does with each control-socket request: registry updates
//! and the outcome to encode as the response's data. Resolving the project
//! directory, starting projects and evicting them are carried out by the
//! caller, as the plans returned here direct.
use vstd::prelude::*;
use crate::beans_daemon::registry::{
    active_count_of, any_healthy, bumped, is_lru_healthy, transitioned, Project, ProjectState, Registry,
};
use crate::paths::{file_name_or_empty, path_id};
use crate::beansd::daemon::display_name_of;
use crate::rpc::types::StatusResponse;

verus! {

/// The outcome of a `cd`, as the response reports it.
#[derive(Debug, PartialEq, Eq)]
pub enum CdOutcome {
    NotRegistered,
    /// Resolving the directory failed with this message.
    ResolveFailed { error: String },
    Bumped { key: String },
    Spawned { key: String },
}

/// What the caller must do after a `cd`.
#[derive(Debug)]
pub struct CdPlan {
    pub outcome: CdOutcome,
    pub evict: Option<String>,
    pub start: bool,
}

/// `cd` into a directory that resolved to `resolved` (`Ok(None)`: no project
/// marker above it; `Err`: resolution failed), at clock reading `now`.
pub fn handle_cd(reg: &mut Registry, resolved: Result<Option<String>, String>, lru_cap: usize, now: u64) -> (plan: CdPlan)
    ensures
        match resolved {
            Err(e) => plan.outcome == (CdOutcome::ResolveFailed { error: e }) && plan.evict is None
                && !plan.start && final(reg)@ == old(reg)@,
            Ok(None) => plan.outcome == CdOutcome::NotRegistered && plan.evict is None && !plan.start
                && final(reg)@ == old(reg)@,
            Ok(Some(k)) => if old(reg).contains(k@) {
                &&& plan.outcome == (CdOutcome::Bumped { key: k })
                &&& plan.evict is None
                &&& !plan.start
                &&& bumped(old(reg)@, final(reg)@, k@, now)
            } else {
                &&& plan.outcome == (CdOutcome::Spawned { key: k })
                &&& plan.start
                &&& match plan.evict {
                    Some(e) => active_count_of(old(reg)@) >= lru_cap && exists|i: int|
                        is_lru_healthy(old(reg)@, i) && e == old(reg)@[i].key,
                    None => active_count_of(old(reg)@) < lru_cap || !any_healthy(old(reg)@),
                }
                &&& final(reg)@.len() == old(reg)@.len() + 1
                &&& final(reg)@.drop_last() == old(reg)@
                &&& final(reg)@.last().key == k
                &&& final(reg)@.last().display_name@ == display_name_of(k@)
                &&& final(reg)@.last().state == (ProjectState::Spawning { since: now })
                &&& final(reg)@.last().last_used == now
                &&& final(reg).spec_get(k@) == Some(final(reg)@.last())
                &&& forall|o: Seq<char>| path_id(o) != path_id(k@) ==> #[trigger] final(reg).spec_get(o) == old(reg).spec_get(o)
            },
        },
{
    let k = match resolved {
        Err(e) => {
            return CdPlan { outcome: CdOutcome::ResolveFailed { error: e }, evict: None, start: false };
        },
        Ok(None) => {
            return CdPlan { outcome: CdOutcome::NotRegistered, evict: None, start: false };
        },
        Ok(Some(k)) => k,
    };
    if reg.get(&k).is_some() {
        reg.bump_last_used(&k, now);
        return CdPlan { outcome: CdOutcome::Bumped { key: k }, evict: None, start: false };
    }
    let mut evict = None;
    if reg.count_active() >= lru_cap {
        evict = reg.find_lru_for_eviction();
    }
    let display = file_name_or_empty(&k);
    let ghost before = reg@;
    let r = reg.insert_spawning(k.clone(), display, now);
    assert(r is Ok);
    assert(reg@.drop_last() =~= before);
    CdPlan { outcome: CdOutcome::Spawned { key: k }, evict, start: true }
}

/// One project as listed by `ls`.
#[derive(Debug, PartialEq, Eq)]
pub struct LsEntry {
    pub key: String,
    pub display_name: String,
    pub state: &'static str,
    pub port: Option<u16>,
}

pub open spec fn state_label(s: ProjectState) -> Seq<char> {
    match s {
        ProjectState::Spawning { .. } => "spawning"@,
        ProjectState::Healthy { .. } => "healthy"@,
        ProjectState::Evicting { .. } => "evicting"@,
        ProjectState::Dead { .. } => "dead"@,
    }
}

pub open spec fn port_of(s: ProjectState) -> Option<u16> {
    match s {
        ProjectState::Healthy { port, .. } => Some(port),
        _ => None,
    }
}

pub open spec fn entry_matches(e: LsEntry, p: Project) -> bool {
    &&& e.key == p.key
    &&& e.display_name == p.display_name
    &&& e.state@ == state_label(p.state)
    &&& e.port == port_of(p.state)
}

/// `ls`: every registered project, in registry order.
pub fn handle_ls(reg: &Registry) -> (r: Vec<LsEntry>)
    ensures
        r@.len() == reg@.len(),
        forall|i: int| 0 <= i < reg@.len() ==> entry_matches(#[trigger] r@[i], reg@[i]),
{
    let all = reg.iter();
    let mut out: Vec<LsEntry> = Vec::new();
    let mut i: usize = 0;
    while i < all.len()
        invariant
            all@ == reg@,
            i <= all@.len(),
            out@.len() == i,
            forall|j: int| 0 <= j < i ==> entry_matches(#[trigger] out@[j], reg@[j]),
        decreases all@.len() - i,
    {
        let p = &all[i];
        let (state, port): (&'static str, Option<u16>) = match &p.state {
            ProjectState::Spawning { .. } => ("spawning", None),
            ProjectState::Healthy { port, .. } => ("healthy", Some(*port)),
            ProjectState::Evicting { .. } => ("evicting", None),
            ProjectState::Dead { .. } => ("dead", None),
        };
        out.push(LsEntry { key: p.key.clone(), display_name: p.display_name.clone(), state, port });
        i += 1;
    }
    out
}

/// `status`: registry size, active count and the cap.
pub fn handle_status(reg: &Registry, lru_cap: usize) -> (r: StatusResponse)
    ensures
        r.registry_size == reg@.len(),
        r.active == active_count_of(reg@),
        r.lru_cap == lru_cap,
{
    StatusResponse { registry_size: reg.iter().len(), active: reg.count_active(), lru_cap }
}

/// `heartbeat`: bumps the project at clock reading `now` (no-op when unknown).
pub fn handle_heartbeat(reg: &mut Registry, key: &String, now: u64)
    ensures
        bumped(old(reg)@, final(reg)@, key@, now),
{
    reg.bump_last_used(key, now);
}

/// `stop`: whether `key` is registered, so that its eviction is to be
/// triggered; the registry itself is not changed here.
pub fn handle_stop(reg: &Registry, key: &String) -> (stopped: bool)
    ensures
        stopped == reg.contains(key@),
{
    reg.get(key).is_some()
}

/// The outcome of a `start`.
#[derive(Debug, PartialEq, Eq)]
pub enum StartOutcome {
    AlreadyActive,
    Spawning,
    Unknown,
}

/// `start` at clock reading `now`: an active (healthy or spawning) project is
/// left alone; an evicting or dead one is set spawning and must be started;
/// an unregistered key is reported unknown.
pub fn handle_start(reg: &mut Registry, key: &String, now: u64) -> (r: StartOutcome)
    ensures
        match old(reg).spec_get(key@) {
            None => r == StartOutcome::Unknown && final(reg)@ == old(reg)@,
            Some(p) => if p.state.spec_counts_toward_cap() {
                r == StartOutcome::AlreadyActive && final(reg)@ == old(reg)@
            } else {
                r == StartOutcome::Spawning && transitioned(
                    *old(reg),
                    *final(reg),
                    key@,
                    ProjectState::Spawning { since: now },
                    p.state,
                )
            },
        },
{
    match reg.get(key) {
        Some(p) => {
            if p.state.counts_toward_cap() {
                return StartOutcome::AlreadyActive;
            }
        },
        None => {
            return StartOutcome::Unknown;
        },
    }
    let r = reg.transition_state(key, ProjectState::Spawning { since: now });
    assert(r is Ok);
    StartOutcome::Spawning
}

/// Each state is listed with a label of its own, and only a healthy project
/// with its port: no two kinds of state are listed alike.
pub proof fn law_each_state_is_listed_as_its_own_kind(s: ProjectState)
    ensures
        state_label(s) == "spawning"@ <==> s is Spawning,
        state_label(s) == "healthy"@ <==> s is Healthy,
        state_label(s) == "evicting"@ <==> s is Evicting,
        state_label(s) == "dead"@ <==> s is Dead,
        port_of(s) is Some <==> s is Healthy,
        s matches ProjectState::Healthy { port, .. } ==> port_of(s) == Some(port),
{
    reveal_strlit("spawning");
    reveal_strlit("healthy");
    reveal_strlit("evicting");
    reveal_strlit("dead");
    assert("spawning"@.len() == 8 && "healthy"@.len() == 7 && "evicting"@.len() == 8 && "dead"@.len() == 4);
    assert("evicting"@[0] != "spawning"@[0]);
}

} // verus!
