//! What the daemon does with each control-socket request: the registry
//! updates and the replies. Resolving the project directory, spawning the
//! start task and triggering evictions are carried out by the caller, as
//! the plans returned here direct.
use vstd::prelude::*;
use crate::beansd::registry::{
    active_count_of, any_healthy, bumped, is_lru_healthy, transitioned, Project, ProjectState, Registry,
    RegistryError,
};
use crate::paths::{file_name, file_name_or_empty, path_id};
use crate::rpc::types::{
    CdResponse, LsResponse, ProjectState as RpcState, ProjectSummary, StartResponse, StatusResponse,
};

verus! {

/// What the caller must do after a `cd`: reply, evict a project, start the
/// project that was just registered.
#[derive(Debug)]
pub struct CdPlan {
    pub response: CdResponse,
    pub evict: Option<String>,
    pub start: bool,
}

/// The display name of a project: the last segment of its key, or empty.
pub open spec fn display_name_of(key: Seq<char>) -> Seq<char> {
    match file_name(key) {
        Some(n) => n,
        None => Seq::empty(),
    }
}

/// The state of a project as reported to clients.
pub open spec fn rpc_state<C>(s: ProjectState<C>) -> RpcState {
    match s {
        ProjectState::Spawning => RpcState::Spawning,
        ProjectState::Healthy { .. } => RpcState::Healthy,
        ProjectState::Evicting => RpcState::Evicting,
        ProjectState::Dead { .. } => RpcState::Dead,
    }
}

/// The port a project serves on: only healthy projects have one.
pub open spec fn port_of<C>(s: ProjectState<C>) -> Option<u16> {
    match s {
        ProjectState::Healthy { port, .. } => Some(port),
        _ => None,
    }
}

/// The summary of a project.
pub open spec fn summary_matches<C>(s: ProjectSummary, p: Project<C>) -> bool {
    &&& s.key == p.key
    &&& s.display_name == p.display_name
    &&& s.state == rpc_state(p.state)
    &&& s.port == port_of(p.state)
}

/// `cd` into a directory whose project key resolved to `key` (`None`: no
/// project marker above it), at clock reading `now`. A registered project is
/// bumped. Otherwise the project is registered as spawning and must be
/// started; when the active projects already fill the cap, the least recently
/// used healthy project is to be evicted as well.
pub fn handle_cd<C>(reg: &mut Registry<C>, key: Option<String>, lru_cap: usize, now: u64) -> (plan: CdPlan)
    ensures
        match key {
            None => plan.response == CdResponse::NotRegistered && plan.evict is None && !plan.start
                && final(reg)@ == old(reg)@,
            Some(k) => if old(reg).contains(k@) {
                &&& plan.response == (CdResponse::Bumped { key: k })
                &&& plan.evict is None
                &&& !plan.start
                &&& bumped(old(reg)@, final(reg)@, k@, now)
            } else {
                &&& plan.response == (CdResponse::Spawned { key: k })
                &&& plan.start
                &&& match plan.evict {
                    Some(e) => active_count_of(old(reg)@) >= lru_cap && exists|i: int|
                        is_lru_healthy(old(reg)@, i) && e == old(reg)@[i].key,
                    None => active_count_of(old(reg)@) < lru_cap || !any_healthy(old(reg)@),
                }
                &&& final(reg)@.len() == old(reg)@.len() + 1
                &&& final(reg)@.drop_last() == old(reg)@
                &&& final(reg)@.last().key == k
                &&& final(reg)@.last().display_name@ == display_name_of(k@)
                &&& final(reg)@.last().state is Spawning
                &&& final(reg)@.last().last_used == now
                &&& final(reg)@.last().since == now
                &&& final(reg).spec_get(k@) == Some(final(reg)@.last())
                &&& forall|o: Seq<char>| path_id(o) != path_id(k@) ==> #[trigger] final(reg).spec_get(o) == old(reg).spec_get(o)
            },
        },
{
    let k = match key {
        None => {
            return CdPlan { response: CdResponse::NotRegistered, evict: None, start: false };
        },
        Some(k) => k,
    };
    if reg.get(&k).is_some() {
        reg.bump_last_used(&k, now);
        return CdPlan { response: CdResponse::Bumped { key: k }, evict: None, start: false };
    }
    let mut evict = None;
    if reg.count_active() >= lru_cap {
        evict = reg.find_lru_for_eviction();
    }
    let display = file_name_or_empty(&k);
    let ghost before = reg@;
    let r = reg.insert(Project::new_at(k.clone(), display, ProjectState::Spawning, now));
    assert(r is Ok);
    assert(reg@.drop_last() =~= before);
    CdPlan { response: CdResponse::Spawned { key: k }, evict, start: true }
}

/// The summaries of all registered projects, in registry order.
pub fn handle_ls<C>(reg: &Registry<C>) -> (r: LsResponse)
    ensures
        r.projects@.len() == reg@.len(),
        forall|i: int| 0 <= i < reg@.len() ==> summary_matches(#[trigger] r.projects@[i], reg@[i]),
{
    let all = reg.iter();
    let mut projects: Vec<ProjectSummary> = Vec::new();
    let mut i: usize = 0;
    while i < all.len()
        invariant
            all@ == reg@,
            i <= all@.len(),
            projects@.len() == i,
            forall|j: int| 0 <= j < i ==> summary_matches(#[trigger] projects@[j], reg@[j]),
        decreases all@.len() - i,
    {
        let p = &all[i];
        let (state, port) = match &p.state {
            ProjectState::Spawning => (RpcState::Spawning, None),
            ProjectState::Healthy { port, .. } => (RpcState::Healthy, Some(*port)),
            ProjectState::Evicting => (RpcState::Evicting, None),
            ProjectState::Dead { .. } => (RpcState::Dead, None),
        };
        projects.push(
            ProjectSummary { key: p.key.clone(), display_name: p.display_name.clone(), state, port },
        );
        i += 1;
    }
    LsResponse { projects }
}

/// `start`: an active (healthy or spawning) project is left alone; an
/// evicting or dead one is set spawning again and must be started; an
/// unregistered key is refused.
pub fn handle_start<C>(reg: &mut Registry<C>, key: &String) -> (r: Result<StartResponse, RegistryError>)
    ensures
        match old(reg).spec_get(key@) {
            None => r == Err::<StartResponse, RegistryError>(RegistryError::UnknownProject { key: *key })
                && final(reg)@ == old(reg)@,
            Some(p) => if p.state.is_active() {
                r == Ok::<StartResponse, RegistryError>(StartResponse::AlreadyActive) && final(reg)@ == old(reg)@
            } else {
                r == Ok::<StartResponse, RegistryError>(StartResponse::Spawning) && exists|t: u64|
                    t >= p.since && transitioned(*old(reg), *final(reg), key@, ProjectState::Spawning, p.state, t)
            },
        },
{
    match reg.get(key) {
        Some(p) => {
            match &p.state {
                ProjectState::Healthy { .. } | ProjectState::Spawning => {
                    return Ok(StartResponse::AlreadyActive);
                },
                _ => {},
            }
        },
        None => {
            return Err(RegistryError::UnknownProject { key: key.clone() });
        },
    }
    let r = reg.transition_state(key, ProjectState::Spawning);
    assert(r is Ok);
    Ok(StartResponse::Spawning)
}

/// `stop`: a registered project is to be evicted; an unregistered key is
/// refused. The registry itself is not changed here.
pub fn handle_stop<C>(reg: &Registry<C>, key: &String) -> (r: Result<(), RegistryError>)
    ensures
        r is Ok <==> reg.contains(key@),
        r matches Err(e) ==> e == (RegistryError::UnknownProject { key: *key }),
{
    if reg.get(key).is_some() {
        Ok(())
    } else {
        Err(RegistryError::UnknownProject { key: key.clone() })
    }
}

/// `status`: registry size, active count and the cap.
pub fn handle_status<C>(reg: &Registry<C>, lru_cap: usize) -> (r: StatusResponse)
    ensures
        r.registry_size == reg@.len(),
        r.active == active_count_of(reg@),
        r.lru_cap == lru_cap,
{
    StatusResponse { registry_size: reg.iter().len(), active: reg.count_active(), lru_cap }
}

/// `heartbeat`: bumps the project at clock reading `now` (no-op when unknown).
pub fn handle_heartbeat<C>(reg: &mut Registry<C>, key: &String, now: u64)
    ensures
        bumped(old(reg)@, final(reg)@, key@, now),
{
    reg.bump_last_used(key, now);
}

/// Each state is reported as its own kind, and only a healthy project
/// reports a port: no two kinds of state are reported alike.
pub proof fn law_each_state_is_reported_as_its_own_kind<C>(s: ProjectState<C>)
    ensures
        rpc_state(s) == RpcState::Spawning <==> s is Spawning,
        rpc_state(s) == RpcState::Healthy <==> s is Healthy,
        rpc_state(s) == RpcState::Evicting <==> s is Evicting,
        rpc_state(s) == RpcState::Dead <==> s is Dead,
        port_of(s) is Some <==> s is Healthy,
        s matches ProjectState::Healthy { port, .. } ==> port_of(s) == Some(port),
{
}

} // verus!
