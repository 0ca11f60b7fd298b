//! The supervisor's registry transitions around starting and stopping a
//! project's child process. Picking a port, spawning, health checks and
//! killing the child are carried out by the caller between these steps.
use vstd::prelude::*;
use crate::beansd::registry::{healthy_count_of, transitioned, Project, ProjectState, Registry, RegistryError};

verus! {

/// Why starting a project failed.
#[derive(Debug)]
pub enum StartError<C> {
    /// The registry refused the transition (the project is not registered).
    Registry(RegistryError),
    /// The child never answered its health check; it must be killed.
    Unhealthy { child: C },
}

impl<C> StartError<C> {
    pub open spec fn spec_message(&self) -> Seq<char> {
        match self {
            StartError::Registry(e) => e.spec_message(),
            StartError::Unhealthy { .. } => "failed to start project"@,
        }
    }

    pub fn message(&self) -> (m: String)
        ensures
            m@ == self.spec_message(),
    {
        match self {
            StartError::Registry(e) => e.message(),
            StartError::Unhealthy { .. } => String::from_str("failed to start project"),
        }
    }
}

/// The reason recorded when a child fails its startup health check.
pub open spec fn health_failure_reason() -> Seq<char> {
    "startup health check failed"@
}

/// The reason recorded when a project has been evicted.
pub open spec fn evicted_reason() -> Seq<char> {
    "Process evicted"@
}

/// After spawning `child` on `port` for `key` and checking its health:
/// a healthy child makes the project healthy; an unhealthy one makes it dead
/// and is handed back to be killed.
pub fn finish_start<C>(reg: &mut Registry<C>, key: &String, port: u16, child: C, healthy: bool) -> (r: Result<(), StartError<C>>)
    ensures
        !old(reg).contains(key@) ==> final(reg)@ == old(reg)@ && (r matches Err(StartError::Registry(e))
            && e == (RegistryError::UnknownProject { key: *key })),
        old(reg).contains(key@) && healthy ==> r is Ok && exists|prior: ProjectState<C>, t: u64|
            t >= old(reg).spec_get(key@)->0.since && transitioned(
                *old(reg),
                *final(reg),
                key@,
                ProjectState::Healthy { port, child },
                prior,
                t,
            ),
        old(reg).contains(key@) && !healthy ==> r == Err::<(), StartError<C>>(StartError::Unhealthy { child })
            && exists|prior: ProjectState<C>, t: u64, reason: String|
            reason@ == health_failure_reason() && t >= old(reg).spec_get(key@)->0.since && transitioned(
                *old(reg),
                *final(reg),
                key@,
                ProjectState::Dead { reason },
                prior,
                t,
            ),
{
    if healthy {
        match reg.transition_state(key, ProjectState::Healthy { port, child }) {
            Ok(_) => Ok(()),
            Err(e) => Err(StartError::Registry(e)),
        }
    } else {
        let reason = String::from_str("startup health check failed");
        match reg.transition_state(key, ProjectState::Dead { reason }) {
            Ok(_) => Err(StartError::Unhealthy { child }),
            Err(e) => Err(StartError::Registry(e)),
        }
    }
}

/// First step of stopping `key`: only a healthy project is stopped; it is set
/// evicting and its child is handed back to be killed. Unknown and
/// non-healthy projects are left alone.
pub fn begin_stop<C>(reg: &mut Registry<C>, key: &String) -> (r: Option<C>)
    ensures
        match old(reg).spec_get(key@) {
            Some(p) => match p.state {
                ProjectState::Healthy { port, child } => r == Some(child) && exists|t: u64|
                    t >= p.since && transitioned(*old(reg), *final(reg), key@, ProjectState::Evicting, p.state, t),
                _ => r is None && final(reg)@ == old(reg)@,
            },
            None => r is None && final(reg)@ == old(reg)@,
        },
{
    let is_active = match reg.get(key) {
        Some(p) => match &p.state {
            ProjectState::Healthy { .. } => true,
            _ => false,
        },
        None => {
            return None;
        },
    };
    if !is_active {
        return None;
    }
    match reg.transition_state(key, ProjectState::Evicting) {
        Ok(ProjectState::Healthy { port, child }) => Some(child),
        _ => None,
    }
}

/// Last step of stopping `key`, once its child is gone: the project is dead.
pub fn finish_stop<C>(reg: &mut Registry<C>, key: &String) -> (r: Result<(), RegistryError>)
    ensures
        match r {
            Ok(()) => exists|prior: ProjectState<C>, t: u64, reason: String|
                reason@ == evicted_reason() && t >= old(reg).spec_get(key@)->0.since && transitioned(
                    *old(reg),
                    *final(reg),
                    key@,
                    ProjectState::Dead { reason },
                    prior,
                    t,
                ),
            Err(e) => !old(reg).contains(key@) && final(reg)@ == old(reg)@ && e
                == (RegistryError::UnknownProject { key: *key }),
        },
{
    let reason = String::from_str("Process evicted");
    match reg.transition_state(key, ProjectState::Dead { reason }) {
        Ok(_) => Ok(()),
        Err(e) => Err(e),
    }
}

/// The children of the healthy projects of `s`, in order.
pub open spec fn healthy_children_of<C>(s: Seq<Project<C>>) -> Seq<C>
    decreases s.len(),
{
    if s.len() == 0 {
        Seq::empty()
    } else {
        let r = healthy_children_of(s.drop_last());
        match s.last().state {
            ProjectState::Healthy { child, .. } => r.push(child),
            _ => r,
        }
    }
}

/// The children to signal when the daemon shuts down: those of the healthy
/// projects, in registry order.
pub fn children_to_stop<C>(reg: &Registry<C>) -> (r: Vec<&C>)
    ensures
        r@.len() == healthy_children_of(reg@).len(),
        forall|i: int| 0 <= i < r@.len() ==> *r@[i] == #[trigger] healthy_children_of(reg@)[i],
{
    let all = reg.iter();
    let mut out: Vec<&C> = Vec::new();
    let mut i: usize = 0;
    assert(all@.take(0) =~= Seq::<Project<C>>::empty());
    while i < all.len()
        invariant
            all@ == reg@,
            i <= all@.len(),
            out@.len() == healthy_children_of(all@.take(i as int)).len(),
            forall|j: int| 0 <= j < out@.len() ==> *out@[j] == #[trigger] healthy_children_of(all@.take(i as int))[j],
        decreases all@.len() - i,
    {
        assert(all@.take(i as int + 1).drop_last() =~= all@.take(i as int));
        let ghost prev = healthy_children_of(all@.take(i as int));
        if let ProjectState::Healthy { child, .. } = &all[i].state {
            out.push(child);
        }
        assert(forall|j: int| 0 <= j < prev.len() ==> healthy_children_of(all@.take(i as int + 1))[j] == prev[j]);
        i += 1;
    }
    assert(all@.take(i as int) =~= all@);
    out
}

/// The shutdown list holds one child per healthy project, in registry
/// order: the child of the healthy project at position `i` comes after those
/// of the healthy projects before it, and no other child is listed.
pub proof fn law_shutdown_signals_every_healthy_child<C>(s: Seq<Project<C>>)
    ensures
        healthy_children_of(s).len() == healthy_count_of(s),
        forall|i: int|
            0 <= i < s.len() ==> (#[trigger] s[i].state matches ProjectState::Healthy { child, .. }
                ==> healthy_count_of(s.take(i)) < healthy_children_of(s).len() && healthy_children_of(
                s,
            )[healthy_count_of(s.take(i)) as int] == child),
    decreases s.len(),
{
    if s.len() > 0 {
        let t = s.drop_last();
        law_shutdown_signals_every_healthy_child(t);
        let r = healthy_children_of(t);
        assert forall|i: int|
            0 <= i < s.len() implies (#[trigger] s[i].state matches ProjectState::Healthy { child, .. }
                ==> healthy_count_of(s.take(i)) < healthy_children_of(s).len() && healthy_children_of(
                s,
            )[healthy_count_of(s.take(i)) as int] == child) by {
            if i < t.len() {
                assert(s.take(i) =~= t.take(i));
                assert(s[i] == t[i]);
                if let ProjectState::Healthy { child, .. } = s[i].state {
                    assert(t[i].state matches ProjectState::Healthy { child: c, .. } && c == child);
                }
            } else {
                assert(s.take(i) =~= t);
            }
        }
    } else {
        assert(healthy_children_of(s) =~= Seq::<C>::empty());
    }
}

} // verus!
