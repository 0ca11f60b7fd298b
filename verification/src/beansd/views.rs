//! What the launcher pages show of the registry.
use vstd::prelude::*;
use crate::beansd::registry::{Project, ProjectState, Registry};
use crate::beansd::daemon::port_of;
use crate::paths::{opt_view, path_id, path_key, same_key, tildify, tildify_spec};

verus! {

#[derive(Debug)]
pub struct ProjectView {
    /// Lookup key in links and form values: rendered verbatim, never
    /// shortened to `display_path`.
    pub key: String,
    pub display_path: String,
    pub display_name: String,
    pub state: &'static str,
    pub port: Option<u16>,
}

/// The label shown for a state.
pub open spec fn state_label<C>(s: ProjectState<C>) -> Seq<char> {
    match s {
        ProjectState::Spawning => "spawning"@,
        ProjectState::Healthy { .. } => "healthy"@,
        ProjectState::Evicting => "evicting"@,
        ProjectState::Dead { .. } => "dead"@,
    }
}

/// `v` shows project `p`, with paths under `home` shortened.
pub open spec fn view_matches<C>(v: ProjectView, p: Project<C>, home: Option<Seq<char>>) -> bool {
    &&& v.key == p.key
    &&& v.display_path@ == tildify_spec(p.key@, home)
    &&& v.display_name == p.display_name
    &&& v.state@ == state_label(p.state)
    &&& v.port == port_of(p.state)
}

/// One view per registered project, in registry order.
pub fn project_views<C>(reg: &Registry<C>, home: Option<&String>) -> (r: Vec<ProjectView>)
    ensures
        r@.len() == reg@.len(),
        forall|i: int| 0 <= i < reg@.len() ==> view_matches(#[trigger] r@[i], reg@[i], opt_view(home)),
{
    let all = reg.iter();
    let mut out: Vec<ProjectView> = Vec::new();
    let mut i: usize = 0;
    while i < all.len()
        invariant
            all@ == reg@,
            i <= all@.len(),
            out@.len() == i,
            forall|j: int| 0 <= j < i ==> view_matches(#[trigger] out@[j], reg@[j], opt_view(home)),
        decreases all@.len() - i,
    {
        let p = &all[i];
        let (state, port): (&'static str, Option<u16>) = match &p.state {
            ProjectState::Spawning => ("spawning", None),
            ProjectState::Healthy { port, .. } => ("healthy", Some(*port)),
            ProjectState::Evicting => ("evicting", None),
            ProjectState::Dead { .. } => ("dead", None),
        };
        out.push(
            ProjectView {
                key: p.key.clone(),
                display_path: tildify(&p.key, home),
                display_name: p.display_name.clone(),
                state,
                port,
            },
        );
        i += 1;
    }
    out
}

/// The first project registered under `key` (the same path) that has a port (is healthy
/// enough to be embedded); none without a key.
pub open spec fn is_active_match(projects: Seq<ProjectView>, key: Seq<char>, i: int) -> bool {
    &&& 0 <= i < projects.len()
    &&& path_id(projects[i].key@) == path_id(key)
    &&& projects[i].port is Some
    &&& forall|j: int| 0 <= j < i ==> !(path_id(#[trigger] projects[j].key@) == path_id(key) && projects[j].port is Some)
}

pub open spec fn same_view(a: ProjectView, b: ProjectView) -> bool {
    a.key == b.key && a.display_path == b.display_path && a.display_name == b.display_name && a.state
        == b.state && a.port == b.port
}

/// The project to show for query `key`.
pub fn resolve_active(projects: &Vec<ProjectView>, key: Option<&String>) -> (r: Option<ProjectView>)
    ensures
        key is None ==> r is None,
        forall|k: &String| key == Some(k) ==> match r {
            Some(v) => exists|i: int| #[trigger] is_active_match(projects@, k@, i) && same_view(v, projects@[i]),
            None => forall|i: int|
                0 <= i < projects@.len() ==> !(path_id(#[trigger] projects@[i].key@) == path_id(k@) && projects@[i].port is Some),
        },
{
    match key {
        None => None,
        Some(k) => {
            let want = path_key(k.as_str());
            let mut i: usize = 0;
            while i < projects.len()
                invariant
                    key == Some(k),
                    want.id() == path_id(k@),
                    i <= projects@.len(),
                    forall|j: int|
                        0 <= j < i ==> !(path_id(#[trigger] projects@[j].key@) == path_id(k@) && projects@[j].port is Some),
                decreases projects@.len() - i,
            {
                let p = &projects[i];
                let here = path_key(p.key.as_str());
                if p.port.is_some() && same_key(&here, &want) {
                    let v = ProjectView {
                        key: p.key.clone(),
                        display_path: p.display_path.clone(),
                        display_name: p.display_name.clone(),
                        state: p.state,
                        port: p.port,
                    };
                    assert(is_active_match(projects@, k@, i as int));
                    assert(same_view(v, projects@[i as int]));
                    return Some(v);
                }
                i += 1;
            }
            None
        },
    }
}

/// Each state has a label of its own, and only a healthy project shows a
/// port: no two kinds of state look alike in the launcher.
pub proof fn law_each_state_has_its_own_label<C>(s: ProjectState<C>)
    ensures
        state_label(s) == "spawning"@ <==> s is Spawning,
        state_label(s) == "healthy"@ <==> s is Healthy,
        state_label(s) == "evicting"@ <==> s is Evicting,
        state_label(s) == "dead"@ <==> s is Dead,
        port_of(s) is Some <==> s is Healthy,
{
    reveal_strlit("spawning");
    reveal_strlit("healthy");
    reveal_strlit("evicting");
    reveal_strlit("dead");
    assert("spawning"@.len() == 8 && "healthy"@.len() == 7 && "evicting"@.len() == 8 && "dead"@.len() == 4);
    assert("evicting"@[0] != "spawning"@[0]);
}

} // verus!
