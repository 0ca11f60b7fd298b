//! The launcher's list of projects as its first pages showed it: key, name,
//! state label and port.
use vstd::prelude::*;
use crate::beansd::registry::{Project, ProjectState, Registry};
use crate::beansd::daemon::port_of;
use crate::beansd::views::state_label;

verus! {

#[derive(Debug)]
pub struct ProjectView {
    pub key: String,
    pub display_name: String,
    pub state: &'static str,
    pub port: Option<u16>,
}

pub open spec fn view_matches<C>(v: ProjectView, p: Project<C>) -> bool {
    &&& v.key == p.key
    &&& v.display_name == p.display_name
    &&& v.state@ == state_label(p.state)
    &&& v.port == port_of(p.state)
}

/// One view per registered project, in registry order.
pub fn project_views<C>(reg: &Registry<C>) -> (r: Vec<ProjectView>)
    ensures
        r@.len() == reg@.len(),
        forall|i: int| 0 <= i < reg@.len() ==> view_matches(#[trigger] r@[i], reg@[i]),
{
    let all = reg.iter();
    let mut out: Vec<ProjectView> = Vec::new();
    let mut i: usize = 0;
    while i < all.len()
        invariant
            all@ == reg@,
            i <= all@.len(),
            out@.len() == i,
            forall|j: int| 0 <= j < i ==> view_matches(#[trigger] out@[j], reg@[j]),
        decreases all@.len() - i,
    {
        let p = &all[i];
        let (state, port): (&'static str, Option<u16>) = match &p.state {
            ProjectState::Spawning => ("spawning", None),
            ProjectState::Healthy { port, .. } => ("healthy", Some(*port)),
            ProjectState::Evicting => ("evicting", None),
            ProjectState::Dead { .. } => ("dead", None),
        };
        out.push(ProjectView { key: p.key.clone(), display_name: p.display_name.clone(), state, port });
        i += 1;
    }
    out
}

} // verus!
