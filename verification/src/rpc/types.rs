//! Replies of the control-socket operations.
use vstd::prelude::*;

verus! {

/// State of a project as reported to clients.
#[derive(Debug, Clone, Copy, PartialEq, Eq)]
pub enum ProjectState {
    Spawning,
    Healthy,
    Evicting,
    Dead,
}

#[derive(Debug, PartialEq, Eq)]
pub struct ProjectSummary {
    pub key: String,
    pub display_name: String,
    pub state: ProjectState,
    pub port: Option<u16>,
}

/// What a `cd` did.
#[derive(Debug, PartialEq, Eq)]
pub enum CdResponse {
    NotRegistered,
    Bumped { key: String },
    Spawned { key: String },
}

#[derive(Debug, PartialEq, Eq)]
pub struct LsResponse {
    pub projects: Vec<ProjectSummary>,
}

/// What a `start` did.
#[derive(Debug, Clone, Copy, PartialEq, Eq)]
pub enum StartResponse {
    AlreadyActive,
    Spawning,
}

#[derive(Debug, Clone, Copy, PartialEq, Eq)]
pub struct StatusResponse {
    pub registry_size: usize,
    pub active: usize,
    pub lru_cap: usize,
}

} // verus!
