//! The single-binary daemon: registry, control-socket handlers, supervisor
//! transitions, wire protocol and project-key resolution.

pub mod registry;
pub mod protocol;
pub mod project_key;
pub mod control;
pub mod supervisor;
