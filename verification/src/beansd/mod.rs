//! The daemon: registry, eviction, request handlers, supervisor, launcher views.

pub mod registry;
pub mod daemon;
pub mod views;
pub mod eviction;
pub mod supervisor;
pub mod health;
pub mod spawner;
pub mod launcher;
