//! Decision logic of the beans project daemon: the project registry and its
//! state machine, LRU eviction, the control-socket request handlers, the
//! supervisor's start/stop transitions, launcher views and path rendering.
//! Sockets, processes, HTTP and the async runtime live in `app/`.

pub mod clock;
pub mod keyed;
pub mod beansd;
pub mod paths;
pub mod rpc;
pub mod config;
pub mod beans_daemon;
