//! The control-socket protocol shared by the daemon and its command-line client.

pub mod types;
pub mod client;
pub mod socket;
