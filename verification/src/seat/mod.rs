//! The seat daemon: its configuration, what it publishes, what passes between
//! it and the greeter, and how it starts a session.

pub mod config;
pub mod introspect;
pub mod ipc;
pub mod env;
pub mod spawn;
pub mod vt;
pub mod daemon;
pub mod supervise;
