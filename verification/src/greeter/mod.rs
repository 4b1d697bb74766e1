//! The greeter: its arguments, the session that joins a face to a
//! conversation, and what it tells a tool that watches it.

pub mod cli;
pub mod mcp;
pub mod session;
