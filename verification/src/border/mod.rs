//! The login border: the names, the proofs, the seam to an environment, and
//! the two drivers (a conversation, a session start) that run across it.

pub mod capability;
pub mod conversation;
pub mod coverage;
pub mod env;
pub mod env_set;
pub mod ids;
pub mod session;
pub mod surface;
pub mod mock;
