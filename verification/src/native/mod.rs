//! Verification without libpam: the shadow file, the hashes, and the session
//! that is registered with logind.

pub mod logind;
pub mod shadow;
pub mod verify;
