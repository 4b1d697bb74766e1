//! The host side: libpam's numbers, the transactions that are open, and the
//! bridge between libpam, which pushes, and the border, which pulls.

pub mod authenticate;
pub mod bridge;
pub mod bridging_conv;
pub mod codes;
pub mod env;
