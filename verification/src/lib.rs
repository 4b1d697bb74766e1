//! mukae: a login manager whose rules are proved.
//!
//! The library holds what a login manager decides: which names parse, which
//! conversation yields a proof, which calls start a session and in which order,
//! what a declaration lowers to, what a stored hash accepts, what goes on a
//! wire. It opens no device, reads no file and starts no process.

pub mod border;
pub mod face;
pub mod greetd;
pub mod greeter;
pub mod host;
pub mod introspect;
pub mod lisp;
pub mod native;
pub mod seat;
pub mod text;

pub use border::capability::{AuthMethod, AuthProof, Authenticated, Denied, SeatCapability};
pub use border::conversation::{Ask, Conversation, Face, Outcome};
pub use border::env::{PamAnswer, PamStep, SeatEnv};
pub use border::ids::{SeatId, Uid, UserName};
pub use border::session::{start_session, Argv, SessionHandle, SessionPlan};
