//! A realtime presence-and-messaging relay: the envelope codec, the registry
//! of connected sessions, and the rules by which one connection's frames are
//! routed to the others.

pub mod codec;
pub mod envelope;
pub mod json;
pub mod laws;
pub mod registry;
pub mod relay;
pub mod roster;
pub mod session;
pub mod text;

pub use codec::DecodeError;
pub use envelope::{Data, MsgType, User};
pub use registry::{Sweep, UsersState};
pub use relay::{Connection, Handshake, Inbound, Routed, SessionState};
pub use session::{Frame, Session};
