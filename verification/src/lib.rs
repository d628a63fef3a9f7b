//! Dock panels as first-class citizens: persistent identity, lifecycle state
//! and a dispatcher that keeps exactly one citizen active and queues the
//! lifecycle messages for the backend side.
//!
//! - `CitizenState`: per-panel reactive state, shared by every clone.
//! - `CitizenMessage`: lifecycle events routed to backend threads.
//! - `Dispatcher`: registers citizens, activates one at a time and queues
//!   the messages that `drain_messages()` hands out. It decides over plain
//!   flag values; reading and writing the shared cells is left to the caller.

pub mod dispatcher;
pub mod laws;
pub mod message;
mod reactive;
mod state;

pub use dispatcher::Dispatcher;
pub use message::{CitizenId, CitizenMessage};
pub use state::CitizenState;
