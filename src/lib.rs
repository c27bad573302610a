//! Window-focus and idle-time watchers of an activity-reporting agent.
//!
//! The library holds the decisions of both watchers as verified code:
//! the registry of open windows that protocol events update
//! ([`toplevel`]), and the idle/active transition that turns an idle-time
//! sample into heartbeats ([`idle`]). Talking to the compositor, reading the
//! idle counter and sending the heartbeats is left to the caller.

mod error;
pub mod idle;
pub mod toplevel;

pub use error::WatcherError;
pub use idle::{IdleTick, IdleWatcher, Ping};
pub use toplevel::{EventOutcome, ToplevelEvent, ToplevelState, WindowRecord, WlrForeignToplevelWatcher};
