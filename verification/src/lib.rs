//! Presence counting for a real-time channel.
//!
//! Clients report an identity (an address string). The registry counts how
//! many distinct identities hold at least one open session, so several
//! connections of one identity count once. The router decides, for each
//! inbound event of a session, how the registry changes and to whom the new
//! count is pushed; the transport that delivers events and performs the
//! pushes lives outside this crate.
//!
//! - [`model`]: the registry as a finite map, and what a join and a leave
//!   do to it.
//! - [`registry`]: [`UserCounter`], the executable registry.
//! - [`session`]: [`Session`], the state of one connection.
//! - [`router`]: [`EventRouter`], the transition of registry and session
//!   under each event, and the push that follows.
//! - [`history`]: laws of the registry over every sequence of calls.
//! - [`presence`]: laws of registry and sessions taken together.

pub mod history;
pub mod model;
pub mod presence;
pub mod registry;
pub mod router;
pub mod session;

pub use crate::registry::UserCounter;
pub use crate::router::{Action, Event, EventRouter};
pub use crate::session::{Session, State};
