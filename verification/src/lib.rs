//! A broker for game-server connections: a two-phase token handshake that
//! admits a server instance into an in-memory registry, and a heartbeat
//! failure detector that pings idle instances and evicts silent ones.
//!
//! All state lives in [`state::AppState`]: the registrations that wait for
//! verification ([`pending::PendingStore`]) and the live servers
//! ([`registry::Registry`]). Identity lookup and the delivery of messages
//! over the out-of-band channel belong to the caller: operations take
//! resolved values and hand back the messages that are to be published.
//! Operations that depend on the time come in two forms, one that reads the
//! clock and one that takes the instant.
//!
//! [`laws`] states what holds across several operations.

pub mod clock;
pub mod error;
pub mod keyed;
pub mod laws;
pub mod model;
pub mod pending;
pub mod registry;
pub mod state;
pub mod token;
