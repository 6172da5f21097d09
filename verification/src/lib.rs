//! The bridging engine of a gateway that presents a federated chat service
//! to a single IRC client.
//!
//! The engine owns no sockets. It is a set of state machines: callers feed it
//! client commands and remote events, and it answers with the messages to
//! write to the client and the actions to perform against the remote service.

pub mod action;
pub mod bridge;
pub mod dedup;
pub mod events;
pub mod model;
pub mod protocol;
pub mod room;
pub mod text;
