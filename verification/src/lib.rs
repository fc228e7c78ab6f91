//! Core of a reverse-tunnelling relay: a server that takes public traffic on
//! shared addresses and forwards it, across a NAT boundary, to one of many
//! authenticated private clients.
//!
//! Every function here carries a contract that Verus proves. Sockets, timers
//! and task scheduling live outside this crate: the engine is written as
//! functions from a state and an event to the next state and an action, and
//! the caller performs the action.
//!
//! - [`proto`], [`wire`], [`encoding`], [`codec`]: the control messages,
//!   their bytes, and the frames that carry them; a message that is written
//!   down is read back as itself.
//! - [`http`], [`sni`], [`minecraft`]: the sniffers that read a routing key
//!   from the first bytes of a public connection.
//! - [`tunnel`], [`registry`]: the state of one tunnel, and the map from
//!   tunnel id to state.
//! - [`control`], [`client`]: the decisions of the control protocol on the
//!   relay's side and on the client's side.
//! - [`relay`]: routing a public connection and its rendezvous with a data
//!   connection, with the ordering laws of the queue of pending connections.
//! - [`admin`], [`server`]: creating tunnels, and what the relay is started
//!   with.
//! - [`cli`], [`origin`]: what the command line front-end computes.
//! - [`text`], [`varint`], [`types`], [`error`]: shared pieces.

pub mod admin;
pub mod cli;
pub mod client;
pub mod codec;
pub mod control;
pub mod encoding;
pub mod error;
pub mod http;
pub mod minecraft;
pub mod origin;
pub mod proto;
pub mod registry;
pub mod relay;
pub mod server;
pub mod sni;
pub mod text;
pub mod tunnel;
pub mod types;
pub mod varint;
pub mod wire;
