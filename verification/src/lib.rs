//! A single-socket QUIC server core: every datagram is classified, routed to
//! the connection it belongs to, fed to that connection's protocol engine and
//! answered with whatever the engine wants on the wire.
//!
//! The protocol engine is the `quiche` crate. The socket stays with the
//! caller: the library takes the bytes of one datagram at a time and hands
//! back the datagrams to send.
//!
//! - [`wire`] reads the unprotected header of a datagram and builds the
//!   version-negotiation reply.
//! - [`table`] maps connection identifiers to connection states.
//! - [`responder`] decides when a connection sends its one greeting.
//! - [`engine`] holds the calls into the protocol engine.
//! - [`dispatcher`] runs the cycle of one datagram and the sweep of closed
//!   connections.
//! - [`history`] states what holds of a connection over a run of cycles.
//! - [`config`] holds the transport parameters and hands them to the engine.
//! - [`outside`] declares the engine's types that pass through the library.

pub mod config;
pub mod dispatcher;
pub mod engine;
pub mod history;
pub mod outside;
pub mod responder;
pub mod table;
pub mod wire;
