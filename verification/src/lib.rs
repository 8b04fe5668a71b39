//! A minimal BGP-4 speaker: the wire codec for Open, Keepalive and Update
//! messages, the routing information bases, and the per-peer session state
//! machine, with their behaviour stated in contracts and machine-checked.
//!
//! The library computes and decides; it does no input or output. A program
//! around it owns the sockets and the kernel's routing table: it hands the
//! library the bytes that arrive and the routes it has read, and carries out
//! the [`peer::Action`] that each step of a session asks for.
//!
//! - [`packets`], [`path_attribute`] and the prefix part of [`routing`] are
//!   the wire codec. `packets::message` proves that decoding and encoding
//!   invert each other.
//! - [`routing`] holds the routes a speaker takes to be true and the routes
//!   it advertises to a peer.
//! - [`peer`] is the session state machine, with [`event`], [`event_queue`]
//!   and [`state`]; it proves that two started speakers get established.
//! - [`connection`] says which end of the TCP connection a speaker takes and
//!   cuts the stream that arrives into messages.
//! - [`config`] and [`text`] read the configuration line.
//! - [`buffer`] and two functions of [`routing`] are where the library calls
//!   the `bytes` and `ipnetwork` crates, on contracts taken on trust.

pub mod autonomous_system_number;
pub mod bgp_type;
pub mod buffer;
pub mod config;
pub mod connection;
pub mod error;
pub mod event;
pub mod event_queue;
pub mod packets;
pub mod path_attribute;
pub mod peer;
pub mod routing;
pub mod state;
pub mod text;
pub mod wire;
