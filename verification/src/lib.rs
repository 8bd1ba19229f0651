//! Peer protocol of a node in a block-propagating network.
//!
//! The decisions of the protocol are here, free of sockets, tasks and clocks:
//! how two peers authenticate each other ([`handshake`]), how one peer's channel
//! is served ([`node`], [`writer`]), and how all channels are kept track of
//! ([`controller`]). Each of them turns an event into a new state and a list of
//! actions for the caller to perform. [`behaviour`] states what comes of each event,
//! and [`laws`] what holds across the parts and across many events.
pub mod active_nodes;
pub mod behaviour;
pub mod controller;
pub mod entropy;
pub mod event;
pub mod handshake;
pub mod identity;
pub mod laws;
pub mod message;
pub mod node;
pub mod writer;
