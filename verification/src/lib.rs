//! A realtime fan-out hub.
//!
//! Clients hold persistent duplex connections and submit typed JSON events;
//! the hub rebroadcasts `user_update` events to every other admitted client.
//! The crate verifies the hub's core: the client registry, the message
//! protocol (classification, envelope normalization, payload construction),
//! and the admission/teardown lifecycle. Network plumbing stays outside.

pub mod channel;
pub mod json;
pub mod protocol;
pub mod registry;
pub mod hub;

