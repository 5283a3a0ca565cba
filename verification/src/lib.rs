//! Networking service of a blockchain node that takes part in several overlay networks at once.
//!
//! The connection layer (dialing, encryption, substreams) and the codecs of the individual
//! messages live elsewhere. This crate holds the decisions between the two: which protocols are
//! registered and under which index, which request goes to which protocol, how an event of the
//! connection layer is turned into an event of the service, which handshake a substream is opened
//! or accepted with, and how a warp sync response is taken apart.

pub mod announce;
pub mod bytes;
pub mod codecs;
pub mod config;
pub mod connection;
pub mod discovery;
pub mod event;
pub mod laws;
pub mod laws_of_bytes;
pub mod laws_of_config;
pub mod laws_of_events;
pub mod laws_of_requests;
pub mod laws_of_wire;
pub mod request;
pub mod scale;
pub mod service;
pub mod substream;
pub mod types;
pub mod warp_sync;
