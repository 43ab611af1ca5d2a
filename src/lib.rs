//! Verified core of a peer-to-peer file hand-over service: the rendezvous
//! registry that brokers the connection exchange between a host and a client,
//! and the chunked transfer protocol that runs over the peers' data channel.
pub mod client_flow;
pub mod code;
pub mod config;
pub mod file_tag;
pub mod handoff;
pub mod keys;
pub mod page;
pub mod protocol;
pub mod receiver;
pub mod registry;
pub mod request;
pub mod signal;
pub mod store;
pub mod text;
pub mod transfer;
pub mod ws_signal;
