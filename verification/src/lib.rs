//! Media over QUIC: the wire messages, session state machines and CMAF packaging rules.

pub mod cli;
pub mod coding;
pub mod coding_laws;
pub mod error;
pub mod failover;
pub mod ietf;
pub mod libmoq;
pub mod lite;
pub mod mux;
pub mod path;
pub mod reconnect;
pub mod relay;
pub mod session;
pub mod text;
pub mod time;
