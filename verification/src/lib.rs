//! A sans-I/O secure transport stack for two peers: multistream protocol
//! negotiation, a Noise XX secure session, and an mplex-style stream
//! multiplexer. Every layer is a state machine from state and event to next
//! state and action; the caller moves the bytes.

pub mod buffer;
pub mod catalogue;
pub mod command;
pub mod connection;
pub mod error;
pub mod frame;
pub mod muxer;
pub mod negotiation;
pub mod noise;
pub mod ping;
pub mod record;
pub mod session;
pub mod shell;
pub mod text;
