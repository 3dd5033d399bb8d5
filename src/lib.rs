//! A minimal routing-protocol speaker: message framing, OPEN and capability
//! decoding, the peer session's decisions and a sorted neighbor registry.
pub mod buffer;
pub mod error;
pub mod message;
pub mod neighbor;
pub mod open;
pub mod session;
pub mod wire;
