//! Client-side handshake and connection state machine of a UDP
//! voice-protocol client.
//!
//! The crate drives a client from a bare transport through the
//! challenge/response init exchange, the proof-of-work puzzle and the
//! key-material negotiation into a connected session.  Transport I/O,
//! packet (de)serialisation and the ECC primitives live outside; this
//! library holds the state machine, the validation rules and the
//! bookkeeping around them.

pub mod algorithms;
pub mod b64;
pub mod client;
pub mod connection;
pub mod entropy;
pub mod handler;
pub mod packets;
pub mod sink;
