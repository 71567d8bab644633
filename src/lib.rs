//! A WebSocket (RFC 6455) library: frame codec, message reassembly,
//! opening handshake and the split sender/receiver session halves.
//!
//! The library performs no I/O itself. Bytes read from a transport are handed
//! to a `Receiver`, and a `Sender` appends the bytes that must be written.

pub mod result;
pub mod dataframe;
pub mod mask;
pub mod header;
pub mod util;
pub mod message;
pub mod sender;
pub mod receiver;
pub mod headers;
pub mod http;
pub mod handshake;
pub mod extensions;
pub mod client;
pub mod session;
pub mod server;
