//! Bearer-token session resolution: header classification, a session cache,
//! the binary token framing, the resolver state machine and OAuth issuance.

pub mod codec;
pub mod session;
pub mod cache;
pub mod header;
pub mod resolver;
pub mod issuer;
pub mod cli;
