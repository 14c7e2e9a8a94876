//! A single-peer WireGuard tunnel endpoint: the Noise handshake, transport
//! encryption with anti-replay, key rotation and the timers that drive it.

pub mod bytes;
pub mod crypto;
pub mod replay;
pub mod messages;
pub mod errors;
pub mod session;
pub mod timers;
pub mod noise;
pub mod tunnel;
pub mod keys;
pub mod device;
