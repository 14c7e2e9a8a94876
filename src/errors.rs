//! The ways in which an engine operation can fail.
use vstd::prelude::*;

verus! {

/// Why a packet was dropped or an operation refused.
#[derive(Debug, Clone, Copy, PartialEq, Eq, Structural)]
pub enum WireGuardError {
    DestinationBufferTooSmall,
    IncorrectPacketLength,
    UnexpectedPacket,
    WrongPacketType,
    WrongIndex,
    WrongKey,
    InvalidTai64nTimestamp,
    WrongTai64nTimestamp,
    InvalidMac,
    InvalidAeadTag,
    InvalidCounter,
    DuplicateCounter,
    InvalidPacket,
    NoCurrentSession,
    LockFailed,
    ConnectionExpired,
    UnderLoad,
    /// The operating system's random source failed.
    RandomUnavailable,
}

} // verus!
