//! The closed set of ways one handshake attempt can fail.
use vstd::prelude::*;

verus! {

/// Transport-level reason a connection could not be opened or kept.
#[derive(Debug, Clone, Copy, PartialEq, Eq, Structural)]
pub enum ConnectFailure {
    Refused,
    Reset,
    TimedOut,
    Unreachable,
    Other,
}

/// Why a handshake attempt failed.
#[derive(Debug, Clone, Copy, PartialEq, Eq, Structural)]
pub enum HandshakeError {
    /// The peer string names no usable address.
    AddressResolution,
    /// The transport could not be opened or failed underneath us.
    Connect(ConnectFailure),
    /// The peer closed the stream before a whole frame arrived.
    ShortRead,
    /// No bytes arrived within the read deadline.
    Timeout,
    /// The frame's network identifier is not ours.
    BadMagic,
    /// The payload does not match the header checksum.
    ChecksumMismatch,
    /// A message was requested with arguments it cannot carry.
    InvalidArgument,
    /// The peer did not complete the handshake before the deadline.
    HandshakeTimeout,
    /// The system clock reads earlier than the Unix epoch.
    Clock,
}

impl HandshakeError {
    /// Whether another attempt on the same peer may succeed.
    pub open spec fn spec_is_retryable(self) -> bool {
        !(self is AddressResolution || self is InvalidArgument || self is Clock)
    }

    /// Connection and protocol failures are retried; resolution and
    /// construction failures are not.
    pub fn is_retryable(&self) -> (r: bool)
        ensures
            r == self.spec_is_retryable(),
    {
        match self {
            HandshakeError::AddressResolution => false,
            HandshakeError::InvalidArgument => false,
            HandshakeError::Clock => false,
            _ => true,
        }
    }

    /// Human-readable classification used in diagnostics.
    pub open spec fn spec_describe(self) -> Seq<char> {
        match self {
            HandshakeError::AddressResolution => "Invalid address"@,
            HandshakeError::Connect(ConnectFailure::Refused) => "Connection refused"@,
            HandshakeError::Connect(ConnectFailure::Reset) => "Connection reset by peer"@,
            HandshakeError::Connect(ConnectFailure::TimedOut) => "Connection timed out"@,
            HandshakeError::Connect(ConnectFailure::Unreachable) => "Network is unreachable"@,
            HandshakeError::Connect(ConnectFailure::Other) => "IO error"@,
            HandshakeError::ShortRead => "Peer closed connection unexpectedly"@,
            HandshakeError::Timeout => "Read timed out"@,
            HandshakeError::BadMagic => "Invalid magic"@,
            HandshakeError::ChecksumMismatch => "Checksum mismatch"@,
            HandshakeError::InvalidArgument => "start_height must be non-negative"@,
            HandshakeError::HandshakeTimeout => "Handshake timed out"@,
            HandshakeError::Clock => "Failed to get system time"@,
        }
    }

    pub fn describe(&self) -> (r: String)
        ensures
            r@ == self.spec_describe(),
    {
        let s = match self {
            HandshakeError::AddressResolution => "Invalid address",
            HandshakeError::Connect(ConnectFailure::Refused) => "Connection refused",
            HandshakeError::Connect(ConnectFailure::Reset) => "Connection reset by peer",
            HandshakeError::Connect(ConnectFailure::TimedOut) => "Connection timed out",
            HandshakeError::Connect(ConnectFailure::Unreachable) => "Network is unreachable",
            HandshakeError::Connect(ConnectFailure::Other) => "IO error",
            HandshakeError::ShortRead => "Peer closed connection unexpectedly",
            HandshakeError::Timeout => "Read timed out",
            HandshakeError::BadMagic => "Invalid magic",
            HandshakeError::ChecksumMismatch => "Checksum mismatch",
            HandshakeError::InvalidArgument => "start_height must be non-negative",
            HandshakeError::HandshakeTimeout => "Handshake timed out",
            HandshakeError::Clock => "Failed to get system time",
        };
        String::from_str(s)
    }
}

} // verus!
