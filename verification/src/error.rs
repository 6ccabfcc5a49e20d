//! The failures a channel can report.

use vstd::prelude::*;

verus! {

/// Why a channel operation failed.
#[derive(Debug, Clone, Copy, PartialEq, Eq, Structural)]
pub enum ChannelError {
    /// The local address could not be bound.
    BindError,
    /// The peer could not be reached or refused the connection.
    ConnectError,
    /// A read or write on the transport failed, the peer went away, or the
    /// transport delivered something that is not a whole frame.
    IoError,
    /// The peer's layout signature differs from the local one.
    SignatureMismatch,
    /// A send was attempted before any peer was established.
    NoPeerConnected,
    /// A byte that names no control signal was received; the byte is carried.
    InvalidEnumTag(u8),
    /// The channel cannot carry such frames: one frame would be longer than
    /// the machine can address.
    Unsupported,
}

} // verus!
