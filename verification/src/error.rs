//! Error kinds shared by the codec and the protocol state machines.

use vstd::prelude::*;
use crate::message::MessageType;

verus! {

/// Why an operation of this crate did not produce a value.
///
/// Every kind but [`PgError::Incomplete`] and [`PgError::ServerError`] is fatal
/// to the session: after it the byte stream can no longer be trusted to be
/// message-aligned.
#[derive(Clone, Copy, Debug, PartialEq, Eq, Structural)]
pub enum PgError {
    /// A fixed-width field was read with too few bytes left after the cursor.
    OutOfBounds,
    /// No zero byte follows the cursor before the end of the buffer.
    UnterminatedString,
    /// A string to be written holds a zero byte of its own.
    InvalidString,
    /// The tag byte names no message type known to this crate.
    UnknownMessageType(u8),
    /// A length field is too small for its message or larger than
    /// [`crate::message::MAX_FRAME_LEN`], or a body has not the size its type fixes.
    InvalidLength,
    /// The server asks for an authentication exchange other than "ok".
    UnsupportedAuthMethod(i32),
    /// The status byte of a ready-for-query message is none of `I`, `T`, `E`.
    UnknownSessionStatus,
    /// A message arrived that the current state does not accept. The first
    /// field is the type that the state needs to move on, `None` where the
    /// state expects no message at all; the second is the type that arrived.
    ProtocolSequenceViolation(Option<MessageType>, MessageType),
    /// The server answered the query with an error response, whose body the
    /// query cycle keeps. The session stays usable.
    ServerError,
    /// The session was closed.
    ConnectionClosed,
    /// Not a failure: the buffer ends before the message does, and the caller
    /// retries once more bytes have arrived.
    Incomplete,
}

} // verus!
