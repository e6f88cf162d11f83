//! Error kinds of the library, and the three-way result of incremental
//! parsing.

use vstd::prelude::*;

verus! {

/// Why a packet or its body could not be decoded.
#[derive(Debug, Copy, Clone, Eq, PartialEq, Hash, Structural)]
pub enum ParseError {
    /// The body is not valid JSON.
    Json,
    /// The body is not exactly one big-endian 32-bit integer.
    Int32BE,
    /// The zlib stream of a compressed body is corrupt.
    Zlib,
    /// The brotli stream of a compressed body is corrupt.
    Brotli,
    /// The header or the body of a frame is malformed.
    PacketFormat,
    /// The protocol tag of the header names no known protocol.
    UnknownProtocol,
}

/// Why a session configuration could not be built from the answers of the
/// HTTP interface.
#[derive(Debug, Copy, Clone, Eq, PartialEq, Hash, Structural)]
pub enum BuildError {
    /// The answer to the room query does not point to a room page.
    RoomId,
    /// The answer to the configuration query lists no server.
    NoServers,
    /// A session token was given, but no answer to the user query.
    MissingUser,
}

/// What went wrong with the transport under a stream.
#[derive(Debug, Copy, Clone, Eq, PartialEq, Hash, Structural)]
pub enum TransportError {
    /// The WebSocket handshake failed.
    Handshake,
    /// Reading from or writing to the socket failed.
    Io,
    /// The peer closed the connection, or the underlying stream ended.
    Closed,
}

/// An error that a stream hands to its consumer.
#[derive(Debug, Copy, Clone, Eq, PartialEq, Hash, Structural)]
pub enum StreamError {
    /// A frame could not be decoded; the frame is dropped and the stream
    /// goes on.
    Parse(ParseError),
    /// A packet arrived that the state of the session does not allow; the
    /// packet is dropped and the stream goes on.
    Protocol,
    /// The transport failed; the stream reconnects and goes on.
    IoError,
    /// The transport failed once more than the retry policy allows; the
    /// stream has ended.
    MaxRetriesExceeded,
}

/// How many more bytes a parser needs before it can decide.
#[derive(Debug, Copy, Clone, Eq, PartialEq, Hash, Structural)]
pub enum Needed {
    /// More input is needed, and the input seen so far does not say how much.
    Unknown,
    /// At least this many more bytes are needed; the number is never zero.
    Size(usize),
}

/// The result of parsing input that may still be growing.
#[derive(Debug, Eq, PartialEq)]
pub enum IncompleteResult<T> {
    /// The input held a complete value.
    Complete(T),
    /// The input is a proper prefix of something that may still parse.
    Incomplete(Needed),
    /// The input cannot be completed into a valid value.
    Error(ParseError),
}

impl<T: View> View for IncompleteResult<T> {
    type V = IncompleteResult<T::V>;

    open spec fn view(&self) -> IncompleteResult<T::V> {
        match *self {
            IncompleteResult::Complete(t) => IncompleteResult::Complete(t@),
            IncompleteResult::Incomplete(needed) => IncompleteResult::Incomplete(needed),
            IncompleteResult::Error(e) => IncompleteResult::Error(e),
        }
    }
}

} // verus!
