//! Error taxonomy of the protocol core.
//!
//! Framing errors (`PacketTooLarge`, `PacketTooSmall`, `PacketUnknownId`) and
//! codec errors are fatal for the connection that raises them: once a frame is
//! malformed the cipher stream cannot be resynchronised.

use vstd::prelude::*;

verus! {

/// Why a connection stopped: the peer closed it, a read or a write on the
/// socket failed, or a protocol violation was detected.
#[derive(Debug, Clone, PartialEq, Eq)]
pub enum ConnectionClosedError {
    /// The remote host closed the connection.
    Disconnected,
    /// A socket read failed.
    ReadError,
    /// A socket write failed.
    WriteError,
    /// A protocol violation closed the connection.
    ProtocolError,
}

/// Every failure the protocol core can report.
#[derive(Debug, Clone, PartialEq, Eq)]
pub enum ProtocolError {
    /// A cipher or registry operation failed.
    GenericError,
    /// An inbound frame carried a message id that no catalog entry matches.
    PacketUnknownId(i32),
    /// A frame length field exceeded the hard cap.
    PacketTooLarge(usize),
    /// A frame length field was below the 8-byte header size.
    PacketTooSmall(usize),
    /// A varint length was too large for the 3-byte encoding.
    CodecVarIntTooLarge,
    /// A decoded string was not valid UTF-8.
    CodecUtf8DecodeError,
    /// An enum codec read an ordinal that maps to no variant; carries the
    /// ordinal and the enum's name.
    EnumInvalidOrdinal(u64, String),
    /// The `Unknown` sentinel of an enum cannot be transmitted.
    EnumUnknown,
    /// The byte stream ended inside a value, or another I/O failure.
    IOError,
    /// The connection has been closed.
    ConnectionClosed(ConnectionClosedError),
    /// An operation that needs an open connection hit closure.
    ConnectionAborted,
    /// The handshake saw a packet other than the one it requires.
    UnexpectedPacket,
}

} // verus!
