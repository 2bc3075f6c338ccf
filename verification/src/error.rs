//! What can go wrong while bytes are turned into packets and back.

use vstd::prelude::*;

verus! {

/// The coarse class of a failure, after the classes of `std::io::ErrorKind`
/// that the wire codec distinguishes.
#[derive(Clone, Copy, Debug, PartialEq, Eq, Structural)]
pub enum ErrorKind {
    /// The input holds something that the wire format rules out.
    InvalidData,
    /// A value handed to the codec cannot be written in the wire format.
    InvalidInput,
    /// The input ends before the value that is being read does.
    UnexpectedEof,
    /// The input is well formed, but asks for something that is not offered.
    Other,
}

/// A failure of the wire codec, with what caused it.
#[derive(Clone, Copy, Debug, PartialEq, Eq, Structural)]
pub enum ProtocolError {
    /// The input ends before the value that is being read does.
    UnexpectedEof,
    /// The fifth byte of a variable-length integer asks for a sixth.
    VarintTooLong,
    /// A length prefix denotes a negative number.
    NegativeLength(i32),
    /// A length to be written does not fit the 32-bit signed prefix.
    LengthOutOfBounds,
    /// A number to be written as a variable-length integer is larger than
    /// the largest 32-bit signed number.
    ValueOutOfBounds(u32),
    /// The bytes of a string are not valid UTF-8.
    InvalidUtf8,
    /// The packet id is not one that the connection state knows.
    UnexpectedPacketId(u8),
    /// The packet id is known, but packets of that kind are not decoded.
    UnsupportedPacket(u8),
    /// The handshake's next state is neither status nor login.
    InvalidNextState(u8),
    /// A presence byte is neither 0 nor 1.
    InvalidBoolean(u8),
    /// A server address of more than 255 bytes.
    AddressTooLong,
    /// A player name of more than 16 bytes.
    NameTooLong,
    /// The handshake names a protocol version that is not supported.
    UnsupportedVersion(i32),
    /// The packet belongs to a protocol version that connections are not
    /// served in.
    UnservedVersion(i32),
    /// The packet is none that a connection is served for.
    UnhandledPacket,
    /// The packet decoder left this many bytes of its frame unread.
    TrailingBytes(usize),
    /// The bytes do not follow the fixed layout of the legacy ping.
    InvalidLegacyPing,
    /// No packet travels in that direction in the handshaking state.
    NoSuchPacket,
    /// A byte was pushed into a reader that had already produced its value.
    ReaderComplete,
    /// A length was asked for before the bytes that encode it had been read.
    LengthUnknown,
}

impl ProtocolError {
    /// The class of each failure.
    pub open spec fn spec_kind(self) -> ErrorKind {
        match self {
            ProtocolError::UnexpectedEof => ErrorKind::UnexpectedEof,
            ProtocolError::VarintTooLong => ErrorKind::InvalidData,
            ProtocolError::NegativeLength(_) => ErrorKind::InvalidData,
            ProtocolError::LengthOutOfBounds => ErrorKind::InvalidInput,
            ProtocolError::ValueOutOfBounds(_) => ErrorKind::InvalidData,
            ProtocolError::InvalidUtf8 => ErrorKind::InvalidData,
            ProtocolError::UnexpectedPacketId(_) => ErrorKind::InvalidData,
            ProtocolError::UnsupportedPacket(_) => ErrorKind::Other,
            ProtocolError::InvalidNextState(_) => ErrorKind::InvalidData,
            ProtocolError::InvalidBoolean(_) => ErrorKind::InvalidData,
            ProtocolError::AddressTooLong => ErrorKind::InvalidInput,
            ProtocolError::NameTooLong => ErrorKind::InvalidData,
            ProtocolError::UnsupportedVersion(_) => ErrorKind::Other,
            ProtocolError::UnservedVersion(_) => ErrorKind::InvalidData,
            ProtocolError::UnhandledPacket => ErrorKind::Other,
            ProtocolError::TrailingBytes(_) => ErrorKind::Other,
            ProtocolError::InvalidLegacyPing => ErrorKind::InvalidData,
            ProtocolError::NoSuchPacket => ErrorKind::InvalidInput,
            ProtocolError::ReaderComplete => ErrorKind::InvalidInput,
            ProtocolError::LengthUnknown => ErrorKind::InvalidData,
        }
    }

    /// The class of this failure.
    #[verifier::when_used_as_spec(spec_kind)]
    pub fn kind(self) -> (kind: ErrorKind)
        ensures
            kind == self.spec_kind(),
    {
        match self {
            ProtocolError::UnexpectedEof => ErrorKind::UnexpectedEof,
            ProtocolError::VarintTooLong => ErrorKind::InvalidData,
            ProtocolError::NegativeLength(_) => ErrorKind::InvalidData,
            ProtocolError::LengthOutOfBounds => ErrorKind::InvalidInput,
            ProtocolError::ValueOutOfBounds(_) => ErrorKind::InvalidData,
            ProtocolError::InvalidUtf8 => ErrorKind::InvalidData,
            ProtocolError::UnexpectedPacketId(_) => ErrorKind::InvalidData,
            ProtocolError::UnsupportedPacket(_) => ErrorKind::Other,
            ProtocolError::InvalidNextState(_) => ErrorKind::InvalidData,
            ProtocolError::InvalidBoolean(_) => ErrorKind::InvalidData,
            ProtocolError::AddressTooLong => ErrorKind::InvalidInput,
            ProtocolError::NameTooLong => ErrorKind::InvalidData,
            ProtocolError::UnsupportedVersion(_) => ErrorKind::Other,
            ProtocolError::UnservedVersion(_) => ErrorKind::InvalidData,
            ProtocolError::UnhandledPacket => ErrorKind::Other,
            ProtocolError::TrailingBytes(_) => ErrorKind::Other,
            ProtocolError::InvalidLegacyPing => ErrorKind::InvalidData,
            ProtocolError::NoSuchPacket => ErrorKind::InvalidInput,
            ProtocolError::ReaderComplete => ErrorKind::InvalidInput,
            ProtocolError::LengthUnknown => ErrorKind::InvalidData,
        }
    }
}

} // verus!
