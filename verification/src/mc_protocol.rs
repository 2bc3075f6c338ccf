//! The wire protocol: its data types, its packets, and the codec that reads
//! and writes them.

use vstd::prelude::*;

use crate::error::ProtocolError;
use crate::mc_protocol::byte_reader::ByteReader;

pub mod byte_reader;
pub mod clientbound_packets;
pub mod codec;
pub mod data_types;
pub mod serverbound_packets;

pub use codec::ServerCodec;

verus! {

/// Something that can write itself in the wire format and read itself back.
///
/// The three spec functions say what the two methods do, over the views of
/// the values: `wire` and `wire_error` for writing, `parse` for reading.
pub trait McProtocol: Sized + View {
    /// Why a value cannot be written whole, if it cannot.
    spec fn wire_error(value: Self::V) -> Option<ProtocolError>;

    /// The bytes that writing a value appends: its wire form where it can be
    /// written, else the part of it that comes before what cannot.
    spec fn wire(value: Self::V) -> Seq<u8>;

    /// The value that starts at index `at` of `input` and the index behind
    /// it, or why there is none.
    spec fn parse(input: Seq<u8>, at: int) -> Result<(Self::V, int), ProtocolError>;

    /// Appends the wire form of the value to `writer`.
    fn serialize_write(&self, writer: &mut Vec<u8>) -> (result: Result<(), ProtocolError>)
        ensures
            final(writer)@ == old(writer)@ + Self::wire(self@),
            match Self::wire_error(self@) {
                None => result is Ok,
                Some(e) => result == Err::<(), ProtocolError>(e),
            },
    ;

    /// Reads one value from the front of what `reader` has left. Where that
    /// fails, nothing has been read.
    fn deserialize_read(reader: &mut ByteReader) -> (result: Result<Self, ProtocolError>)
        ensures
            final(reader).buffer() == old(reader).buffer(),
            match Self::parse(old(reader).buffer(), old(reader).position()) {
                Ok((value, end)) => {
                    &&& result matches Ok(read)
                    &&& read@ == value
                    &&& final(reader).position() == end
                },
                Err(e) => {
                    &&& result matches Err(failure)
                    &&& failure == e
                    &&& final(reader).position() == old(reader).position()
                },
            },
    ;
}

/// A packet of one protocol version, read according to the state that the
/// connection is in.
pub trait ConnectionStateLevelDeserialize: Sized + View {
    /// The packet that starts at index `at` of `input` in a connection in
    /// the given state, and the index behind it, or why there is none.
    spec fn parse_in_state(input: Seq<u8>, at: int, connection_state: ConnectionState) -> Result<
        (Self::V, int),
        ProtocolError,
    >;

    /// Reads one packet from the front of what `reader` has left. Where that
    /// fails, nothing has been read.
    fn deserialize_read(reader: &mut ByteReader, connection_state: ConnectionState) -> (result:
        Result<Self, ProtocolError>)
        ensures
            final(reader).buffer() == old(reader).buffer(),
            match Self::parse_in_state(
                old(reader).buffer(),
                old(reader).position(),
                connection_state,
            ) {
                Ok((value, end)) => {
                    &&& result matches Ok(read)
                    &&& read@ == value
                    &&& final(reader).position() == end
                },
                Err(e) => {
                    &&& result matches Err(failure)
                    &&& failure == e
                    &&& final(reader).position() == old(reader).position()
                },
            },
    ;
}

/// A packet of any protocol version, read according to the version that was
/// agreed on and to the state that the connection is in.
pub trait ProtocolVersionLevelDeserialize: Sized + View {
    /// The packet that starts at index `at` of `input` in a connection of
    /// the given version in the given state, and the index behind it, or why
    /// there is none.
    spec fn parse_in_version(
        input: Seq<u8>,
        at: int,
        connection_state: ConnectionState,
        protocol_version: ProtocolVersion,
    ) -> Result<(Self::V, int), ProtocolError>;

    /// Reads one packet from the front of what `reader` has left. Where that
    /// fails, nothing has been read.
    fn deserialize_read(
        reader: &mut ByteReader,
        connection_state: ConnectionState,
        protocol_version: ProtocolVersion,
    ) -> (result: Result<Self, ProtocolError>)
        ensures
            final(reader).buffer() == old(reader).buffer(),
            match Self::parse_in_version(
                old(reader).buffer(),
                old(reader).position(),
                connection_state,
                protocol_version,
            ) {
                Ok((value, end)) => {
                    &&& result matches Ok(read)
                    &&& read@ == value
                    &&& final(reader).position() == end
                },
                Err(e) => {
                    &&& result matches Err(failure)
                    &&& failure == e
                    &&& final(reader).position() == old(reader).position()
                },
            },
    ;
}

/// The protocol versions that are supported.
#[derive(Debug, Clone, Copy, PartialEq, Eq, Structural)]
pub enum ProtocolVersion {
    V760,
    V761,
}

impl ProtocolVersion {
    /// The number that a handshake carries for this version.
    pub open spec fn spec_number(self) -> i32 {
        match self {
            ProtocolVersion::V760 => 760,
            ProtocolVersion::V761 => 761,
        }
    }

    /// The number that a handshake carries for this version.
    #[verifier::when_used_as_spec(spec_number)]
    pub fn number(self) -> (number: i32)
        ensures
            number == self.spec_number(),
    {
        match self {
            ProtocolVersion::V760 => 760,
            ProtocolVersion::V761 => 761,
        }
    }

    /// The version's name.
    pub fn name(self) -> (name: &'static str)
        ensures
            name@ == match self {
                ProtocolVersion::V760 => "V760"@,
                ProtocolVersion::V761 => "V761"@,
            },
    {
        match self {
            ProtocolVersion::V760 => "V760",
            ProtocolVersion::V761 => "V761",
        }
    }
}

/// The version that a handshake's number names, if it is a supported one.
pub open spec fn version_of(number: i32) -> Result<ProtocolVersion, ProtocolError> {
    if number == 760 {
        Ok(ProtocolVersion::V760)
    } else if number == 761 {
        Ok(ProtocolVersion::V761)
    } else {
        Err(ProtocolError::UnsupportedVersion(number))
    }
}

impl TryFrom<i32> for ProtocolVersion {
    type Error = ProtocolError;

    fn try_from(value: i32) -> (version: Result<Self, ProtocolError>) {
        if value == 760 {
            Ok(Self::V760)
        } else if value == 761 {
            Ok(Self::V761)
        } else {
            Err(ProtocolError::UnsupportedVersion(value))
        }
    }
}

impl vstd::std_specs::convert::TryFromSpecImpl<i32> for ProtocolVersion {
    open spec fn obeys_try_from_spec() -> bool {
        true
    }

    open spec fn try_from_spec(value: i32) -> Result<Self, ProtocolError> {
        version_of(value)
    }
}

/// Where a connection stands. It starts out handshaking; the handshake moves
/// it to one of the other two states, and there it stays.
#[derive(Debug, Clone, Copy, PartialEq, Eq, Structural)]
pub enum ConnectionState {
    Handshaking,
    Status,
    Login,
}

} // verus!
