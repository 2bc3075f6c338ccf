//! The handshake: the first packet of a connection. It names the protocol
//! version that the client speaks, and says whether the client is after the
//! server's status or wants to log in.

use vstd::prelude::*;
use vstd::utf8::encode_utf8;

use crate::error::ProtocolError;
use crate::mc_protocol::byte_reader::{
    be_bytes, lemma_be_bytes_len, lemma_be_value_of_be_bytes, lemma_pow256_values, unsigned_at,
    write_u16, write_u8, ByteReader,
};
use crate::mc_protocol::data_types::mc_string::{
    lemma_string_round_trip, parse_string, string_wire,
};
use crate::mc_protocol::data_types::mc_varint::{
    is_varint, lemma_parse_varint_finds, parse_varint, McVarint,
};
use crate::mc_protocol::McProtocol;

verus! {

/// What the client wants after the handshake.
#[derive(Debug, Clone, Copy, PartialEq, Eq, Structural)]
pub enum NextState {
    Login,
    Status,
}

impl NextState {
    /// The byte that stands for the state on the wire.
    pub open spec fn spec_wire_byte(self) -> u8 {
        match self {
            NextState::Status => 1,
            NextState::Login => 2,
        }
    }

    /// The byte that stands for the state on the wire.
    #[verifier::when_used_as_spec(spec_wire_byte)]
    pub fn wire_byte(self) -> (byte: u8)
        ensures
            byte == self.spec_wire_byte(),
    {
        match self {
            NextState::Status => 1,
            NextState::Login => 2,
        }
    }

    /// The state's name.
    pub fn name(self) -> (name: &'static str)
        ensures
            name@ == match self {
                NextState::Login => "Login"@,
                NextState::Status => "Status"@,
            },
    {
        match self {
            NextState::Login => "Login",
            NextState::Status => "Status",
        }
    }
}

/// The state that a byte stands for on the wire, if it stands for one.
pub open spec fn next_state_of(byte: u8) -> Option<NextState> {
    if byte == 1 {
        Some(NextState::Status)
    } else if byte == 2 {
        Some(NextState::Login)
    } else {
        None
    }
}

/// The first packet of a connection.
#[derive(Debug)]
pub struct HandshakePacket {
    pub protocol_version: McVarint,
    pub server_address: String,
    pub server_port: u16,
    pub next_state: NextState,
}

/// What a handshake holds, as plain values.
pub struct HandshakePacketView {
    /// The bytes of the variable-length integer that names the version.
    pub protocol_version: Seq<u8>,
    pub server_address: Seq<char>,
    pub server_port: u16,
    pub next_state: NextState,
}

impl View for HandshakePacket {
    type V = HandshakePacketView;

    open spec fn view(&self) -> HandshakePacketView {
        HandshakePacketView {
            protocol_version: self.protocol_version@,
            server_address: self.server_address@,
            server_port: self.server_port,
            next_state: self.next_state,
        }
    }
}

/// Why a handshake cannot be written, if it cannot: the server address must
/// be 255 bytes at most.
pub open spec fn handshake_error(packet: HandshakePacketView) -> Option<ProtocolError> {
    if encode_utf8(packet.server_address).len() > 255 {
        Some(ProtocolError::AddressTooLong)
    } else {
        None
    }
}

/// The bytes that writing a handshake appends: the packet id 0, the version,
/// and then, unless the address is too long, the address, the port and the
/// next state.
pub open spec fn handshake_wire(packet: HandshakePacketView) -> Seq<u8> {
    let head = seq![0u8] + packet.protocol_version;
    if encode_utf8(packet.server_address).len() > 255 {
        head
    } else {
        head + string_wire(packet.server_address) + be_bytes(packet.server_port as nat, 2)
            + seq![packet.next_state.spec_wire_byte()]
    }
}

/// The handshake that starts at index `at` of `input`, and the index behind
/// it.
pub open spec fn parse_handshake(input: Seq<u8>, at: int) -> Result<
    (HandshakePacketView, int),
    ProtocolError,
> {
    if at >= input.len() {
        Err(ProtocolError::UnexpectedEof)
    } else if input[at] != 0 {
        Err(ProtocolError::UnexpectedPacketId(input[at]))
    } else {
        match parse_varint(input, at + 1) {
            Err(e) => Err(e),
            Ok((protocol_version, address_at)) => match parse_string(input, address_at) {
                Err(e) => Err(e),
                Ok((server_address, port_at)) => {
                    if port_at + 3 > input.len() {
                        Err(ProtocolError::UnexpectedEof)
                    } else {
                        match next_state_of(input[port_at + 2]) {
                            None => Err(ProtocolError::InvalidNextState(input[port_at + 2])),
                            Some(next_state) => Ok(
                                (
                                    HandshakePacketView {
                                        protocol_version,
                                        server_address,
                                        server_port: unsigned_at(input, port_at, 2) as u16,
                                        next_state,
                                    },
                                    port_at + 3,
                                ),
                            ),
                        }
                    }
                },
            },
        }
    }
}

/// Whether a handshake is one that can be held: its version is one whole
/// variable-length integer.
pub open spec fn handshake_wf(packet: HandshakePacketView) -> bool {
    is_varint(packet.protocol_version)
}

/// Writing and reading a handshake gives the handshake back: where the wire
/// form of a handshake that can be written stands in an input, followed by
/// whatever, reading gives the handshake and the index behind it.
pub proof fn lemma_handshake_round_trip(packet: HandshakePacketView, input: Seq<u8>, at: int)
    requires
        handshake_wf(packet),
        handshake_error(packet) is None,
        0 <= at,
        at + handshake_wire(packet).len() <= input.len(),
        input.subrange(at, at + handshake_wire(packet).len()) == handshake_wire(packet),
    ensures
        parse_handshake(input, at) == Ok::<(HandshakePacketView, int), ProtocolError>(
            (packet, at + handshake_wire(packet).len()),
        ),
{
    let wire = handshake_wire(packet);
    let version = packet.protocol_version;
    let address = string_wire(packet.server_address);
    let port = be_bytes(packet.server_port as nat, 2);
    let found = input.subrange(at, at + wire.len());
    lemma_be_bytes_len(packet.server_port as nat, 2);
    lemma_pow256_values();
    lemma_be_value_of_be_bytes(packet.server_port as nat, 2);
    let address_at = at + 1 + version.len();
    let port_at = address_at + address.len();
    assert(wire.len() == 1 + version.len() + address.len() + 3);
    assert(input[at] == 0) by {
        assert(found[0] == wire[0]);
    }
    assert(input.subrange(at + 1, address_at) =~= version) by {
        assert(found.subrange(1, address_at - at) =~= input.subrange(at + 1, address_at));
        assert(wire.subrange(1, address_at - at) =~= version);
    }
    lemma_parse_varint_finds(input, at + 1, version);
    assert(input.subrange(address_at, port_at) =~= address) by {
        assert(found.subrange(address_at - at, port_at - at) =~= input.subrange(
            address_at,
            port_at,
        ));
        assert(wire.subrange(address_at - at, port_at - at) =~= address);
    }
    lemma_string_round_trip(packet.server_address, input, address_at);
    assert(input.subrange(port_at, port_at + 2) =~= port) by {
        assert(found.subrange(port_at - at, port_at - at + 2) =~= input.subrange(
            port_at,
            port_at + 2,
        ));
        assert(wire.subrange(port_at - at, port_at - at + 2) =~= port);
    }
    assert(input[port_at + 2] == packet.next_state.spec_wire_byte()) by {
        assert(found[port_at - at + 2] == wire[port_at - at + 2]);
    }
}

impl HandshakePacket {
    /// Reads a handshake. Where that fails, the reader is left wherever the
    /// failure was found.
    fn read_fields(reader: &mut ByteReader) -> (result: Result<Self, ProtocolError>)
        ensures
            final(reader).buffer() == old(reader).buffer(),
            match parse_handshake(old(reader).buffer(), old(reader).position()) {
                Ok((value, end)) => {
                    &&& result matches Ok(read)
                    &&& read@ == value
                    &&& final(reader).position() == end
                },
                Err(e) => result matches Err(failure) && failure == e,
            },
    {
        let packet_id = reader.read_u8()?;
        if packet_id != 0 {
            return Err(ProtocolError::UnexpectedPacketId(packet_id));
        }
        let protocol_version = McVarint::deserialize_read(reader)?;
        let server_address = String::deserialize_read(reader)?;
        let server_port = reader.read_u16()?;
        let next_state = match reader.read_u8()? {
            1 => NextState::Status,
            2 => NextState::Login,
            other => {
                return Err(ProtocolError::InvalidNextState(other));
            },
        };
        Ok(HandshakePacket { protocol_version, server_address, server_port, next_state })
    }
}

impl McProtocol for HandshakePacket {
    open spec fn wire_error(value: HandshakePacketView) -> Option<ProtocolError> {
        handshake_error(value)
    }

    open spec fn wire(value: HandshakePacketView) -> Seq<u8> {
        handshake_wire(value)
    }

    open spec fn parse(input: Seq<u8>, at: int) -> Result<
        (HandshakePacketView, int),
        ProtocolError,
    > {
        parse_handshake(input, at)
    }

    fn serialize_write(&self, writer: &mut Vec<u8>) -> (result: Result<(), ProtocolError>) {
        write_u8(writer, 0);
        let _ = self.protocol_version.serialize_write(writer);
        if self.server_address.as_str().as_bytes().len() > 255 {
            assert(writer@ =~= old(writer)@ + handshake_wire(self@));
            return Err(ProtocolError::AddressTooLong);
        }
        let _ = self.server_address.serialize_write(writer);
        write_u16(writer, self.server_port);
        write_u8(writer, self.next_state.wire_byte());
        assert(writer@ =~= old(writer)@ + (seq![0u8] + self.protocol_version@ + string_wire(
            self.server_address@,
        ) + be_bytes(self.server_port as nat, 2) + seq![self.next_state.spec_wire_byte()]));
        Ok(())
    }

    fn deserialize_read(reader: &mut ByteReader) -> (result: Result<Self, ProtocolError>) {
        let start = reader.offset();
        match Self::read_fields(reader) {
            Ok(packet) => Ok(packet),
            Err(e) => {
                reader.seek(start);
                Err(e)
            },
        }
    }
}

} // verus!
