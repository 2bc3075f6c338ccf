//! What a server sends in the login state. Only the disconnect is written
//! and read: it ends the login with a reason.

use vstd::prelude::*;

use crate::error::ProtocolError;
use crate::mc_protocol::byte_reader::{lemma_found_apart, write_u8, ByteReader};
use crate::mc_protocol::data_types::mc_string::{
    lemma_string_round_trip, parse_string, string_error, string_wire,
};
use crate::mc_protocol::McProtocol;

verus! {

/// A packet of the login state, from the server.
#[derive(Debug)]
pub enum LoginPacket {
    /// Ends the login. The reason is the JSON text of a chat component.
    Disconnect { reason: String },
}

/// What a login-state packet from the server holds, as plain values.
pub enum LoginPacketView {
    Disconnect { reason: Seq<char> },
}

impl View for LoginPacket {
    type V = LoginPacketView;

    open spec fn view(&self) -> LoginPacketView {
        match self {
            LoginPacket::Disconnect { reason } => LoginPacketView::Disconnect { reason: reason@ },
        }
    }
}

/// Why a login-state packet from the server cannot be written, if it
/// cannot: the reason must be writable.
pub open spec fn disconnect_error(packet: LoginPacketView) -> Option<ProtocolError> {
    match packet {
        LoginPacketView::Disconnect { reason } => string_error(reason),
    }
}

/// The bytes that writing a login-state packet from the server appends: the
/// packet id 0, and the reason.
pub open spec fn disconnect_wire(packet: LoginPacketView) -> Seq<u8> {
    match packet {
        LoginPacketView::Disconnect { reason } => seq![0u8] + string_wire(reason),
    }
}

/// The login-state packet from the server that starts at index `at` of
/// `input`, and the index behind it. The ids 1 to 4 are known, but packets of
/// those kinds are not read.
pub open spec fn parse_disconnect(input: Seq<u8>, at: int) -> Result<
    (LoginPacketView, int),
    ProtocolError,
> {
    if at >= input.len() {
        Err(ProtocolError::UnexpectedEof)
    } else if input[at] == 0 {
        match parse_string(input, at + 1) {
            Err(e) => Err(e),
            Ok((reason, end)) => Ok((LoginPacketView::Disconnect { reason }, end)),
        }
    } else if 1 <= input[at] <= 4 {
        Err(ProtocolError::UnsupportedPacket(input[at]))
    } else {
        Err(ProtocolError::UnexpectedPacketId(input[at]))
    }
}

/// Writing and reading a disconnect gives the packet back: where the wire
/// form of a packet that can be written stands in an input, followed by
/// whatever, reading gives the packet and the index behind it.
pub proof fn lemma_disconnect_round_trip(packet: LoginPacketView, input: Seq<u8>, at: int)
    requires
        disconnect_error(packet) is None,
        0 <= at,
        at + disconnect_wire(packet).len() <= input.len(),
        input.subrange(at, at + disconnect_wire(packet).len()) == disconnect_wire(packet),
    ensures
        parse_disconnect(input, at) == Ok::<(LoginPacketView, int), ProtocolError>(
            (packet, at + disconnect_wire(packet).len()),
        ),
{
    let wire = disconnect_wire(packet);
    assert(input[at] == wire[0]) by {
        assert(input.subrange(at, at + wire.len())[0] == input[at]);
    }
    match packet {
        LoginPacketView::Disconnect { reason } => {
            lemma_found_apart(input, at, seq![0u8], string_wire(reason));
            lemma_string_round_trip(reason, input, at + 1);
        },
    }
}

impl LoginPacket {
    fn read_fields(reader: &mut ByteReader) -> (result: Result<Self, ProtocolError>)
        ensures
            final(reader).buffer() == old(reader).buffer(),
            match parse_disconnect(old(reader).buffer(), old(reader).position()) {
                Ok((value, end)) => {
                    &&& result matches Ok(read)
                    &&& read@ == value
                    &&& final(reader).position() == end
                },
                Err(e) => result matches Err(failure) && failure == e,
            },
    {
        let packet_id = reader.read_u8()?;
        if packet_id == 0 {
            Ok(LoginPacket::Disconnect { reason: String::deserialize_read(reader)? })
        } else if packet_id <= 4 {
            Err(ProtocolError::UnsupportedPacket(packet_id))
        } else {
            Err(ProtocolError::UnexpectedPacketId(packet_id))
        }
    }
}

impl McProtocol for LoginPacket {
    open spec fn wire_error(value: LoginPacketView) -> Option<ProtocolError> {
        disconnect_error(value)
    }

    open spec fn wire(value: LoginPacketView) -> Seq<u8> {
        disconnect_wire(value)
    }

    open spec fn parse(input: Seq<u8>, at: int) -> Result<(LoginPacketView, int), ProtocolError> {
        parse_disconnect(input, at)
    }

    fn serialize_write(&self, writer: &mut Vec<u8>) -> (result: Result<(), ProtocolError>) {
        match self {
            LoginPacket::Disconnect { reason } => {
                write_u8(writer, 0);
                let written = reason.serialize_write(writer);
                assert(writer@ =~= old(writer)@ + (seq![0u8] + string_wire(reason@)));
                written
            },
        }
    }

    fn deserialize_read(reader: &mut ByteReader) -> (result: Result<Self, ProtocolError>) {
        let start = reader.offset();
        match Self::read_fields(reader) {
            Ok(packet) => Ok(packet),
            Err(e) => {
                reader.seek(start);
                Err(e)
            },
        }
    }
}

} // verus!
