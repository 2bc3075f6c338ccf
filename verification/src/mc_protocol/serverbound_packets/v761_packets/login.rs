//! What a client sends in the login state. Only the start of a login is
//! read; in this version it carries no signature data.

use vstd::prelude::*;
use vstd::utf8::encode_utf8;

use crate::error::ProtocolError;
use crate::mc_protocol::byte_reader::{lemma_found_apart, write_u8, ByteReader};
use crate::mc_protocol::data_types::mc_string::{lemma_string_round_trip, parse_string, string_wire};
use crate::mc_protocol::serverbound_packets::v760_packets::login::{
    lemma_uuid_round_trip, parse_uuid, read_uuid, uuid_wire, write_uuid,
};
use crate::mc_protocol::McProtocol;

verus! {

/// A packet of the login state, from the client.
#[derive(Debug)]
pub enum LoginPacket {
    LoginStart { name: String, player_uuid: Option<u128> },
}

/// What a login-state packet from the client holds, as plain values.
pub enum LoginPacketView {
    LoginStart { name: Seq<char>, player_uuid: Option<u128> },
}

impl View for LoginPacket {
    type V = LoginPacketView;

    open spec fn view(&self) -> LoginPacketView {
        match self {
            LoginPacket::LoginStart { name, player_uuid } => LoginPacketView::LoginStart {
                name: name@,
                player_uuid: *player_uuid,
            },
        }
    }
}

/// Why a login-state packet cannot be written, if it cannot: the name must
/// be 16 bytes at most.
pub open spec fn login_start_error(packet: LoginPacketView) -> Option<ProtocolError> {
    match packet {
        LoginPacketView::LoginStart { name, player_uuid } => {
            if encode_utf8(name).len() > 16 {
                Some(ProtocolError::NameTooLong)
            } else {
                None
            }
        },
    }
}

/// The bytes that writing a login-state packet appends: nothing of a packet
/// whose name is too long, else the packet id 0, the name and the player's
/// id.
pub open spec fn login_start_wire(packet: LoginPacketView) -> Seq<u8> {
    match packet {
        LoginPacketView::LoginStart { name, player_uuid } => {
            if encode_utf8(name).len() > 16 {
                Seq::<u8>::empty()
            } else {
                seq![0u8] + string_wire(name) + uuid_wire(player_uuid)
            }
        },
    }
}

/// The login-state packet from the client that starts at index `at` of
/// `input`, and the index behind it. The ids 1 and 2 are known, but packets
/// of those kinds are not read.
pub open spec fn parse_login_start(input: Seq<u8>, at: int) -> Result<
    (LoginPacketView, int),
    ProtocolError,
> {
    if at >= input.len() {
        Err(ProtocolError::UnexpectedEof)
    } else if input[at] == 0 {
        match parse_string(input, at + 1) {
            Err(e) => Err(e),
            Ok((name, uuid_at)) => if encode_utf8(name).len() > 16 {
                Err(ProtocolError::NameTooLong)
            } else {
                match parse_uuid(input, uuid_at) {
                    Err(e) => Err(e),
                    Ok((player_uuid, end)) => Ok(
                        (LoginPacketView::LoginStart { name, player_uuid }, end),
                    ),
                }
            },
        }
    } else if input[at] == 1 || input[at] == 2 {
        Err(ProtocolError::UnsupportedPacket(input[at]))
    } else {
        Err(ProtocolError::UnexpectedPacketId(input[at]))
    }
}

/// Writing and reading the start of a login gives the packet back: where the
/// wire form of a packet that can be written stands in an input, followed by
/// whatever, reading gives the packet and the index behind it.
pub proof fn lemma_login_start_round_trip(packet: LoginPacketView, input: Seq<u8>, at: int)
    requires
        login_start_error(packet) is None,
        0 <= at,
        at + login_start_wire(packet).len() <= input.len(),
        input.subrange(at, at + login_start_wire(packet).len()) == login_start_wire(packet),
    ensures
        parse_login_start(input, at) == Ok::<(LoginPacketView, int), ProtocolError>(
            (packet, at + login_start_wire(packet).len()),
        ),
{
    let wire = login_start_wire(packet);
    match packet {
        LoginPacketView::LoginStart { name, player_uuid } => {
            let name_wire = string_wire(name);
            let id_wire = uuid_wire(player_uuid);
            assert(wire =~= seq![0u8] + (name_wire + id_wire));
            assert(input[at] == wire[0]) by {
                assert(input.subrange(at, at + wire.len())[0] == input[at]);
            }
            lemma_found_apart(input, at, seq![0u8], name_wire + id_wire);
            lemma_found_apart(input, at + 1, name_wire, id_wire);
            lemma_string_round_trip(name, input, at + 1);
            lemma_uuid_round_trip(player_uuid, input, at + 1 + name_wire.len());
        },
    }
}

impl LoginPacket {
    fn read_fields(reader: &mut ByteReader) -> (result: Result<Self, ProtocolError>)
        ensures
            final(reader).buffer() == old(reader).buffer(),
            match parse_login_start(old(reader).buffer(), old(reader).position()) {
                Ok((value, end)) => {
                    &&& result matches Ok(read)
                    &&& read@ == value
                    &&& final(reader).position() == end
                },
                Err(e) => result matches Err(failure) && failure == e,
            },
    {
        match reader.read_u8()? {
            0 => {
                let name = String::deserialize_read(reader)?;
                if name.as_str().as_bytes().len() > 16 {
                    return Err(ProtocolError::NameTooLong);
                }
                let player_uuid = read_uuid(reader)?;
                Ok(LoginPacket::LoginStart { name, player_uuid })
            },
            1 => Err(ProtocolError::UnsupportedPacket(1)),
            2 => Err(ProtocolError::UnsupportedPacket(2)),
            other => Err(ProtocolError::UnexpectedPacketId(other)),
        }
    }
}

impl McProtocol for LoginPacket {
    open spec fn wire_error(value: LoginPacketView) -> Option<ProtocolError> {
        login_start_error(value)
    }

    open spec fn wire(value: LoginPacketView) -> Seq<u8> {
        login_start_wire(value)
    }

    open spec fn parse(input: Seq<u8>, at: int) -> Result<(LoginPacketView, int), ProtocolError> {
        parse_login_start(input, at)
    }

    fn serialize_write(&self, writer: &mut Vec<u8>) -> (result: Result<(), ProtocolError>) {
        match self {
            Self::LoginStart { name, player_uuid } => {
                if name.as_str().as_bytes().len() > 16 {
                    assert(writer@ =~= old(writer)@ + Seq::<u8>::empty());
                    return Err(ProtocolError::NameTooLong);
                }
                write_u8(writer, 0);
                let _ = name.serialize_write(writer);
                write_uuid(writer, *player_uuid);
                assert(writer@ =~= old(writer)@ + (seq![0u8] + string_wire(name@) + uuid_wire(
                    *player_uuid,
                )));
                Ok(())
            },
        }
    }

    fn deserialize_read(reader: &mut ByteReader) -> (result: Result<Self, ProtocolError>) {
        let start = reader.offset();
        match Self::read_fields(reader) {
            Ok(packet) => Ok(packet),
            Err(e) => {
                reader.seek(start);
                Err(e)
            },
        }
    }
}

} // verus!
