//! The packets of protocol version 761, from the client.

use vstd::prelude::*;

use crate::error::ProtocolError;
use crate::mc_protocol::byte_reader::ByteReader;
use crate::mc_protocol::serverbound_packets::generic_packets::handshake::{
    parse_handshake, HandshakePacket, HandshakePacketView,
};
use crate::mc_protocol::serverbound_packets::v761_packets::login::{
    parse_login_start, LoginPacketView,
};
use crate::mc_protocol::serverbound_packets::v760_packets::status::parse_status_request;
use crate::mc_protocol::{ConnectionState, ConnectionStateLevelDeserialize, McProtocol};

pub mod login;
pub mod status;

pub use login::LoginPacket;
pub use status::StatusPacket;

verus! {

/// A packet of protocol version 761, from the client.
#[derive(Debug)]
pub enum V761 {
    Handshake(HandshakePacket),
    Status(StatusPacket),
    Login(LoginPacket),
}

/// What a packet of protocol version 761 from the client holds, as plain
/// values.
pub enum V761View {
    Handshake(HandshakePacketView),
    Status(StatusPacket),
    Login(LoginPacketView),
}

impl View for V761 {
    type V = V761View;

    open spec fn view(&self) -> V761View {
        match self {
            V761::Handshake(packet) => V761View::Handshake(packet@),
            V761::Status(packet) => V761View::Status(*packet),
            V761::Login(packet) => V761View::Login(packet@),
        }
    }
}

/// The packet of protocol version 761 that starts at index `at` of `input`
/// in a connection in the given state, and the index behind it: a handshake
/// while handshaking, else a packet of the status or of the login state.
pub open spec fn parse_v761(input: Seq<u8>, at: int, connection_state: ConnectionState) -> Result<
    (V761View, int),
    ProtocolError,
> {
    match connection_state {
        ConnectionState::Handshaking => match parse_handshake(input, at) {
            Ok((packet, end)) => Ok((V761View::Handshake(packet), end)),
            Err(e) => Err(e),
        },
        ConnectionState::Status => match parse_status_request(input, at) {
            Ok((packet, end)) => Ok((V761View::Status(packet), end)),
            Err(e) => Err(e),
        },
        ConnectionState::Login => match parse_login_start(input, at) {
            Ok((packet, end)) => Ok((V761View::Login(packet), end)),
            Err(e) => Err(e),
        },
    }
}

impl ConnectionStateLevelDeserialize for V761 {
    open spec fn parse_in_state(
        input: Seq<u8>,
        at: int,
        connection_state: ConnectionState,
    ) -> Result<(V761View, int), ProtocolError> {
        parse_v761(input, at, connection_state)
    }

    fn deserialize_read(reader: &mut ByteReader, connection_state: ConnectionState) -> (result:
        Result<Self, ProtocolError>) {
        Ok(
            match connection_state {
                ConnectionState::Handshaking => Self::Handshake(
                    HandshakePacket::deserialize_read(reader)?,
                ),
                ConnectionState::Status => Self::Status(StatusPacket::deserialize_read(reader)?),
                ConnectionState::Login => Self::Login(LoginPacket::deserialize_read(reader)?),
            },
        )
    }
}

} // verus!
