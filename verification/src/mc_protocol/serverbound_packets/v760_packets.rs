//! The packets of protocol version 760, from the client.

use vstd::prelude::*;

use crate::error::ProtocolError;
use crate::mc_protocol::byte_reader::ByteReader;
use crate::mc_protocol::serverbound_packets::generic_packets::handshake::{
    parse_handshake, HandshakePacket, HandshakePacketView,
};
use crate::mc_protocol::serverbound_packets::v760_packets::login::{
    parse_login_start, LoginPacketView,
};
use crate::mc_protocol::serverbound_packets::v760_packets::status::parse_status_request;
use crate::mc_protocol::{ConnectionState, ConnectionStateLevelDeserialize, McProtocol};

pub mod login;
pub mod status;

pub use login::{LoginPacket, SigData};
pub use status::StatusPacket;

verus! {

/// A packet of protocol version 760, from the client.
#[derive(Debug)]
pub enum V760 {
    Handshake(HandshakePacket),
    Status(StatusPacket),
    Login(LoginPacket),
}

/// What a packet of protocol version 760 from the client holds, as plain
/// values.
pub enum V760View {
    Handshake(HandshakePacketView),
    Status(StatusPacket),
    Login(LoginPacketView),
}

impl View for V760 {
    type V = V760View;

    open spec fn view(&self) -> V760View {
        match self {
            V760::Handshake(packet) => V760View::Handshake(packet@),
            V760::Status(packet) => V760View::Status(*packet),
            V760::Login(packet) => V760View::Login(packet@),
        }
    }
}

/// The packet of protocol version 760 that starts at index `at` of `input`
/// in a connection in the given state, and the index behind it: a handshake
/// while handshaking, else a packet of the status or of the login state.
pub open spec fn parse_v760(input: Seq<u8>, at: int, connection_state: ConnectionState) -> Result<
    (V760View, int),
    ProtocolError,
> {
    match connection_state {
        ConnectionState::Handshaking => match parse_handshake(input, at) {
            Ok((packet, end)) => Ok((V760View::Handshake(packet), end)),
            Err(e) => Err(e),
        },
        ConnectionState::Status => match parse_status_request(input, at) {
            Ok((packet, end)) => Ok((V760View::Status(packet), end)),
            Err(e) => Err(e),
        },
        ConnectionState::Login => match parse_login_start(input, at) {
            Ok((packet, end)) => Ok((V760View::Login(packet), end)),
            Err(e) => Err(e),
        },
    }
}

impl ConnectionStateLevelDeserialize for V760 {
    open spec fn parse_in_state(
        input: Seq<u8>,
        at: int,
        connection_state: ConnectionState,
    ) -> Result<(V760View, int), ProtocolError> {
        parse_v760(input, at, connection_state)
    }

    fn deserialize_read(reader: &mut ByteReader, connection_state: ConnectionState) -> (result:
        Result<Self, ProtocolError>) {
        Ok(
            match connection_state {
                ConnectionState::Handshaking => Self::Handshake(
                    HandshakePacket::deserialize_read(reader)?,
                ),
                ConnectionState::Status => Self::Status(StatusPacket::deserialize_read(reader)?),
                ConnectionState::Login => Self::Login(LoginPacket::deserialize_read(reader)?),
            },
        )
    }
}

} // verus!
