//! The packets of protocol version 761, from the server.

use vstd::prelude::*;

use crate::error::ProtocolError;
use crate::mc_protocol::byte_reader::ByteReader;
use crate::mc_protocol::clientbound_packets::v760_packets::login::{
    parse_disconnect, LoginPacketView,
};
use crate::mc_protocol::clientbound_packets::v760_packets::status::{
    parse_status_response, StatusPacketView,
};
use crate::mc_protocol::{ConnectionState, ConnectionStateLevelDeserialize, McProtocol};

pub mod login;
pub mod status;

pub use login::LoginPacket;
pub use status::StatusPacket;

verus! {

/// A packet of protocol version 761, from the server.
#[derive(Debug)]
pub enum V761 {
    Status(StatusPacket),
    Login(LoginPacket),
}

/// What a packet of protocol version 761 from the server holds, as plain
/// values.
pub enum V761View {
    Status(StatusPacketView),
    Login(LoginPacketView),
}

impl View for V761 {
    type V = V761View;

    open spec fn view(&self) -> V761View {
        match self {
            V761::Status(packet) => V761View::Status(packet@),
            V761::Login(packet) => V761View::Login(packet@),
        }
    }
}

/// The packet of protocol version 761 from the server that starts at index
/// `at` of `input` in a connection in the given state, and the index behind
/// it. While a connection is handshaking the server sends nothing.
pub open spec fn parse_v761(input: Seq<u8>, at: int, connection_state: ConnectionState) -> Result<
    (V761View, int),
    ProtocolError,
> {
    match connection_state {
        ConnectionState::Handshaking => Err(ProtocolError::NoSuchPacket),
        ConnectionState::Status => match parse_status_response(input, at) {
            Ok((packet, end)) => Ok((V761View::Status(packet), end)),
            Err(e) => Err(e),
        },
        ConnectionState::Login => match parse_disconnect(input, at) {
            Ok((packet, end)) => Ok((V761View::Login(packet), end)),
            Err(e) => Err(e),
        },
    }
}

impl ConnectionStateLevelDeserialize for V761 {
    open spec fn parse_in_state(
        input: Seq<u8>,
        at: int,
        connection_state: ConnectionState,
    ) -> Result<(V761View, int), ProtocolError> {
        parse_v761(input, at, connection_state)
    }

    fn deserialize_read(reader: &mut ByteReader, connection_state: ConnectionState) -> (result:
        Result<Self, ProtocolError>) {
        match connection_state {
            ConnectionState::Handshaking => Err(ProtocolError::NoSuchPacket),
            ConnectionState::Status => Ok(Self::Status(StatusPacket::deserialize_read(reader)?)),
            ConnectionState::Login => Ok(Self::Login(LoginPacket::deserialize_read(reader)?)),
        }
    }
}

} // verus!
