//! Packets that a server sends to a client.

use vstd::prelude::*;

use crate::error::ProtocolError;
use crate::mc_protocol::byte_reader::ByteReader;
use crate::mc_protocol::clientbound_packets::v760_packets::{parse_v760, V760View};
use crate::mc_protocol::clientbound_packets::v761_packets::{parse_v761, V761View};
use crate::mc_protocol::{
    ConnectionState, ConnectionStateLevelDeserialize, ProtocolVersion,
    ProtocolVersionLevelDeserialize,
};

pub mod v760_packets;
pub mod v761_packets;

pub use v760_packets::V760;
pub use v761_packets::V761;

verus! {

/// A packet sent from a server to a client.
#[derive(Debug)]
pub enum Clientbound {
    V760(V760),
    V761(V761),
}

/// What a packet from a server holds, as plain values.
pub enum ClientboundView {
    V760(V760View),
    V761(V761View),
}

impl View for Clientbound {
    type V = ClientboundView;

    open spec fn view(&self) -> ClientboundView {
        match self {
            Clientbound::V760(packet) => ClientboundView::V760(packet@),
            Clientbound::V761(packet) => ClientboundView::V761(packet@),
        }
    }
}

/// The packet from a server that starts at index `at` of `input` in a
/// connection of the given version in the given state, and the index behind
/// it.
pub open spec fn parse_clientbound(
    input: Seq<u8>,
    at: int,
    connection_state: ConnectionState,
    protocol_version: ProtocolVersion,
) -> Result<(ClientboundView, int), ProtocolError> {
    match protocol_version {
        ProtocolVersion::V760 => match parse_v760(input, at, connection_state) {
            Ok((packet, end)) => Ok((ClientboundView::V760(packet), end)),
            Err(e) => Err(e),
        },
        ProtocolVersion::V761 => match parse_v761(input, at, connection_state) {
            Ok((packet, end)) => Ok((ClientboundView::V761(packet), end)),
            Err(e) => Err(e),
        },
    }
}

impl ProtocolVersionLevelDeserialize for Clientbound {
    open spec fn parse_in_version(
        input: Seq<u8>,
        at: int,
        connection_state: ConnectionState,
        protocol_version: ProtocolVersion,
    ) -> Result<(ClientboundView, int), ProtocolError> {
        parse_clientbound(input, at, connection_state, protocol_version)
    }

    fn deserialize_read(
        reader: &mut ByteReader,
        connection_state: ConnectionState,
        protocol_version: ProtocolVersion,
    ) -> (result: Result<Self, ProtocolError>) {
        Ok(
            match protocol_version {
                ProtocolVersion::V760 => Self::V760(V760::deserialize_read(reader, connection_state)?),
                ProtocolVersion::V761 => Self::V761(V761::deserialize_read(reader, connection_state)?),
            },
        )
    }
}

} // verus!
