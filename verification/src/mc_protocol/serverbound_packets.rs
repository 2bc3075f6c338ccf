//! Packets that a client sends to a server.

use vstd::prelude::*;

use crate::error::ProtocolError;
use crate::mc_protocol::byte_reader::ByteReader;
use crate::mc_protocol::serverbound_packets::generic_packets::GenericView;
use crate::mc_protocol::serverbound_packets::v760_packets::{parse_v760, V760View};
use crate::mc_protocol::serverbound_packets::v761_packets::{parse_v761, V761View};
use crate::mc_protocol::{
    ConnectionState, ConnectionStateLevelDeserialize, ProtocolVersion,
    ProtocolVersionLevelDeserialize,
};

pub mod generic_packets;
pub mod v760_packets;
pub mod v761_packets;

pub use generic_packets::Generic;
pub use v760_packets::V760;
pub use v761_packets::V761;

verus! {

/// A packet sent from a client to a server.
#[derive(Debug)]
pub enum Serverbound {
    V760(V760),
    V761(V761),
    Generic(Generic),
}

/// What a packet from a client holds, as plain values.
pub enum ServerboundView {
    V760(V760View),
    V761(V761View),
    Generic(GenericView),
}

impl View for Serverbound {
    type V = ServerboundView;

    open spec fn view(&self) -> ServerboundView {
        match self {
            Serverbound::V760(packet) => ServerboundView::V760(packet@),
            Serverbound::V761(packet) => ServerboundView::V761(packet@),
            Serverbound::Generic(packet) => ServerboundView::Generic(packet@),
        }
    }
}

/// The packet from a client that starts at index `at` of `input` in a
/// connection of the given version in the given state, and the index behind
/// it.
pub open spec fn parse_serverbound(
    input: Seq<u8>,
    at: int,
    connection_state: ConnectionState,
    protocol_version: ProtocolVersion,
) -> Result<(ServerboundView, int), ProtocolError> {
    match protocol_version {
        ProtocolVersion::V760 => match parse_v760(input, at, connection_state) {
            Ok((packet, end)) => Ok((ServerboundView::V760(packet), end)),
            Err(e) => Err(e),
        },
        ProtocolVersion::V761 => match parse_v761(input, at, connection_state) {
            Ok((packet, end)) => Ok((ServerboundView::V761(packet), end)),
            Err(e) => Err(e),
        },
    }
}

impl ProtocolVersionLevelDeserialize for Serverbound {
    open spec fn parse_in_version(
        input: Seq<u8>,
        at: int,
        connection_state: ConnectionState,
        protocol_version: ProtocolVersion,
    ) -> Result<(ServerboundView, int), ProtocolError> {
        parse_serverbound(input, at, connection_state, protocol_version)
    }

    fn deserialize_read(
        reader: &mut ByteReader,
        connection_state: ConnectionState,
        protocol_version: ProtocolVersion,
    ) -> (result: Result<Self, ProtocolError>) {
        Ok(
            match protocol_version {
                ProtocolVersion::V760 => Self::V760(V760::deserialize_read(reader, connection_state)?),
                ProtocolVersion::V761 => Self::V761(V761::deserialize_read(reader, connection_state)?),
            },
        )
    }
}

/// The protocol version that a packet belongs to, if it belongs to one.
pub open spec fn version_of_packet(packet: ServerboundView) -> Option<ProtocolVersion> {
    match packet {
        ServerboundView::V760(_) => Some(ProtocolVersion::V760),
        ServerboundView::V761(_) => Some(ProtocolVersion::V761),
        ServerboundView::Generic(_) => None,
    }
}

impl From<Serverbound> for Option<ProtocolVersion> {
    fn from(packet: Serverbound) -> (version: Self)
        ensures
            version == version_of_packet(packet@),
    {
        match packet {
            Serverbound::V760(_) => Some(ProtocolVersion::V760),
            Serverbound::V761(_) => Some(ProtocolVersion::V761),
            Serverbound::Generic(_) => None,
        }
    }
}

impl vstd::std_specs::convert::FromSpecImpl<Serverbound> for Option<ProtocolVersion> {
    open spec fn obeys_from_spec() -> bool {
        true
    }

    open spec fn from_spec(packet: Serverbound) -> Self {
        version_of_packet(packet@)
    }
}

} // verus!
