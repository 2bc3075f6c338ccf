//! The packets that are the same in every protocol version: they arrive
//! before a version has been agreed on.

use vstd::prelude::*;

use crate::mc_protocol::serverbound_packets::generic_packets::handshake::HandshakePacketView;
use crate::mc_protocol::serverbound_packets::generic_packets::server_list_ping::ServerListPingPacketView;

pub mod handshake;
pub mod server_list_ping;

pub use handshake::{HandshakePacket, NextState};
pub use server_list_ping::{is_packet_server_list_ping, ServerListPingPacket};

verus! {

/// A packet that is the same in every protocol version.
#[derive(Debug)]
pub enum Generic {
    Handshake(HandshakePacket),
    ServerListPing(ServerListPingPacket),
}

/// What a packet that is the same in every protocol version holds, as plain
/// values.
pub enum GenericView {
    Handshake(HandshakePacketView),
    ServerListPing(ServerListPingPacketView),
}

impl View for Generic {
    type V = GenericView;

    open spec fn view(&self) -> GenericView {
        match self {
            Generic::Handshake(packet) => GenericView::Handshake(packet@),
            Generic::ServerListPing(packet) => GenericView::ServerListPing(packet@),
        }
    }
}

} // verus!
