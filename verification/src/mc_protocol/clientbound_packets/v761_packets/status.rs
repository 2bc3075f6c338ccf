//! What a server sends in the status state. Nothing of it changed from
//! version 760 to version 761.

pub use crate::mc_protocol::clientbound_packets::v760_packets::status::StatusPacket;
