//! What a server sends in the login state. Nothing of the disconnect
//! changed from version 760 to version 761.

pub use crate::mc_protocol::clientbound_packets::v760_packets::login::LoginPacket;
