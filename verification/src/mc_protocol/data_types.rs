//! The building blocks that packets are made of.

pub mod length_prefixed;
pub mod mc_string;
pub mod mc_varint;

pub use length_prefixed::{frame_arrived, get_length_prefixed_reader, LengthPrefixed};
pub use mc_varint::McVarint;
