//! How many players are on the real server: the question that is put to it
//! while it runs, and the reading of its answer.
//!
//! The question is a status query, as any client puts it: a handshake that
//! asks for the status, and a status request. The answer is a status
//! response, whose JSON text names the number of players that are online.

use vstd::prelude::*;

use crate::error::ErrorKind;
use crate::json::{as_u64, json_document, json_member, json_u64, member, parse_json};
use crate::mc_protocol::byte_reader::ByteReader;
use crate::mc_protocol::clientbound_packets::v760_packets::status::{
    parse_status_response, StatusPacket, StatusPacketView,
};
use crate::mc_protocol::data_types::length_prefixed::{
    get_length_prefixed_reader, length_error, length_prefixed, parse_length_prefixed,
    LengthPrefixed,
};
use crate::mc_protocol::data_types::mc_varint::{as_unsigned, varint_bytes, McVarint};
use crate::mc_protocol::serverbound_packets::generic_packets::handshake::{
    handshake_error, handshake_wire, HandshakePacket, HandshakePacketView, NextState,
};
use crate::mc_protocol::serverbound_packets::v760_packets::status::{
    status_request_wire, StatusPacket as StatusRequest,
};
use crate::mc_protocol::McProtocol;

verus! {

/// The protocol version that the query is put in.
pub const PROBE_VERSION: i32 = 760;

/// The server address that the query's handshake names.
pub const PROBE_ADDRESS: &'static str = "asd";

/// The port that the query's handshake names.
pub const PROBE_PORT: u16 = 25561;

/// The key of the status under which the players are described.
pub const PLAYERS_KEY: &'static str = "players";

/// The key of the players' description under which their number stands.
pub const ONLINE_KEY: &'static str = "online";

/// Why the number of players is not known.
#[derive(Debug, Clone, Copy, PartialEq, Eq, Structural)]
pub enum PlayercountError {
    /// The server answered, and its status names no number of players.
    GotNull,
    /// The server answered with something that is no status.
    Inbound,
    /// The server could not be reached, or the connection failed.
    IO(ErrorKind),
}

/// The handshake of the query.
pub open spec fn probe_handshake() -> HandshakePacketView {
    HandshakePacketView {
        protocol_version: varint_bytes(as_unsigned(PROBE_VERSION)),
        server_address: PROBE_ADDRESS@,
        server_port: PROBE_PORT,
        next_state: NextState::Status,
    }
}

/// The bytes of the query: the frame of the handshake, and the frame of the
/// status request.
pub open spec fn status_query_bytes() -> Seq<u8> {
    length_prefixed(handshake_wire(probe_handshake())) + length_prefixed(
        status_request_wire(StatusRequest::StatusRequest {  }),
    )
}

/// The query can be written and framed: its handshake is short.
pub proof fn lemma_status_query_is_writable()
    ensures
        handshake_error(probe_handshake()) is None,
        length_error(handshake_wire(probe_handshake())) is None,
        length_error(status_request_wire(StatusRequest::StatusRequest {  })) is None,
{
    reveal_strlit("asd");
    let address = PROBE_ADDRESS@;
    assert(address =~= seq!['a', 's', 'd']);
    assert(vstd::utf8::is_ascii_chars(address));
    vstd::utf8::is_ascii_chars_encode_utf8(address);
    assert(vstd::utf8::encode_utf8(address).len() == 3);
    crate::mc_protocol::byte_reader::lemma_be_bytes_len(PROBE_PORT as nat, 2);
    crate::mc_protocol::data_types::mc_varint::lemma_varint_bytes_is_varint(
        as_unsigned(PROBE_VERSION),
    );
}

/// The bytes to send to the server to ask for its status.
pub fn status_query() -> (query: Vec<u8>)
    ensures
        query@ == status_query_bytes(),
{
    proof {
        lemma_status_query_is_writable();
    }
    let mut query: Vec<u8> = Vec::new();
    let handshake = HandshakePacket {
        protocol_version: McVarint::from(PROBE_VERSION),
        server_address: PROBE_ADDRESS.to_owned(),
        server_port: PROBE_PORT,
        next_state: NextState::Status,
    };
    if let Ok(frame) = LengthPrefixed::from_mc_protocol(handshake) {
        let _ = frame.serialize_write(&mut query);
    }
    if let Ok(frame) = LengthPrefixed::from_mc_protocol(StatusRequest::StatusRequest {  }) {
        let _ = frame.serialize_write(&mut query);
    }
    assert(query@ =~= status_query_bytes());
    query
}

/// The JSON text of the status response whose frame starts at index `at` of
/// `input`, and the index behind the frame. A frame that cannot be read, or
/// that holds something else than a status response, is no status.
pub open spec fn parse_status(input: Seq<u8>, at: int) -> Result<(Seq<char>, int), PlayercountError> {
    match parse_length_prefixed(input, at) {
        Err(_) => Err(PlayercountError::Inbound),
        Ok((frame, end)) => match parse_status_response(frame, 0) {
            Ok((StatusPacketView::StatusResponse { json_response }, _)) => Ok((json_response, end)),
            _ => Err(PlayercountError::Inbound),
        },
    }
}

/// Reads the server's answer to the query from the front of what `reader`
/// has left, and gives its JSON text. Where that fails, nothing has been
/// read.
pub fn read_status(reader: &mut ByteReader) -> (status: Result<String, PlayercountError>)
    ensures
        final(reader).buffer() == old(reader).buffer(),
        match parse_status(old(reader).buffer(), old(reader).position()) {
            Ok((text, end)) => {
                &&& status matches Ok(json_response)
                &&& json_response@ == text
                &&& final(reader).position() == end
            },
            Err(e) => {
                &&& status matches Err(failure)
                &&& failure == e
                &&& final(reader).position() == old(reader).position()
            },
        },
{
    let start = reader.offset();
    let mut frame = match get_length_prefixed_reader(reader) {
        Ok(frame) => frame,
        Err(_) => {
            return Err(PlayercountError::Inbound);
        },
    };
    match StatusPacket::deserialize_read(&mut frame) {
        Ok(StatusPacket::StatusResponse { json_response }) => Ok(json_response),
        _ => {
            reader.seek(start);
            Err(PlayercountError::Inbound)
        },
    }
}

/// What a status says of the number of players, given what its member
/// `players.online` is as a number: the number, or that there is none.
pub open spec fn count_of(online: Option<u64>) -> Result<u64, PlayercountError> {
    match online {
        Some(count) => Ok(count),
        None => Err(PlayercountError::GotNull),
    }
}

/// What a status says of the number of players, given what its member
/// `players.online` is as a number.
pub fn classify_count(online: Option<u64>) -> (count: Result<u64, PlayercountError>)
    ensures
        count == count_of(online),
{
    match online {
        Some(count) => Ok(count),
        None => Err(PlayercountError::GotNull),
    }
}

/// The number of players that the status with the JSON text `text` names.
/// The text must be JSON; the number is its member `players.online`, which
/// must be an integer that is not negative.
pub open spec fn player_count_of(text: Seq<char>) -> Result<u64, PlayercountError> {
    match json_document(text) {
        None => Err(PlayercountError::Inbound),
        Some(document) => count_of(
            json_u64(json_member(json_member(document, PLAYERS_KEY@), ONLINE_KEY@)),
        ),
    }
}

/// The number of players that a status names.
pub fn player_count(json_response: &str) -> (count: Result<u64, PlayercountError>)
    ensures
        count == player_count_of(json_response@),
{
    let document = match parse_json(json_response) {
        Ok(document) => document,
        Err(_) => {
            return Err(PlayercountError::Inbound);
        },
    };
    let players = member(&document, PLAYERS_KEY);
    let online = member(players, ONLINE_KEY);
    classify_count(as_u64(online))
}

/// The number of players that the server's answer names, where the answer
/// starts at index `at` of `input`.
pub open spec fn playercount_of(input: Seq<u8>, at: int) -> Result<u64, PlayercountError> {
    match parse_status(input, at) {
        Err(e) => Err(e),
        Ok((text, _)) => player_count_of(text),
    }
}

/// Reads the server's whole answer to the query: the number of players that
/// are online.
pub fn get_playercount(response: Vec<u8>) -> (count: Result<u64, PlayercountError>)
    ensures
        count == playercount_of(response@, 0),
{
    let mut reader = ByteReader::new(response);
    let json_response = read_status(&mut reader)?;
    player_count(json_response.as_str())
}

} // verus!
