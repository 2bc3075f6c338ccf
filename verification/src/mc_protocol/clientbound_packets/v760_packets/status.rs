//! What a server sends in the status state: its status as JSON text, and the
//! echo of a ping.

use vstd::prelude::*;

use crate::error::ProtocolError;
use crate::mc_protocol::byte_reader::{
    be_bytes, lemma_be_bytes_len, lemma_found_apart, lemma_pow256_values,
    lemma_signed_round_trip, signed_at, to_unsigned, write_i64, write_u8, ByteReader,
};
use crate::mc_protocol::data_types::mc_string::{
    lemma_string_round_trip, parse_string, string_error, string_wire,
};
use crate::mc_protocol::McProtocol;

verus! {

/// A packet of the status state, from the server.
#[derive(Debug)]
pub enum StatusPacket {
    StatusResponse { json_response: String },
    PingResponse { payload: i64 },
}

/// What a status-state packet from the server holds, as plain values.
pub enum StatusPacketView {
    StatusResponse { json_response: Seq<char> },
    PingResponse { payload: i64 },
}

impl View for StatusPacket {
    type V = StatusPacketView;

    open spec fn view(&self) -> StatusPacketView {
        match self {
            StatusPacket::StatusResponse { json_response } => StatusPacketView::StatusResponse {
                json_response: json_response@,
            },
            StatusPacket::PingResponse { payload } => StatusPacketView::PingResponse {
                payload: *payload,
            },
        }
    }
}

/// Why a status-state packet from the server cannot be written, if it
/// cannot: the text must be writable.
pub open spec fn status_response_error(packet: StatusPacketView) -> Option<ProtocolError> {
    match packet {
        StatusPacketView::StatusResponse { json_response } => string_error(json_response),
        StatusPacketView::PingResponse { payload } => None,
    }
}

/// The bytes that writing a status-state packet from the server appends: the
/// packet id, and behind it the text or the payload.
pub open spec fn status_response_wire(packet: StatusPacketView) -> Seq<u8> {
    match packet {
        StatusPacketView::StatusResponse { json_response } => seq![0u8] + string_wire(
            json_response,
        ),
        StatusPacketView::PingResponse { payload } => seq![1u8] + be_bytes(
            to_unsigned(payload as int, 8),
            8,
        ),
    }
}

/// The status-state packet from the server that starts at index `at` of
/// `input`, and the index behind it.
pub open spec fn parse_status_response(input: Seq<u8>, at: int) -> Result<
    (StatusPacketView, int),
    ProtocolError,
> {
    if at >= input.len() {
        Err(ProtocolError::UnexpectedEof)
    } else if input[at] == 0 {
        match parse_string(input, at + 1) {
            Err(e) => Err(e),
            Ok((json_response, end)) => Ok((StatusPacketView::StatusResponse { json_response }, end)),
        }
    } else if input[at] == 1 {
        if at + 9 > input.len() {
            Err(ProtocolError::UnexpectedEof)
        } else {
            Ok(
                (
                    StatusPacketView::PingResponse { payload: signed_at(input, at + 1, 8) as i64 },
                    at + 9,
                ),
            )
        }
    } else {
        Err(ProtocolError::UnexpectedPacketId(input[at]))
    }
}

/// Writing and reading a status-state packet from the server gives the
/// packet back: where the wire form of a packet that can be written stands in
/// an input, followed by whatever, reading gives the packet and the index
/// behind it.
pub proof fn lemma_status_response_round_trip(packet: StatusPacketView, input: Seq<u8>, at: int)
    requires
        status_response_error(packet) is None,
        0 <= at,
        at + status_response_wire(packet).len() <= input.len(),
        input.subrange(at, at + status_response_wire(packet).len()) == status_response_wire(
            packet,
        ),
    ensures
        parse_status_response(input, at) == Ok::<(StatusPacketView, int), ProtocolError>(
            (packet, at + status_response_wire(packet).len()),
        ),
{
    let wire = status_response_wire(packet);
    assert(input[at] == wire[0]) by {
        assert(input.subrange(at, at + wire.len())[0] == input[at]);
    }
    match packet {
        StatusPacketView::StatusResponse { json_response } => {
            lemma_found_apart(input, at, seq![0u8], string_wire(json_response));
            lemma_string_round_trip(json_response, input, at + 1);
        },
        StatusPacketView::PingResponse { payload } => {
            let number = be_bytes(to_unsigned(payload as int, 8), 8);
            lemma_be_bytes_len(to_unsigned(payload as int, 8), 8);
            lemma_pow256_values();
            lemma_found_apart(input, at, seq![1u8], number);
            lemma_signed_round_trip(payload as int, 8, input, at + 1);
        },
    }
}

impl StatusPacket {
    fn read_fields(reader: &mut ByteReader) -> (result: Result<Self, ProtocolError>)
        ensures
            final(reader).buffer() == old(reader).buffer(),
            match parse_status_response(old(reader).buffer(), old(reader).position()) {
                Ok((value, end)) => {
                    &&& result matches Ok(read)
                    &&& read@ == value
                    &&& final(reader).position() == end
                },
                Err(e) => result matches Err(failure) && failure == e,
            },
    {
        match reader.read_u8()? {
            0 => Ok(StatusPacket::StatusResponse { json_response: String::deserialize_read(reader)? }),
            1 => Ok(StatusPacket::PingResponse { payload: reader.read_i64()? }),
            other => Err(ProtocolError::UnexpectedPacketId(other)),
        }
    }
}

impl McProtocol for StatusPacket {
    open spec fn wire_error(value: StatusPacketView) -> Option<ProtocolError> {
        status_response_error(value)
    }

    open spec fn wire(value: StatusPacketView) -> Seq<u8> {
        status_response_wire(value)
    }

    open spec fn parse(input: Seq<u8>, at: int) -> Result<(StatusPacketView, int), ProtocolError> {
        parse_status_response(input, at)
    }

    fn serialize_write(&self, writer: &mut Vec<u8>) -> (result: Result<(), ProtocolError>) {
        match self {
            StatusPacket::StatusResponse { json_response } => {
                write_u8(writer, 0);
                let written = json_response.serialize_write(writer);
                assert(writer@ =~= old(writer)@ + (seq![0u8] + string_wire(json_response@)));
                written
            },
            StatusPacket::PingResponse { payload } => {
                write_u8(writer, 1);
                write_i64(writer, *payload);
                assert(writer@ =~= old(writer)@ + (seq![1u8] + be_bytes(
                    to_unsigned(*payload as int, 8),
                    8,
                )));
                Ok(())
            },
        }
    }

    fn deserialize_read(reader: &mut ByteReader) -> (result: Result<Self, ProtocolError>) {
        let start = reader.offset();
        match Self::read_fields(reader) {
            Ok(packet) => Ok(packet),
            Err(e) => {
                reader.seek(start);
                Err(e)
            },
        }
    }
}

} // verus!
