//! What a client sends in the status state: a request for the server's
//! status, and a ping to be echoed.

use vstd::prelude::*;

use crate::error::ProtocolError;
use crate::mc_protocol::byte_reader::{
    be_bytes, lemma_be_bytes_len, lemma_found_apart, lemma_pow256_values,
    lemma_signed_round_trip, signed_at, to_unsigned, write_i64, write_u8, ByteReader,
};
use crate::mc_protocol::McProtocol;

verus! {

/// A packet of the status state, from the client.
#[derive(Debug, Clone, Copy, PartialEq, Eq, Structural)]
pub enum StatusPacket {
    StatusRequest {  },
    PingRequest { payload: i64 },
}

impl View for StatusPacket {
    type V = StatusPacket;

    open spec fn view(&self) -> StatusPacket {
        *self
    }
}

/// The wire form of a status-state packet from the client: the packet id,
/// and behind the id 1 the payload of the ping.
pub open spec fn status_request_wire(packet: StatusPacket) -> Seq<u8> {
    match packet {
        StatusPacket::StatusRequest {  } => seq![0u8],
        StatusPacket::PingRequest { payload } => seq![1u8] + be_bytes(
            to_unsigned(payload as int, 8),
            8,
        ),
    }
}

/// The status-state packet from the client that starts at index `at` of
/// `input`, and the index behind it.
pub open spec fn parse_status_request(input: Seq<u8>, at: int) -> Result<
    (StatusPacket, int),
    ProtocolError,
> {
    if at >= input.len() {
        Err(ProtocolError::UnexpectedEof)
    } else if input[at] == 0 {
        Ok((StatusPacket::StatusRequest {  }, at + 1))
    } else if input[at] == 1 {
        if at + 9 > input.len() {
            Err(ProtocolError::UnexpectedEof)
        } else {
            Ok((StatusPacket::PingRequest { payload: signed_at(input, at + 1, 8) as i64 }, at + 9))
        }
    } else {
        Err(ProtocolError::UnexpectedPacketId(input[at]))
    }
}

/// Writing and reading a status-state packet from the client gives the
/// packet back: where its wire form stands in an input, followed by
/// whatever, reading gives the packet and the index behind it.
pub proof fn lemma_status_request_round_trip(packet: StatusPacket, input: Seq<u8>, at: int)
    requires
        0 <= at,
        at + status_request_wire(packet).len() <= input.len(),
        input.subrange(at, at + status_request_wire(packet).len()) == status_request_wire(packet),
    ensures
        parse_status_request(input, at) == Ok::<(StatusPacket, int), ProtocolError>(
            (packet, at + status_request_wire(packet).len()),
        ),
{
    let wire = status_request_wire(packet);
    assert(input[at] == wire[0]) by {
        assert(input.subrange(at, at + wire.len())[0] == input[at]);
    }
    match packet {
        StatusPacket::StatusRequest {  } => {},
        StatusPacket::PingRequest { payload } => {
            let number = be_bytes(to_unsigned(payload as int, 8), 8);
            lemma_be_bytes_len(to_unsigned(payload as int, 8), 8);
            lemma_pow256_values();
            lemma_found_apart(input, at, seq![1u8], number);
            lemma_signed_round_trip(payload as int, 8, input, at + 1);
        },
    }
}

impl StatusPacket {
    fn read_fields(reader: &mut ByteReader) -> (result: Result<Self, ProtocolError>)
        ensures
            final(reader).buffer() == old(reader).buffer(),
            match parse_status_request(old(reader).buffer(), old(reader).position()) {
                Ok((value, end)) => {
                    &&& result matches Ok(read)
                    &&& read == value
                    &&& final(reader).position() == end
                },
                Err(e) => result matches Err(failure) && failure == e,
            },
    {
        match reader.read_u8()? {
            0 => Ok(Self::StatusRequest {  }),
            1 => Ok(Self::PingRequest { payload: reader.read_i64()? }),
            other => Err(ProtocolError::UnexpectedPacketId(other)),
        }
    }
}

impl McProtocol for StatusPacket {
    open spec fn wire_error(value: StatusPacket) -> Option<ProtocolError> {
        None
    }

    open spec fn wire(value: StatusPacket) -> Seq<u8> {
        status_request_wire(value)
    }

    open spec fn parse(input: Seq<u8>, at: int) -> Result<(StatusPacket, int), ProtocolError> {
        parse_status_request(input, at)
    }

    fn serialize_write(&self, writer: &mut Vec<u8>) -> (result: Result<(), ProtocolError>) {
        match self {
            Self::StatusRequest {  } => {
                write_u8(writer, 0);
                assert(writer@ =~= old(writer)@ + seq![0u8]);
            },
            Self::PingRequest { payload } => {
                write_u8(writer, 1);
                write_i64(writer, *payload);
                assert(writer@ =~= old(writer)@ + (seq![1u8] + be_bytes(
                    to_unsigned(*payload as int, 8),
                    8,
                )));
            },
        }
        Ok(())
    }

    fn deserialize_read(reader: &mut ByteReader) -> (result: Result<Self, ProtocolError>) {
        let start = reader.offset();
        match Self::read_fields(reader) {
            Ok(packet) => Ok(packet),
            Err(e) => {
                reader.seek(start);
                Err(e)
            },
        }
    }
}

} // verus!
