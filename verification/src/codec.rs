//! Messages in frames: each message travels behind its length, which is
//! written as a variable-length integer.

use vstd::prelude::*;

use crate::error::ProtocolError;
use crate::mc_protocol::byte_reader::ByteReader;
use crate::mc_protocol::data_types::mc_varint::{
    groups_value, lemma_groups_value_bound, lemma_groups_value_of_varint_bytes,
    lemma_groups_value_push, lemma_parse_varint_finds, lemma_varint_bytes_shape, parse_varint,
    pow128, scan_varint, varint_bytes,
};
use crate::varints::into_varint;

verus! {

/// The frame of a message: its length, and the message.
pub open spec fn message_frame(message: Seq<u8>) -> Seq<u8> {
    varint_bytes(message.len()) + message
}

/// The message whose frame starts at index `at` of `input`, and the index
/// behind the frame. The length is the low 32 bits of what the integer in
/// front denotes; as many bytes must follow.
pub open spec fn parse_message(input: Seq<u8>, at: int) -> Result<(Seq<u8>, int), ProtocolError> {
    match parse_varint(input, at) {
        Err(e) => Err(e),
        Ok((prefix, body)) => {
            let length = groups_value(prefix) % 0x1_0000_0000;
            if body + length > input.len() {
                Err(ProtocolError::UnexpectedEof)
            } else {
                Ok((input.subrange(body, body + length), body + length))
            }
        },
    }
}

/// The bytes of a length that have been read so far.
#[derive(Debug, Clone, Copy, PartialEq, Eq, Structural)]
pub struct VarintBuffer {
    /// How many bytes have been read.
    pub length: usize,
    /// What their groups denote.
    pub data: u32,
}

/// The length of a packet, while it is read and once it is known.
#[derive(Debug, Clone, Copy, PartialEq, Eq, Structural)]
pub enum PacketLength {
    Known(u32),
    Reading(VarintBuffer),
}

impl PacketLength {
    /// A length of which nothing has been read yet.
    pub fn unknown() -> (length: PacketLength)
        ensures
            length == PacketLength::Reading(VarintBuffer { length: 0, data: 0 }),
    {
        PacketLength::Reading(VarintBuffer { length: 0, data: 0 })
    }

    /// The length, once it is known.
    pub fn length(&self) -> (length: Result<u32, ProtocolError>)
        ensures
            length == match *self {
                PacketLength::Known(packet_length) => Ok::<u32, ProtocolError>(packet_length),
                PacketLength::Reading(_) => Err(ProtocolError::LengthUnknown),
            },
    {
        match self {
            PacketLength::Known(packet_length) => Ok(*packet_length),
            PacketLength::Reading(_) => Err(ProtocolError::LengthUnknown),
        }
    }

    /// Takes what has been read for the whole length.
    pub fn to_known(&mut self)
        ensures
            *final(self) == match *old(self) {
                PacketLength::Known(packet_length) => PacketLength::Known(packet_length),
                PacketLength::Reading(varint) => PacketLength::Known(varint.data),
            },
    {
        if let PacketLength::Reading(varint) = *self {
            *self = PacketLength::Known(varint.data);
        }
    }
}

/// The weight of the group at index `length`, for the five groups that a
/// length may have.
fn group_weight(length: usize) -> (weight: u64)
    requires
        length <= 4,
    ensures
        weight == pow128(length as nat),
        weight <= 268435456,
{
    proof {
        reveal_with_fuel(pow128, 5);
    }
    if length == 0 {
        1
    } else if length == 1 {
        128
    } else if length == 2 {
        16384
    } else if length == 3 {
        2097152
    } else {
        268435456
    }
}

/// Messages that were received and are to be read, and messages that were
/// written and are to be sent.
#[derive(Debug)]
pub struct Codec {
    reader: ByteReader,
    writer: Vec<u8>,
}

impl Codec {
    /// The bytes that were received and have not been read.
    pub closed spec fn incoming(&self) -> Seq<u8> {
        self.reader@
    }

    /// The bytes that were written.
    pub closed spec fn outgoing(&self) -> Seq<u8> {
        self.writer@
    }

    /// A codec that has received `received`, and has written nothing.
    pub fn new(received: Vec<u8>) -> (codec: Self)
        ensures
            codec.incoming() == received@,
            codec.outgoing() == Seq::<u8>::empty(),
    {
        let reader = ByteReader::new(received);
        assert(reader@ =~= received@);
        Codec { reader, writer: Vec::new() }
    }

    /// The codec after it has received `more`.
    pub fn receive(self, more: &[u8]) -> (codec: Self)
        ensures
            codec.incoming() == self.incoming() + more@,
            codec.outgoing() == self.outgoing(),
    {
        proof {
            use_type_invariant(&self.reader);
        }
        let reader = self.reader.extend(more);
        assert(reader@ =~= self.reader@ + more@);
        Codec { reader, writer: self.writer }
    }

    /// The bytes that were written.
    pub fn written(&self) -> (bytes: &Vec<u8>)
        ensures
            bytes@ == self.outgoing(),
    {
        &self.writer
    }

    /// Writes the frame of `message`.
    pub fn send_message(&mut self, message: Vec<u8>)
        ensures
            final(self).incoming() == old(self).incoming(),
            final(self).outgoing() == old(self).outgoing() + message_frame(message@),
    {
        let mut packet = into_varint(message.len());
        packet.extend_from_slice(message.as_slice());
        self.writer.extend_from_slice(packet.as_slice());
    }

    /// Reads the message of one frame. Where that fails, nothing has been
    /// read.
    pub fn read_message(&mut self) -> (message: Result<Vec<u8>, ProtocolError>)
        ensures
            final(self).outgoing() == old(self).outgoing(),
            match parse_message(old(self).incoming(), 0) {
                Ok((payload, end)) => {
                    &&& message matches Ok(bytes)
                    &&& bytes@ == payload
                    &&& final(self).incoming() == old(self).incoming().skip(end)
                },
                Err(e) => {
                    &&& message matches Err(failure)
                    &&& failure == e
                    &&& final(self).incoming() == old(self).incoming()
                },
            },
    {
        let start = self.reader.offset();
        let ghost input = self.reader.buffer();
        let ghost incoming = self.reader@;
        proof {
            lemma_parse_message_skip(input, start as int);
            reveal_with_fuel(pow128, 5);
            assert(input.subrange(start as int, start + 0) =~= Seq::<u8>::empty());
        }
        let ghost expected = parse_message(incoming, 0);
        let mut packet_length = PacketLength::unknown();
        let mut taken: usize = 0;
        loop
            invariant_except_break
                packet_length == PacketLength::Reading(
                    VarintBuffer {
                        length: taken,
                        data: groups_value(input.subrange(start as int, start + taken)) as u32,
                    },
                ),
                taken <= 4,
                forall|j: int| start <= j < start + taken ==> input[j] >= 128,
                scan_varint(input, start as int, 0) == scan_varint(
                    input,
                    start as int,
                    taken as nat,
                ),
                groups_value(input.subrange(start as int, start + taken)) < pow128(taken as nat),
            invariant
                self.reader.buffer() == input,
                self.reader.position() == start + taken,
                self.writer@ == old(self).writer@,
                old(self).reader@ == incoming,
                incoming == input.skip(start as int),
                start + taken <= input.len(),
                expected == parse_message(incoming, 0),
                expected == match parse_message(input, start as int) {
                    Ok((payload, end)) => Ok::<(Seq<u8>, int), ProtocolError>(
                        (payload, end - start),
                    ),
                    Err(e) => Err(e),
                },
                pow128(4) == 268435456,
            ensures
                1 <= taken <= 5,
                scan_varint(input, start as int, 0) == Ok::<int, ProtocolError>(start + taken),
                packet_length == PacketLength::Known(
                    (groups_value(input.subrange(start as int, start + taken))
                        % 0x1_0000_0000) as u32,
                ),
            decreases 5 - taken,
        {
            let varint = match packet_length {
                PacketLength::Reading(varint) => varint,
                PacketLength::Known(_) => {
                    break ;
                },
            };
            let data = match self.reader.read_u8() {
                Ok(data) => data,
                Err(e) => {
                    self.reader.seek(start);
                    return Err(e);
                },
            };
            proof {
                let before = input.subrange(start as int, start + taken);
                assert(input.subrange(start as int, start + taken + 1) =~= before.push(data));
                lemma_groups_value_push(before, data);
                lemma_groups_value_bound(before.push(data));
                crate::mc_protocol::data_types::mc_varint::lemma_pow128_monotonic(taken as nat, 4);
                assert((data % 128) as int * pow128(taken as nat) as int <= 127 * 268435456)
                    by (nonlinear_arith)
                    requires
                        0 <= (data % 128) as int <= 127,
                        0 <= pow128(taken as nat) as int <= 268435456,
                ;
                reveal_with_fuel(pow128, 6);
                reveal_with_fuel(scan_varint, 3);
            }
            let sum: u64 = varint.data as u64 + (data % 128) as u64 * group_weight(varint.length);
            if data >= 128 {
                if varint.length + 1 > 4 {
                    self.reader.seek(start);
                    return Err(ProtocolError::VarintTooLong);
                }
                packet_length = PacketLength::Reading(
                    VarintBuffer { length: varint.length + 1, data: sum as u32 },
                );
                taken = taken + 1;
            } else {
                packet_length = PacketLength::Reading(
                    VarintBuffer { length: varint.length, data: (sum % 0x1_0000_0000) as u32 },
                );
                packet_length.to_known();
                taken = taken + 1;
                break ;
            }
        }
        let length = match packet_length.length() {
            Ok(length) => length,
            Err(e) => {
                self.reader.seek(start);
                return Err(e);
            },
        };
        match self.reader.read_exact(length as usize) {
            Ok(packet_body) => {
                proof {
                    let end = start + taken + length;
                    assert(self.reader@ =~= incoming.skip(end - start));
                    assert(input.subrange(start + taken, end) =~= incoming.subrange(
                        taken as int,
                        end - start,
                    ));
                }
                Ok(packet_body)
            },
            Err(e) => {
                self.reader.seek(start);
                Err(e)
            },
        }
    }
}

/// A frame reads the same wherever it stands in its input.
pub proof fn lemma_parse_message_skip(input: Seq<u8>, at: int)
    requires
        0 <= at <= input.len(),
    ensures
        parse_message(input.skip(at), 0) == match parse_message(input, at) {
            Ok((payload, end)) => Ok::<(Seq<u8>, int), ProtocolError>((payload, end - at)),
            Err(e) => Err(e),
        },
{
    let rest = input.skip(at);
    reveal_with_fuel(scan_varint, 6);
    assert(forall|i: int| 0 <= i < rest.len() ==> rest[i] == input[at + i]);
    match parse_varint(input, at) {
        Ok((prefix, body)) => {
            assert(rest.subrange(0, body - at) =~= input.subrange(at, body));
            let length = groups_value(prefix) % 0x1_0000_0000;
            if body + length <= input.len() {
                assert(rest.subrange(body - at, body - at + length) =~= input.subrange(
                    body,
                    body + length,
                ));
            }
        },
        Err(_) => {},
    }
}

/// Writing and reading a message gives the message back: where the frame of
/// a message stands in an input, followed by whatever, reading gives the
/// message and the index behind the frame. The length of the message must
/// fit 32 bits, as many as the reader keeps of a length.
pub proof fn lemma_message_round_trip(message: Seq<u8>, input: Seq<u8>, at: int)
    requires
        message.len() < 0x1_0000_0000,
        0 <= at,
        at + message_frame(message).len() <= input.len(),
        input.subrange(at, at + message_frame(message).len()) == message_frame(message),
    ensures
        parse_message(input, at) == Ok::<(Seq<u8>, int), ProtocolError>(
            (message, at + message_frame(message).len()),
        ),
{
    let prefix = varint_bytes(message.len());
    let frame = message_frame(message);
    assert(pow128(5) == 34359738368) by {
        reveal_with_fuel(pow128, 6);
    }
    lemma_varint_bytes_shape(message.len(), 5);
    lemma_groups_value_of_varint_bytes(message.len());
    assert(input.subrange(at, at + prefix.len()) =~= prefix) by {
        assert(input.subrange(at, at + frame.len()).subrange(0, prefix.len() as int)
            =~= input.subrange(at, at + prefix.len()));
        assert(frame.subrange(0, prefix.len() as int) =~= prefix);
    }
    lemma_parse_varint_finds(input, at, prefix);
    let body = at + prefix.len();
    assert(input.subrange(body, body + message.len()) =~= message) by {
        assert(input.subrange(at, at + frame.len()).subrange(
            prefix.len() as int,
            frame.len() as int,
        ) =~= input.subrange(body, body + message.len()));
        assert(frame.subrange(prefix.len() as int, frame.len() as int) =~= message);
    }
}

} // verus!
