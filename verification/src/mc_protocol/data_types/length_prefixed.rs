//! Bytes behind a length: a variable-length integer that counts them, then
//! the bytes themselves. Frames and strings are written this way.

use vstd::prelude::*;

use crate::error::ProtocolError;
use crate::mc_protocol::byte_reader::ByteReader;
use crate::mc_protocol::data_types::mc_varint::{
    as_signed, groups_value, lemma_groups_value_of_varint_bytes, lemma_parse_varint_finds,
    lemma_parse_varint_is_varint, lemma_parse_varint_stable, lemma_varint_bytes_is_varint,
    lemma_varint_cut_short,
    parse_varint, varint_bytes, McVarint,
};
use crate::mc_protocol::McProtocol;

verus! {

/// Why `data` cannot travel behind its length, if it cannot: the length must
/// fit a signed 32-bit number.
pub open spec fn length_error(data: Seq<u8>) -> Option<ProtocolError> {
    if data.len() > i32::MAX {
        Some(ProtocolError::LengthOutOfBounds)
    } else {
        None
    }
}

/// The wire form of `data` behind its length. Data that is too long to be
/// counted has none: nothing is written of it.
pub open spec fn length_prefixed(data: Seq<u8>) -> Seq<u8> {
    if data.len() > i32::MAX {
        Seq::<u8>::empty()
    } else {
        varint_bytes(data.len()) + data
    }
}

/// The length-prefixed bytes that start at index `at` of `input`, and the
/// index behind them. The length must not be negative, and all the bytes it
/// announces must be there.
pub open spec fn parse_length_prefixed(input: Seq<u8>, at: int) -> Result<
    (Seq<u8>, int),
    ProtocolError,
> {
    match parse_varint(input, at) {
        Err(e) => Err(e),
        Ok((prefix, body)) => {
            let length = as_signed(groups_value(prefix));
            if length < 0 {
                Err(ProtocolError::NegativeLength(length))
            } else if body + length > input.len() {
                Err(ProtocolError::UnexpectedEof)
            } else {
                Ok((input.subrange(body, body + length), body + length))
            }
        },
    }
}

/// Writing and reading length-prefixed bytes gives the bytes back: where the
/// wire form of `data` stands in an input, followed by whatever, reading
/// gives `data` and the index behind it.
pub proof fn lemma_length_prefixed_round_trip(data: Seq<u8>, input: Seq<u8>, at: int)
    requires
        length_error(data) is None,
        0 <= at,
        at + length_prefixed(data).len() <= input.len(),
        input.subrange(at, at + length_prefixed(data).len()) == length_prefixed(data),
    ensures
        parse_length_prefixed(input, at) == Ok::<(Seq<u8>, int), ProtocolError>(
            (data, at + length_prefixed(data).len()),
        ),
{
    let prefix = varint_bytes(data.len());
    let wire = length_prefixed(data);
    lemma_varint_bytes_is_varint(data.len());
    lemma_groups_value_of_varint_bytes(data.len());
    assert(input.subrange(at, at + prefix.len()) =~= prefix) by {
        assert(input.subrange(at, at + wire.len()).subrange(0, prefix.len() as int)
            =~= input.subrange(at, at + prefix.len()));
        assert(wire.subrange(0, prefix.len() as int) =~= prefix);
    }
    lemma_parse_varint_finds(input, at, prefix);
    let body = at + prefix.len();
    assert(input.subrange(body, body + data.len()) =~= data) by {
        assert(input.subrange(at, at + wire.len()).subrange(
            prefix.len() as int,
            wire.len() as int,
        ) =~= input.subrange(body, body + data.len()));
        assert(wire.subrange(prefix.len() as int, wire.len() as int) =~= data);
    }
}

/// Length-prefixed bytes that are cut short ask for more input: reading any
/// proper prefix of a wire form fails for want of input.
pub proof fn lemma_length_prefixed_cut_short(data: Seq<u8>, kept: int)
    requires
        length_error(data) is None,
        0 <= kept < length_prefixed(data).len(),
    ensures
        parse_length_prefixed(length_prefixed(data).take(kept), 0) == Err::<
            (Seq<u8>, int),
            ProtocolError,
        >(ProtocolError::UnexpectedEof),
{
    let prefix = varint_bytes(data.len());
    let wire = length_prefixed(data);
    let input = wire.take(kept);
    lemma_varint_bytes_is_varint(data.len());
    lemma_groups_value_of_varint_bytes(data.len());
    if kept < prefix.len() {
        assert forall|i: int| 0 <= i < input.len() implies input[i] >= 128 by {
            assert(input[i] == prefix[i]);
        }
        lemma_varint_cut_short(input, 0);
    } else {
        assert(input.subrange(0, prefix.len() as int) =~= prefix);
        lemma_parse_varint_finds(input, 0, prefix);
    }
}

/// What reading finds is what stands there: the bytes of the input from `at`
/// to the index behind the value are a length that is not negative, and then
/// the bytes that were read.
pub proof fn lemma_parse_length_prefixed_is_wire(input: Seq<u8>, at: int)
    requires
        0 <= at,
    ensures
        parse_length_prefixed(input, at) matches Ok((data, end)) ==> {
            &&& parse_varint(input, at) matches Ok((prefix, body))
            &&& as_signed(groups_value(prefix)) == data.len()
            &&& at < body <= end <= input.len()
            &&& input.subrange(at, end) == prefix + data
        },
{
    lemma_parse_varint_is_varint(input, at);
    match parse_length_prefixed(input, at) {
        Ok((data, end)) => {
            let prefix = parse_varint(input, at)->Ok_0.0;
            assert(input.subrange(at, end) =~= prefix + data);
        },
        Err(_) => {},
    }
}

/// What was read stays read: where reading does not fail for want of input,
/// it gives the same with more input behind.
pub proof fn lemma_parse_length_prefixed_stable(input: Seq<u8>, at: int, more: Seq<u8>)
    requires
        0 <= at,
        parse_length_prefixed(input, at) != Err::<(Seq<u8>, int), ProtocolError>(
            ProtocolError::UnexpectedEof,
        ),
    ensures
        parse_length_prefixed(input + more, at) == parse_length_prefixed(input, at),
{
    lemma_parse_varint_stable(input, at, more);
    lemma_parse_varint_is_varint(input, at);
    match parse_length_prefixed(input, at) {
        Ok((data, end)) => {
            let body = parse_varint(input, at)->Ok_0.1;
            assert((input + more).subrange(body, end) =~= input.subrange(body, end));
        },
        Err(_) => {},
    }
}

/// Bytes that travel behind their length.
#[derive(Debug)]
pub struct LengthPrefixed {
    data: Vec<u8>,
}

impl View for LengthPrefixed {
    type V = Seq<u8>;

    /// The bytes, without the length.
    closed spec fn view(&self) -> Seq<u8> {
        self.data@
    }
}

impl McProtocol for LengthPrefixed {
    open spec fn wire_error(value: Seq<u8>) -> Option<ProtocolError> {
        length_error(value)
    }

    open spec fn wire(value: Seq<u8>) -> Seq<u8> {
        length_prefixed(value)
    }

    open spec fn parse(input: Seq<u8>, at: int) -> Result<(Seq<u8>, int), ProtocolError> {
        parse_length_prefixed(input, at)
    }

    fn serialize_write(&self, writer: &mut Vec<u8>) -> (result: Result<(), ProtocolError>) {
        if self.data.len() > 0x7fff_ffff {
            assert(writer@ =~= old(writer)@ + Seq::<u8>::empty());
            return Err(ProtocolError::LengthOutOfBounds);
        }
        let prefix = McVarint::from(self.data.len() as i32);
        let _ = prefix.serialize_write(writer);
        writer.extend_from_slice(self.data.as_slice());
        assert(writer@ =~= old(writer)@ + length_prefixed(self.data@));
        Ok(())
    }

    fn deserialize_read(reader: &mut ByteReader) -> (result: Result<Self, ProtocolError>) {
        let start = reader.offset();
        let prefix = match McVarint::deserialize_read(reader) {
            Ok(prefix) => prefix,
            Err(e) => {
                return Err(e);
            },
        };
        let length: u32 = match u32::try_from(prefix) {
            Ok(length) => length,
            Err(e) => {
                reader.seek(start);
                return Err(e);
            },
        };
        match reader.read_exact(length as usize) {
            Ok(data) => Ok(LengthPrefixed { data }),
            Err(e) => {
                reader.seek(start);
                Err(e)
            },
        }
    }
}

impl From<Vec<u8>> for LengthPrefixed {
    fn from(data: Vec<u8>) -> (prefixed: Self)
        ensures
            prefixed@ == data@,
    {
        Self { data }
    }
}

impl vstd::std_specs::convert::FromSpecImpl<Vec<u8>> for LengthPrefixed {
    open spec fn obeys_from_spec() -> bool {
        true
    }

    closed spec fn from_spec(data: Vec<u8>) -> Self {
        LengthPrefixed { data }
    }
}

impl From<LengthPrefixed> for Vec<u8> {
    fn from(prefixed: LengthPrefixed) -> (data: Self)
        ensures
            data@ == prefixed@,
    {
        prefixed.data
    }
}

impl vstd::std_specs::convert::FromSpecImpl<LengthPrefixed> for Vec<u8> {
    open spec fn obeys_from_spec() -> bool {
        true
    }

    closed spec fn from_spec(prefixed: LengthPrefixed) -> Self {
        prefixed.data
    }
}

impl LengthPrefixed {
    /// The wire form of `object`, ready to travel behind its length.
    pub fn from_mc_protocol<T: McProtocol>(object: T) -> (prefixed: Result<Self, ProtocolError>)
        ensures
            match T::wire_error(object@) {
                None => prefixed matches Ok(p) && p@ == T::wire(object@),
                Some(e) => prefixed matches Err(failure) && failure == e,
            },
    {
        let mut bytes: Vec<u8> = Vec::new();
        match object.serialize_write(&mut bytes) {
            Ok(()) => {
                assert(bytes@ =~= T::wire(object@));
                Ok(Self::from(bytes))
            },
            Err(e) => Err(e),
        }
    }
}

/// Whether a whole frame has arrived at the front of what `stream` has left,
/// or something that is no frame: whether reading there gives what more
/// input cannot change (see `lemma_parse_length_prefixed_stable`). Reads
/// nothing.
pub fn frame_arrived(stream: &mut ByteReader) -> (arrived: bool)
    ensures
        final(stream).buffer() == old(stream).buffer(),
        final(stream).position() == old(stream).position(),
        arrived == (parse_length_prefixed(old(stream).buffer(), old(stream).position()) != Err::<
            (Seq<u8>, int),
            ProtocolError,
        >(ProtocolError::UnexpectedEof)),
{
    let start = stream.offset();
    let arrived = match LengthPrefixed::deserialize_read(stream) {
        Err(ProtocolError::UnexpectedEof) => false,
        _ => true,
    };
    stream.seek(start);
    arrived
}

/// Takes one length-prefixed run of bytes off `stream`, and hands it out as a
/// reader of its own: what is read from that reader is one packet, no more.
/// Where that fails, nothing has been taken.
pub fn get_length_prefixed_reader(stream: &mut ByteReader) -> (packet: Result<
    ByteReader,
    ProtocolError,
>)
    ensures
        final(stream).buffer() == old(stream).buffer(),
        match parse_length_prefixed(old(stream).buffer(), old(stream).position()) {
            Ok((payload, end)) => {
                &&& packet matches Ok(reader)
                &&& reader.buffer() == payload
                &&& reader.position() == 0
                &&& final(stream).position() == end
            },
            Err(e) => {
                &&& packet matches Err(failure)
                &&& failure == e
                &&& final(stream).position() == old(stream).position()
            },
        },
{
    match LengthPrefixed::deserialize_read(stream) {
        Ok(prefixed) => Ok(ByteReader::new(Vec::from(prefixed))),
        Err(e) => Err(e),
    }
}

} // verus!
