//! Strings on the wire: the UTF-8 bytes of the text behind their count.

use vstd::prelude::*;
use vstd::utf8::{
    decode_utf8, encode_utf8, encode_utf8_decode_utf8, encode_utf8_valid_utf8, valid_utf8,
};

use crate::error::ProtocolError;
use crate::mc_protocol::byte_reader::ByteReader;
use crate::mc_protocol::data_types::length_prefixed::{
    lemma_length_prefixed_cut_short, lemma_length_prefixed_round_trip, length_error,
    length_prefixed, parse_length_prefixed, LengthPrefixed,
};
use crate::mc_protocol::McProtocol;

verus! {

/// Why a text cannot be written, if it cannot: its UTF-8 bytes must be few
/// enough to be counted.
pub open spec fn string_error(text: Seq<char>) -> Option<ProtocolError> {
    length_error(encode_utf8(text))
}

/// The wire form of a text: its UTF-8 bytes behind their count.
pub open spec fn string_wire(text: Seq<char>) -> Seq<u8> {
    length_prefixed(encode_utf8(text))
}

/// The string that starts at index `at` of `input`, and the index behind it.
/// Its bytes must be valid UTF-8.
pub open spec fn parse_string(input: Seq<u8>, at: int) -> Result<(Seq<char>, int), ProtocolError> {
    match parse_length_prefixed(input, at) {
        Err(e) => Err(e),
        Ok((bytes, end)) => {
            if valid_utf8(bytes) {
                Ok((decode_utf8(bytes), end))
            } else {
                Err(ProtocolError::InvalidUtf8)
            }
        },
    }
}

/// Writing and reading a string gives the string back: where the wire form
/// of `text` stands in an input, followed by whatever, reading gives `text`
/// and the index behind it.
pub proof fn lemma_string_round_trip(text: Seq<char>, input: Seq<u8>, at: int)
    requires
        string_error(text) is None,
        0 <= at,
        at + string_wire(text).len() <= input.len(),
        input.subrange(at, at + string_wire(text).len()) == string_wire(text),
    ensures
        parse_string(input, at) == Ok::<(Seq<char>, int), ProtocolError>(
            (text, at + string_wire(text).len()),
        ),
{
    lemma_length_prefixed_round_trip(encode_utf8(text), input, at);
    encode_utf8_valid_utf8(text);
    encode_utf8_decode_utf8(text);
}

/// A string that is cut short asks for more input: reading any proper prefix
/// of a wire form fails for want of input.
pub proof fn lemma_string_cut_short(text: Seq<char>, kept: int)
    requires
        string_error(text) is None,
        0 <= kept < string_wire(text).len(),
    ensures
        parse_string(string_wire(text).take(kept), 0) == Err::<(Seq<char>, int), ProtocolError>(
            ProtocolError::UnexpectedEof,
        ),
        ProtocolError::UnexpectedEof.spec_kind() == crate::error::ErrorKind::UnexpectedEof,
{
    lemma_length_prefixed_cut_short(encode_utf8(text), kept);
}

/// Bytes that are no UTF-8 are no string: where such bytes stand behind
/// their length, reading fails, and the failure is one of invalid data.
pub proof fn lemma_string_invalid_utf8(data: Seq<u8>, input: Seq<u8>, at: int)
    requires
        length_error(data) is None,
        !valid_utf8(data),
        0 <= at,
        at + length_prefixed(data).len() <= input.len(),
        input.subrange(at, at + length_prefixed(data).len()) == length_prefixed(data),
    ensures
        parse_string(input, at) == Err::<(Seq<char>, int), ProtocolError>(
            ProtocolError::InvalidUtf8,
        ),
        ProtocolError::InvalidUtf8.spec_kind() == crate::error::ErrorKind::InvalidData,
{
    lemma_length_prefixed_round_trip(data, input, at);
}

/// `String::from_utf8` of std: the text that `bytes` hold in UTF-8, or
/// nothing where they are not valid UTF-8.
#[verifier::external_body]
fn string_from_utf8(bytes: Vec<u8>) -> (text: Option<String>)
    ensures
        match text {
            Some(s) => valid_utf8(bytes@) && s@ == decode_utf8(bytes@),
            None => !valid_utf8(bytes@),
        },
{
    String::from_utf8(bytes).ok()
}

impl McProtocol for String {
    open spec fn wire_error(value: Seq<char>) -> Option<ProtocolError> {
        string_error(value)
    }

    open spec fn wire(value: Seq<char>) -> Seq<u8> {
        string_wire(value)
    }

    open spec fn parse(input: Seq<u8>, at: int) -> Result<(Seq<char>, int), ProtocolError> {
        parse_string(input, at)
    }

    fn serialize_write(&self, writer: &mut Vec<u8>) -> (result: Result<(), ProtocolError>) {
        let mut bytes: Vec<u8> = Vec::new();
        bytes.extend_from_slice(self.as_str().as_bytes());
        assert(bytes@ =~= encode_utf8(self@));
        LengthPrefixed::from(bytes).serialize_write(writer)
    }

    fn deserialize_read(reader: &mut ByteReader) -> (result: Result<Self, ProtocolError>) {
        let start = reader.offset();
        let bytes: Vec<u8> = match LengthPrefixed::deserialize_read(reader) {
            Ok(prefixed) => Vec::from(prefixed),
            Err(e) => {
                return Err(e);
            },
        };
        match string_from_utf8(bytes) {
            Some(text) => Ok(text),
            None => {
                reader.seek(start);
                Err(ProtocolError::InvalidUtf8)
            },
        }
    }
}

} // verus!
