//! What a client sends in the login state. Only the start of a login is
//! read; in this version it may carry the player's signature data.

use vstd::prelude::*;
use vstd::utf8::encode_utf8;

use crate::error::ProtocolError;
use crate::mc_protocol::byte_reader::{
    be_bytes, lemma_be_bytes_len, lemma_found_apart, lemma_pow256_values,
    lemma_signed_round_trip, lemma_unsigned_round_trip, signed_at, to_unsigned, unsigned_at,
    write_i64, write_u128, write_u8, ByteReader,
};
use crate::mc_protocol::data_types::length_prefixed::{
    lemma_length_prefixed_round_trip, length_prefixed, parse_length_prefixed, LengthPrefixed,
};
use crate::mc_protocol::data_types::mc_string::{lemma_string_round_trip, parse_string, string_wire};
use crate::mc_protocol::McProtocol;

verus! {

/// A packet of the login state, from the client.
#[derive(Debug)]
pub enum LoginPacket {
    LoginStart { name: String, sig_data: Option<SigData>, player_uuid: Option<u128> },
}

/// The signature data that a login may carry.
#[derive(Debug)]
pub struct SigData {
    pub timestamp: i64,
    pub public_key: Vec<u8>,
    pub signature: Vec<u8>,
}

/// What signature data holds, as plain values.
pub struct SigDataView {
    pub timestamp: i64,
    pub public_key: Seq<u8>,
    pub signature: Seq<u8>,
}

impl View for SigData {
    type V = SigDataView;

    open spec fn view(&self) -> SigDataView {
        SigDataView {
            timestamp: self.timestamp,
            public_key: self.public_key@,
            signature: self.signature@,
        }
    }
}

/// What a login-state packet from the client holds, as plain values.
pub enum LoginPacketView {
    LoginStart { name: Seq<char>, sig_data: Option<SigDataView>, player_uuid: Option<u128> },
}

/// The view of signature data that may be absent.
pub open spec fn sig_data_view(sig_data: Option<SigData>) -> Option<SigDataView> {
    match sig_data {
        None => None,
        Some(data) => Some(data@),
    }
}

impl View for LoginPacket {
    type V = LoginPacketView;

    open spec fn view(&self) -> LoginPacketView {
        match self {
            LoginPacket::LoginStart { name, sig_data, player_uuid } => LoginPacketView::LoginStart {
                name: name@,
                sig_data: sig_data_view(*sig_data),
                player_uuid: *player_uuid,
            },
        }
    }
}

/// The wire form of a player's id that may be absent: a presence byte, and
/// behind the byte 1 the 16 bytes of the id.
pub open spec fn uuid_wire(player_uuid: Option<u128>) -> Seq<u8> {
    match player_uuid {
        None => seq![0u8],
        Some(uuid) => seq![1u8] + be_bytes(uuid as nat, 16),
    }
}

/// The player's id that starts at index `at` of `input`, if one is present,
/// and the index behind it.
pub open spec fn parse_uuid(input: Seq<u8>, at: int) -> Result<(Option<u128>, int), ProtocolError> {
    if at >= input.len() {
        Err(ProtocolError::UnexpectedEof)
    } else if input[at] == 0 {
        Ok((None, at + 1))
    } else if input[at] == 1 {
        if at + 17 > input.len() {
            Err(ProtocolError::UnexpectedEof)
        } else {
            Ok((Some(unsigned_at(input, at + 1, 16) as u128), at + 17))
        }
    } else {
        Err(ProtocolError::InvalidBoolean(input[at]))
    }
}

/// Why signature data cannot be written, if it cannot: the key and the
/// signature must each be short enough to be counted.
pub open spec fn sig_data_error(sig_data: Option<SigDataView>) -> Option<ProtocolError> {
    match sig_data {
        None => None,
        Some(data) => if data.public_key.len() > i32::MAX || data.signature.len() > i32::MAX {
            Some(ProtocolError::LengthOutOfBounds)
        } else {
            None
        },
    }
}

/// The bytes that writing signature data appends: a presence byte, and
/// behind the byte 1 the timestamp, the key and the signature, up to the
/// first of them that is too long to be counted.
pub open spec fn sig_data_wire(sig_data: Option<SigDataView>) -> Seq<u8> {
    match sig_data {
        None => seq![0u8],
        Some(data) => {
            let head = seq![1u8] + be_bytes(to_unsigned(data.timestamp as int, 8), 8);
            if data.public_key.len() > i32::MAX {
                head
            } else {
                head + length_prefixed(data.public_key) + length_prefixed(data.signature)
            }
        },
    }
}

/// The signature data that starts at index `at` of `input`, if any is
/// present, and the index behind it.
pub open spec fn parse_sig_data(input: Seq<u8>, at: int) -> Result<
    (Option<SigDataView>, int),
    ProtocolError,
> {
    if at >= input.len() {
        Err(ProtocolError::UnexpectedEof)
    } else if input[at] == 0 {
        Ok((None, at + 1))
    } else if input[at] == 1 {
        if at + 9 > input.len() {
            Err(ProtocolError::UnexpectedEof)
        } else {
            match parse_length_prefixed(input, at + 9) {
                Err(e) => Err(e),
                Ok((public_key, signature_at)) => match parse_length_prefixed(input, signature_at) {
                    Err(e) => Err(e),
                    Ok((signature, end)) => Ok(
                        (
                            Some(
                                SigDataView {
                                    timestamp: signed_at(input, at + 1, 8) as i64,
                                    public_key,
                                    signature,
                                },
                            ),
                            end,
                        ),
                    ),
                },
            }
        }
    } else {
        Err(ProtocolError::InvalidBoolean(input[at]))
    }
}

/// Why a login-state packet cannot be written, if it cannot: the name must
/// be 16 bytes at most, and the signature data must be writable.
pub open spec fn login_start_error(packet: LoginPacketView) -> Option<ProtocolError> {
    match packet {
        LoginPacketView::LoginStart { name, sig_data, player_uuid } => {
            if encode_utf8(name).len() > 16 {
                Some(ProtocolError::NameTooLong)
            } else {
                sig_data_error(sig_data)
            }
        },
    }
}

/// The bytes that writing a login-state packet appends. Nothing is written of
/// a packet whose name is too long. Else the packet id 0, the name and the
/// signature data are written, and behind them, if the signature data was
/// written whole, the player's id.
pub open spec fn login_start_wire(packet: LoginPacketView) -> Seq<u8> {
    match packet {
        LoginPacketView::LoginStart { name, sig_data, player_uuid } => {
            if encode_utf8(name).len() > 16 {
                Seq::<u8>::empty()
            } else if sig_data_error(sig_data) is Some {
                seq![0u8] + string_wire(name) + sig_data_wire(sig_data)
            } else {
                seq![0u8] + string_wire(name) + sig_data_wire(sig_data) + uuid_wire(player_uuid)
            }
        },
    }
}

/// The login-state packet from the client that starts at index `at` of
/// `input`, and the index behind it. The ids 1 and 2 are known, but packets
/// of those kinds are not read.
pub open spec fn parse_login_start(input: Seq<u8>, at: int) -> Result<
    (LoginPacketView, int),
    ProtocolError,
> {
    if at >= input.len() {
        Err(ProtocolError::UnexpectedEof)
    } else if input[at] == 0 {
        match parse_string(input, at + 1) {
            Err(e) => Err(e),
            Ok((name, sig_at)) => if encode_utf8(name).len() > 16 {
                Err(ProtocolError::NameTooLong)
            } else {
                match parse_sig_data(input, sig_at) {
                    Err(e) => Err(e),
                    Ok((sig_data, uuid_at)) => match parse_uuid(input, uuid_at) {
                        Err(e) => Err(e),
                        Ok((player_uuid, end)) => Ok(
                            (LoginPacketView::LoginStart { name, sig_data, player_uuid }, end),
                        ),
                    },
                }
            },
        }
    } else if input[at] == 1 || input[at] == 2 {
        Err(ProtocolError::UnsupportedPacket(input[at]))
    } else {
        Err(ProtocolError::UnexpectedPacketId(input[at]))
    }
}

/// Writing and reading a player's id gives the id back: where its wire form
/// stands in an input, followed by whatever, reading gives the id and the
/// index behind it.
pub proof fn lemma_uuid_round_trip(player_uuid: Option<u128>, input: Seq<u8>, at: int)
    requires
        0 <= at,
        at + uuid_wire(player_uuid).len() <= input.len(),
        input.subrange(at, at + uuid_wire(player_uuid).len()) == uuid_wire(player_uuid),
    ensures
        parse_uuid(input, at) == Ok::<(Option<u128>, int), ProtocolError>(
            (player_uuid, at + uuid_wire(player_uuid).len()),
        ),
{
    let wire = uuid_wire(player_uuid);
    assert(input[at] == wire[0]) by {
        assert(input.subrange(at, at + wire.len())[0] == input[at]);
    }
    match player_uuid {
        None => {},
        Some(uuid) => {
            lemma_be_bytes_len(uuid as nat, 16);
            lemma_pow256_values();
            lemma_found_apart(input, at, seq![1u8], be_bytes(uuid as nat, 16));
            lemma_unsigned_round_trip(uuid as nat, 16, input, at + 1);
        },
    }
}

/// Writing and reading signature data gives the data back: where the wire
/// form of data that can be written stands in an input, followed by
/// whatever, reading gives the data and the index behind it.
pub proof fn lemma_sig_data_round_trip(sig_data: Option<SigDataView>, input: Seq<u8>, at: int)
    requires
        sig_data_error(sig_data) is None,
        0 <= at,
        at + sig_data_wire(sig_data).len() <= input.len(),
        input.subrange(at, at + sig_data_wire(sig_data).len()) == sig_data_wire(sig_data),
    ensures
        parse_sig_data(input, at) == Ok::<(Option<SigDataView>, int), ProtocolError>(
            (sig_data, at + sig_data_wire(sig_data).len()),
        ),
{
    let wire = sig_data_wire(sig_data);
    assert(input[at] == wire[0]) by {
        assert(input.subrange(at, at + wire.len())[0] == input[at]);
    }
    match sig_data {
        None => {},
        Some(data) => {
            let timestamp = be_bytes(to_unsigned(data.timestamp as int, 8), 8);
            let key = length_prefixed(data.public_key);
            let signature = length_prefixed(data.signature);
            lemma_be_bytes_len(to_unsigned(data.timestamp as int, 8), 8);
            lemma_pow256_values();
            assert(wire =~= seq![1u8] + (timestamp + (key + signature)));
            lemma_found_apart(input, at, seq![1u8], timestamp + (key + signature));
            lemma_found_apart(input, at + 1, timestamp, key + signature);
            lemma_found_apart(input, at + 9, key, signature);
            lemma_signed_round_trip(data.timestamp as int, 8, input, at + 1);
            lemma_length_prefixed_round_trip(data.public_key, input, at + 9);
            lemma_length_prefixed_round_trip(data.signature, input, at + 9 + key.len());
        },
    }
}

/// Writing and reading the start of a login gives the packet back: where the
/// wire form of a packet that can be written stands in an input, followed by
/// whatever, reading gives the packet and the index behind it.
pub proof fn lemma_login_start_round_trip(packet: LoginPacketView, input: Seq<u8>, at: int)
    requires
        login_start_error(packet) is None,
        0 <= at,
        at + login_start_wire(packet).len() <= input.len(),
        input.subrange(at, at + login_start_wire(packet).len()) == login_start_wire(packet),
    ensures
        parse_login_start(input, at) == Ok::<(LoginPacketView, int), ProtocolError>(
            (packet, at + login_start_wire(packet).len()),
        ),
{
    let wire = login_start_wire(packet);
    match packet {
        LoginPacketView::LoginStart { name, sig_data, player_uuid } => {
            let name_wire = string_wire(name);
            let sig_wire = sig_data_wire(sig_data);
            let id_wire = uuid_wire(player_uuid);
            assert(wire =~= seq![0u8] + (name_wire + (sig_wire + id_wire)));
            assert(input[at] == wire[0]) by {
                assert(input.subrange(at, at + wire.len())[0] == input[at]);
            }
            lemma_found_apart(input, at, seq![0u8], name_wire + (sig_wire + id_wire));
            lemma_found_apart(input, at + 1, name_wire, sig_wire + id_wire);
            lemma_found_apart(input, at + 1 + name_wire.len(), sig_wire, id_wire);
            lemma_string_round_trip(name, input, at + 1);
            lemma_sig_data_round_trip(sig_data, input, at + 1 + name_wire.len());
            lemma_uuid_round_trip(player_uuid, input, at + 1 + name_wire.len() + sig_wire.len());
        },
    }
}

/// Appends a player's id that may be absent.
pub fn write_uuid(writer: &mut Vec<u8>, player_uuid: Option<u128>)
    ensures
        final(writer)@ == old(writer)@ + uuid_wire(player_uuid),
{
    match player_uuid {
        Some(uuid) => {
            write_u8(writer, 1);
            write_u128(writer, uuid);
            assert(writer@ =~= old(writer)@ + (seq![1u8] + be_bytes(uuid as nat, 16)));
        },
        None => {
            write_u8(writer, 0);
            assert(writer@ =~= old(writer)@ + seq![0u8]);
        },
    }
}

/// Reads a player's id that may be absent. Where that fails, the reader is
/// left wherever the failure was found.
pub(crate) fn read_uuid(reader: &mut ByteReader) -> (result: Result<Option<u128>, ProtocolError>)
    ensures
        final(reader).buffer() == old(reader).buffer(),
        match parse_uuid(old(reader).buffer(), old(reader).position()) {
            Ok((value, end)) => {
                &&& result matches Ok(read)
                &&& read == value
                &&& final(reader).position() == end
            },
            Err(e) => result matches Err(failure) && failure == e,
        },
{
    match reader.read_u8()? {
        0 => Ok(None),
        1 => Ok(Some(reader.read_u128()?)),
        other => Err(ProtocolError::InvalidBoolean(other)),
    }
}

impl SigData {
    /// Appends signature data that may be absent.
    fn write(sig_data: &Option<SigData>, writer: &mut Vec<u8>) -> (result: Result<
        (),
        ProtocolError,
    >)
        ensures
            final(writer)@ == old(writer)@ + sig_data_wire(sig_data_view(*sig_data)),
            match sig_data_error(sig_data_view(*sig_data)) {
                None => result is Ok,
                Some(e) => result == Err::<(), ProtocolError>(e),
            },
    {
        match sig_data {
            None => {
                write_u8(writer, 0);
                assert(writer@ =~= old(writer)@ + seq![0u8]);
                Ok(())
            },
            Some(data) => {
                write_u8(writer, 1);
                write_i64(writer, data.timestamp);
                let ghost head = seq![1u8] + be_bytes(to_unsigned(data.timestamp as int, 8), 8);
                assert(writer@ =~= old(writer)@ + head);
                if data.public_key.len() > 0x7fff_ffff {
                    return Err(ProtocolError::LengthOutOfBounds);
                }
                let mut public_key: Vec<u8> = Vec::new();
                public_key.extend_from_slice(data.public_key.as_slice());
                assert(public_key@ =~= data.public_key@);
                let _ = LengthPrefixed::from(public_key).serialize_write(writer);
                let mut signature: Vec<u8> = Vec::new();
                signature.extend_from_slice(data.signature.as_slice());
                assert(signature@ =~= data.signature@);
                let written = LengthPrefixed::from(signature).serialize_write(writer);
                assert(writer@ =~= old(writer)@ + (head + length_prefixed(data.public_key@)
                    + length_prefixed(data.signature@)));
                written
            },
        }
    }

    /// Reads signature data that may be absent. Where that fails, the reader
    /// is left wherever the failure was found.
    fn read(reader: &mut ByteReader) -> (result: Result<Option<SigData>, ProtocolError>)
        ensures
            final(reader).buffer() == old(reader).buffer(),
            match parse_sig_data(old(reader).buffer(), old(reader).position()) {
                Ok((value, end)) => {
                    &&& result matches Ok(read)
                    &&& sig_data_view(read) == value
                    &&& final(reader).position() == end
                },
                Err(e) => result matches Err(failure) && failure == e,
            },
    {
        match reader.read_u8()? {
            0 => Ok(None),
            1 => {
                let timestamp = reader.read_i64()?;
                let public_key: Vec<u8> = Vec::from(LengthPrefixed::deserialize_read(reader)?);
                let signature: Vec<u8> = Vec::from(LengthPrefixed::deserialize_read(reader)?);
                Ok(Some(SigData { timestamp, public_key, signature }))
            },
            other => Err(ProtocolError::InvalidBoolean(other)),
        }
    }
}

impl LoginPacket {
    fn read_fields(reader: &mut ByteReader) -> (result: Result<Self, ProtocolError>)
        ensures
            final(reader).buffer() == old(reader).buffer(),
            match parse_login_start(old(reader).buffer(), old(reader).position()) {
                Ok((value, end)) => {
                    &&& result matches Ok(read)
                    &&& read@ == value
                    &&& final(reader).position() == end
                },
                Err(e) => result matches Err(failure) && failure == e,
            },
    {
        match reader.read_u8()? {
            0 => {
                let name = String::deserialize_read(reader)?;
                if name.as_str().as_bytes().len() > 16 {
                    return Err(ProtocolError::NameTooLong);
                }
                let sig_data = SigData::read(reader)?;
                let player_uuid = read_uuid(reader)?;
                Ok(LoginPacket::LoginStart { name, sig_data, player_uuid })
            },
            1 => Err(ProtocolError::UnsupportedPacket(1)),
            2 => Err(ProtocolError::UnsupportedPacket(2)),
            other => Err(ProtocolError::UnexpectedPacketId(other)),
        }
    }
}

impl McProtocol for LoginPacket {
    open spec fn wire_error(value: LoginPacketView) -> Option<ProtocolError> {
        login_start_error(value)
    }

    open spec fn wire(value: LoginPacketView) -> Seq<u8> {
        login_start_wire(value)
    }

    open spec fn parse(input: Seq<u8>, at: int) -> Result<(LoginPacketView, int), ProtocolError> {
        parse_login_start(input, at)
    }

    fn serialize_write(&self, writer: &mut Vec<u8>) -> (result: Result<(), ProtocolError>) {
        match self {
            Self::LoginStart { name, sig_data, player_uuid } => {
                if name.as_str().as_bytes().len() > 16 {
                    assert(writer@ =~= old(writer)@ + Seq::<u8>::empty());
                    return Err(ProtocolError::NameTooLong);
                }
                write_u8(writer, 0);
                let _ = name.serialize_write(writer);
                let ghost head = seq![0u8] + string_wire(name@);
                assert(writer@ =~= old(writer)@ + head);
                match SigData::write(sig_data, writer) {
                    Ok(()) => {},
                    Err(e) => {
                        assert(writer@ =~= old(writer)@ + (head + sig_data_wire(
                            sig_data_view(*sig_data),
                        )));
                        return Err(e);
                    },
                }
                write_uuid(writer, *player_uuid);
                assert(writer@ =~= old(writer)@ + (head + sig_data_wire(sig_data_view(*sig_data))
                    + uuid_wire(*player_uuid)));
                Ok(())
            },
        }
    }

    fn deserialize_read(reader: &mut ByteReader) -> (result: Result<Self, ProtocolError>) {
        let start = reader.offset();
        match Self::read_fields(reader) {
            Ok(packet) => Ok(packet),
            Err(e) => {
                reader.seek(start);
                Err(e)
            },
        }
    }
}

} // verus!
