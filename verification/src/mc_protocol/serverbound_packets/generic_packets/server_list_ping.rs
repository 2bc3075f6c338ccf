//! The legacy ping: a probe from clients older than the framed protocol. It
//! has a fixed layout and no length in front, and is told from a frame by its
//! first three bytes.

use vstd::prelude::*;

use crate::error::ProtocolError;
use crate::mc_protocol::byte_reader::{
    be_bytes, lemma_be_bytes_len, lemma_found_apart, lemma_pow256_values,
    lemma_signed_round_trip, lemma_unsigned_round_trip, signed_at, to_unsigned, unsigned_at,
    ByteReader,
};

verus! {

/// How many bytes of a legacy ping are the same in every one.
pub const STATIC_HEADER_LEN: usize = 27;

/// How many bytes of the rest of a legacy ping are not the host name: the
/// protocol version, the host name's length and the port.
pub const FIXED_REST_LEN: usize = 7;

/// The bytes that every legacy ping starts with: three bytes of packet ids,
/// and the string `MC|PingHost` behind its length, in UTF-16.
pub open spec fn static_header() -> Seq<u8> {
    seq![
        0xfeu8, 0x01, 0xfa, 0x00, 0x0b, 0x00, 0x4d, 0x00, 0x43, 0x00, 0x7c, 0x00, 0x50, 0x00,
        0x69, 0x00, 0x6e, 0x00, 0x67, 0x00, 0x48, 0x00, 0x6f, 0x00, 0x73, 0x00, 0x74,
    ]
}

/// The three bytes by which a legacy ping is told from a frame.
pub open spec fn legacy_magic() -> Seq<u8> {
    seq![0xfeu8, 0x01, 0xfa]
}

/// Whether a 16-bit unit is the first of the two that hold a character
/// beyond the first 65536.
pub open spec fn is_high_surrogate(unit: u16) -> bool {
    0xd800 <= unit <= 0xdbff
}

/// Whether a 16-bit unit is the second of the two that hold a character
/// beyond the first 65536.
pub open spec fn is_low_surrogate(unit: u16) -> bool {
    0xdc00 <= unit <= 0xdfff
}

/// The text that `units` hold in UTF-16, or nothing where they are not valid
/// UTF-16. A unit that is no surrogate is the character of that number. A
/// high surrogate and the low surrogate behind it are one character, whose
/// number has the ten low bits of each, and 65536 added. A surrogate that
/// stands otherwise makes the units invalid.
pub open spec fn utf16_text(units: Seq<u16>) -> Option<Seq<char>>
    decreases units.len(),
{
    if units.len() == 0 {
        Some(Seq::<char>::empty())
    } else if !is_high_surrogate(units[0]) && !is_low_surrogate(units[0]) {
        match utf16_text(units.skip(1)) {
            Some(rest) => Some(seq![units[0] as char] + rest),
            None => None,
        }
    } else if is_high_surrogate(units[0]) && units.len() >= 2 && is_low_surrogate(units[1]) {
        match utf16_text(units.skip(2)) {
            Some(rest) => Some(
                seq![
                    (0x1_0000 + (units[0] - 0xd800) * 0x400 + (units[1] - 0xdc00)) as char,
                ] + rest,
            ),
            None => None,
        }
    } else {
        None
    }
}

/// The `count` 16-bit units in `input` from index `at` on.
pub open spec fn units_at(input: Seq<u8>, at: int, count: nat) -> Seq<u16> {
    Seq::new(count, |i: int| unsigned_at(input, at + 2 * i, 2) as u16)
}

/// A legacy ping.
#[derive(Debug)]
pub struct ServerListPingPacket {
    pub protocol_version: u8,
    pub server_address: String,
    pub server_port: i32,
}

/// What a legacy ping holds, as plain values.
pub struct ServerListPingPacketView {
    pub protocol_version: u8,
    pub server_address: Seq<char>,
    pub server_port: i32,
}

impl View for ServerListPingPacket {
    type V = ServerListPingPacketView;

    open spec fn view(&self) -> ServerListPingPacketView {
        ServerListPingPacketView {
            protocol_version: self.protocol_version,
            server_address: self.server_address@,
            server_port: self.server_port,
        }
    }
}

/// Whether the bytes from index `at` of `input` on start a legacy ping.
/// Three bytes must be there to tell.
pub open spec fn legacy_ping_starts(input: Seq<u8>, at: int) -> Result<bool, ProtocolError> {
    if at + 3 > input.len() {
        Err(ProtocolError::UnexpectedEof)
    } else {
        Ok(input.subrange(at, at + 3) == legacy_magic())
    }
}

/// The fixed part of a legacy ping, up to the host name.
pub struct LegacyPingHead {
    /// The protocol version.
    pub protocol_version: u8,
    /// How many 16-bit units the ping says its host name has.
    pub declared_len: usize,
    /// The 16-bit units of the host name.
    pub units: Vec<u16>,
}

/// What the fixed part of a legacy ping holds, as plain values.
pub struct LegacyPingHeadView {
    pub protocol_version: u8,
    pub declared_len: nat,
    pub units: Seq<u16>,
}

impl View for LegacyPingHead {
    type V = LegacyPingHeadView;

    open spec fn view(&self) -> LegacyPingHeadView {
        LegacyPingHeadView {
            protocol_version: self.protocol_version,
            declared_len: self.declared_len as nat,
            units: self.units@,
        }
    }
}

/// The fixed part of the legacy ping that starts at index `at` of `input`,
/// and the index behind the host name.
///
/// Behind the 27 bytes that are always the same comes the length of the rest
/// as a signed 16-bit number, which counts 7 bytes more than the host name
/// has; then the protocol version, the number of 16-bit units that the host
/// name is said to have, and the host name in 16-bit units.
pub open spec fn parse_legacy_head(input: Seq<u8>, at: int) -> Result<
    (LegacyPingHeadView, int),
    ProtocolError,
> {
    if at + 27 > input.len() {
        Err(ProtocolError::UnexpectedEof)
    } else if input.subrange(at, at + 27) != static_header() {
        Err(ProtocolError::InvalidLegacyPing)
    } else if at + 29 > input.len() {
        Err(ProtocolError::UnexpectedEof)
    } else if signed_at(input, at + 27, 2) < 7 {
        Err(ProtocolError::InvalidLegacyPing)
    } else if at + 32 > input.len() {
        Err(ProtocolError::UnexpectedEof)
    } else if signed_at(input, at + 30, 2) < 0 {
        Err(ProtocolError::InvalidLegacyPing)
    } else {
        let count = ((signed_at(input, at + 27, 2) - 7) / 2) as nat;
        if at + 32 + 2 * count > input.len() {
            Err(ProtocolError::UnexpectedEof)
        } else {
            Ok(
                (
                    LegacyPingHeadView {
                        protocol_version: input[at + 29],
                        declared_len: signed_at(input, at + 30, 2) as nat,
                        units: units_at(input, at + 32, count),
                    },
                    at + 32 + 2 * count,
                ),
            )
        }
    }
}

/// The legacy ping whose fixed part is `head`, whose host name is `address`
/// as text, if it is text, and whose port starts at index `at` of `input`;
/// and the index behind the ping. The host name must have as many 16-bit
/// units as the ping said it would.
pub open spec fn parse_legacy_tail(
    head: LegacyPingHeadView,
    address: Option<Seq<char>>,
    input: Seq<u8>,
    at: int,
) -> Result<(ServerListPingPacketView, int), ProtocolError> {
    match address {
        None => Err(ProtocolError::InvalidLegacyPing),
        Some(server_address) => if head.units.len() != head.declared_len {
            Err(ProtocolError::InvalidLegacyPing)
        } else if at + 4 > input.len() {
            Err(ProtocolError::UnexpectedEof)
        } else {
            Ok(
                (
                    ServerListPingPacketView {
                        protocol_version: head.protocol_version,
                        server_address,
                        server_port: signed_at(input, at, 4) as i32,
                    },
                    at + 4,
                ),
            )
        },
    }
}

/// The legacy ping that starts at index `at` of `input`, and the index behind
/// it.
pub open spec fn parse_server_list_ping(input: Seq<u8>, at: int) -> Result<
    (ServerListPingPacketView, int),
    ProtocolError,
> {
    match parse_legacy_head(input, at) {
        Err(e) => Err(e),
        Ok((head, port_at)) => parse_legacy_tail(head, utf16_text(head.units), input, port_at),
    }
}

/// The bytes of 16-bit units, each with its high byte first.
pub open spec fn units_wire(units: Seq<u16>) -> Seq<u8>
    decreases units.len(),
{
    if units.len() == 0 {
        Seq::<u8>::empty()
    } else {
        units_wire(units.drop_last()) + be_bytes(units.last() as nat, 2)
    }
}

/// The most units that a host name can have: with 7 added, the number of
/// their bytes must fit a signed 16-bit number.
pub open spec fn max_host_units() -> nat {
    16380
}

/// The bytes of the legacy ping with the given protocol version, host name
/// and port: the 27 bytes that are always the same, the length of the rest,
/// the protocol version, the number of units of the host name, the units, and
/// the port.
pub open spec fn legacy_ping_wire(protocol_version: u8, units: Seq<u16>, server_port: i32) -> Seq<
    u8,
> {
    static_header() + be_bytes((7 + 2 * units.len()) as nat, 2) + seq![protocol_version]
        + be_bytes(units.len(), 2) + units_wire(units) + be_bytes(
        to_unsigned(server_port as int, 4),
        4,
    )
}

/// Units take two bytes each.
pub proof fn lemma_units_wire_len(units: Seq<u16>)
    ensures
        units_wire(units).len() == 2 * units.len(),
    decreases units.len(),
{
    if units.len() > 0 {
        lemma_units_wire_len(units.drop_last());
        lemma_be_bytes_len(units.last() as nat, 2);
    }
}

/// Reading finds the units that were written: where the bytes of units stand
/// in an input, the units stand there.
pub proof fn lemma_units_round_trip(units: Seq<u16>, input: Seq<u8>, at: int)
    requires
        0 <= at,
        at + 2 * units.len() <= input.len(),
        input.subrange(at, at + 2 * units.len()) == units_wire(units),
    ensures
        units_at(input, at, units.len()) == units,
    decreases units.len(),
{
    if units.len() > 0 {
        let front = units.drop_last();
        let last = be_bytes(units.last() as nat, 2);
        lemma_units_wire_len(front);
        lemma_be_bytes_len(units.last() as nat, 2);
        lemma_pow256_values();
        lemma_found_apart(input, at, units_wire(front), last);
        lemma_units_round_trip(front, input, at);
        lemma_unsigned_round_trip(units.last() as nat, 2, input, at + 2 * front.len());
        assert forall|i: int| 0 <= i < units.len() implies #[trigger] units_at(
            input,
            at,
            units.len(),
        )[i] == units[i] by {
            if i < front.len() {
                assert(units_at(input, at, front.len())[i] == front[i]);
            }
        }
    }
    assert(units_at(input, at, units.len()) =~= units);
}

/// A legacy ping that was written is read, and read whole: where the bytes
/// of a legacy ping stand in an input, followed by whatever, reading gives
/// the ping and the index behind it, if the units of its host name are text;
/// else the ping is refused. A ping takes up 36 bytes and two for each unit
/// of its host name.
pub proof fn lemma_legacy_ping_round_trip(
    protocol_version: u8,
    units: Seq<u16>,
    server_port: i32,
    input: Seq<u8>,
    at: int,
)
    requires
        units.len() <= max_host_units(),
        0 <= at,
        at + legacy_ping_wire(protocol_version, units, server_port).len() <= input.len(),
        input.subrange(at, at + legacy_ping_wire(protocol_version, units, server_port).len())
            == legacy_ping_wire(protocol_version, units, server_port),
    ensures
        legacy_ping_wire(protocol_version, units, server_port).len() == 27 + 2 + 1 + 2 + 2
            * units.len() + 4,
        input.subrange(at, at + 3) == legacy_magic(),
        parse_server_list_ping(input, at) == match utf16_text(units) {
            Some(server_address) => Ok::<(ServerListPingPacketView, int), ProtocolError>(
                (
                    ServerListPingPacketView { protocol_version, server_address, server_port },
                    at + legacy_ping_wire(protocol_version, units, server_port).len(),
                ),
            ),
            None => Err(ProtocolError::InvalidLegacyPing),
        },
{
    let n = units.len();
    let rest_len = be_bytes((7 + 2 * n) as nat, 2);
    let version = seq![protocol_version];
    let declared = be_bytes(n, 2);
    let host = units_wire(units);
    let port = be_bytes(to_unsigned(server_port as int, 4), 4);
    let wire = legacy_ping_wire(protocol_version, units, server_port);
    lemma_be_bytes_len((7 + 2 * n) as nat, 2);
    lemma_be_bytes_len(n, 2);
    lemma_be_bytes_len(to_unsigned(server_port as int, 4), 4);
    lemma_units_wire_len(units);
    lemma_pow256_values();
    assert(wire =~= static_header() + (rest_len + (version + (declared + (host + port)))));
    lemma_found_apart(input, at, static_header(), rest_len + (version + (declared + (host + port))));
    lemma_found_apart(input, at + 27, rest_len, version + (declared + (host + port)));
    lemma_found_apart(input, at + 29, version, declared + (host + port));
    lemma_found_apart(input, at + 30, declared, host + port);
    lemma_found_apart(input, at + 32, host, port);
    assert(input.subrange(at, at + 3) =~= legacy_magic()) by {
        assert(input.subrange(at, at + 27).subrange(0, 3) =~= input.subrange(at, at + 3));
        assert(static_header().subrange(0, 3) =~= legacy_magic());
    }
    assert(to_unsigned((7 + 2 * n) as int, 2) == 7 + 2 * n);
    lemma_signed_round_trip((7 + 2 * n) as int, 2, input, at + 27);
    assert(input[at + 29] == protocol_version) by {
        assert(input.subrange(at + 29, at + 30)[0] == input[at + 29]);
    }
    assert(to_unsigned(n as int, 2) == n);
    lemma_signed_round_trip(n as int, 2, input, at + 30);
    assert((7 + 2 * n - 7) / 2 == n);
    lemma_units_round_trip(units, input, at + 32);
    lemma_signed_round_trip(server_port as int, 4, input, at + 32 + 2 * n);
}

/// What was read stays read: where reading a legacy ping does not fail for
/// want of input, it gives the same with more input behind.
pub proof fn lemma_parse_server_list_ping_stable(input: Seq<u8>, at: int, more: Seq<u8>)
    requires
        0 <= at,
        parse_server_list_ping(input, at) != Err::<(ServerListPingPacketView, int), ProtocolError>(
            ProtocolError::UnexpectedEof,
        ),
    ensures
        parse_server_list_ping(input + more, at) == parse_server_list_ping(input, at),
{
    let longer = input + more;
    assert(at + 27 <= input.len());
    assert(longer.subrange(at, at + 27) =~= input.subrange(at, at + 27));
    if input.subrange(at, at + 27) == static_header() {
        assert(longer.subrange(at + 27, at + 27 + 2) =~= input.subrange(at + 27, at + 27 + 2));
        if signed_at(input, at + 27, 2) >= 7 {
            assert(longer.subrange(at + 30, at + 30 + 2) =~= input.subrange(at + 30, at + 30 + 2));
            assert(longer[at + 29] == input[at + 29]);
            if signed_at(input, at + 30, 2) >= 0 {
                let count = ((signed_at(input, at + 27, 2) - 7) / 2) as nat;
                let port_at = at + 32 + 2 * count;
                assert forall|i: int| 0 <= i < count implies #[trigger] units_at(
                    longer,
                    at + 32,
                    count,
                )[i] == units_at(input, at + 32, count)[i] by {
                    assert(longer.subrange(at + 32 + 2 * i, at + 32 + 2 * i + 2)
                        =~= input.subrange(at + 32 + 2 * i, at + 32 + 2 * i + 2));
                }
                assert(units_at(longer, at + 32, count) =~= units_at(input, at + 32, count));
                if port_at + 4 <= input.len() {
                    assert(longer.subrange(port_at, port_at + 4) =~= input.subrange(
                        port_at,
                        port_at + 4,
                    ));
                }
            }
        }
    }
}

/// `String::from_utf16` of std: the text that `units` hold in UTF-16, or
/// nothing where they are not valid UTF-16, which is where a surrogate
/// stands without its partner.
#[verifier::external_body]
fn string_from_utf16(units: &Vec<u16>) -> (text: Option<String>)
    ensures
        match text {
            Some(s) => utf16_text(units@) == Some(s@),
            None => utf16_text(units@) is None,
        },
{
    String::from_utf16(units.as_slice()).ok()
}

/// Whether what `reader` has left starts a legacy ping. Reads nothing.
pub fn is_packet_server_list_ping(reader: &ByteReader) -> (result: Result<bool, ProtocolError>)
    ensures
        result == legacy_ping_starts(reader.buffer(), reader.position()),
{
    let first = reader.peek(0);
    let second = reader.peek(1);
    let third = reader.peek(2);
    match (first, second, third) {
        (Some(a), Some(b), Some(c)) => {
            proof {
                use_type_invariant(reader);
                let at = reader.position();
                let found = reader.buffer().subrange(at, at + 3);
                assert(found[0] == a && found[1] == b && found[2] == c);
                if a == 0xfe && b == 0x01 && c == 0xfa {
                    assert(found =~= legacy_magic());
                }
            }
            Ok(a == 0xfe && b == 0x01 && c == 0xfa)
        },
        _ => Err(ProtocolError::UnexpectedEof),
    }
}

impl LegacyPingHead {
    /// Reads the fixed part of a legacy ping and the units of its host name.
    /// Where that fails, nothing has been read.
    pub fn read(reader: &mut ByteReader) -> (result: Result<Self, ProtocolError>)
        ensures
            final(reader).buffer() == old(reader).buffer(),
            match parse_legacy_head(old(reader).buffer(), old(reader).position()) {
                Ok((value, end)) => {
                    &&& result matches Ok(read)
                    &&& read@ == value
                    &&& final(reader).position() == end
                },
                Err(e) => {
                    &&& result matches Err(failure)
                    &&& failure == e
                    &&& final(reader).position() == old(reader).position()
                },
            },
    {
        let start = reader.offset();
        match Self::read_fields(reader) {
            Ok(head) => Ok(head),
            Err(e) => {
                reader.seek(start);
                Err(e)
            },
        }
    }

    /// Reads the fixed part of a legacy ping and the units of its host name.
    /// Where that fails, the reader is left wherever the failure was found.
    fn read_fields(reader: &mut ByteReader) -> (result: Result<Self, ProtocolError>)
        ensures
            final(reader).buffer() == old(reader).buffer(),
            match parse_legacy_head(old(reader).buffer(), old(reader).position()) {
                Ok((value, end)) => {
                    &&& result matches Ok(read)
                    &&& read@ == value
                    &&& final(reader).position() == end
                },
                Err(e) => result matches Err(failure) && failure == e,
            },
    {
        let ghost input = reader.buffer();
        let ghost at = reader.position();
        let header = reader.read_exact(STATIC_HEADER_LEN)?;
        if !is_static_header(&header) {
            return Err(ProtocolError::InvalidLegacyPing);
        }
        let rest_len = reader.read_i16()?;
        if rest_len < FIXED_REST_LEN as i16 {
            return Err(ProtocolError::InvalidLegacyPing);
        }
        let protocol_version = reader.read_u8()?;
        let declared = reader.read_i16()?;
        if declared < 0 {
            return Err(ProtocolError::InvalidLegacyPing);
        }
        let count: usize = (rest_len as usize - FIXED_REST_LEN) / 2;
        if reader.remaining() < 2 * count {
            return Err(ProtocolError::UnexpectedEof);
        }
        let mut units: Vec<u16> = Vec::new();
        let mut i: usize = 0;
        while i < count
            invariant
                i <= count <= 0x4000,
                reader.buffer() == input,
                reader.position() == at + 32 + 2 * i,
                at + 32 + 2 * count <= input.len(),
                units@ == units_at(input, at + 32, i as nat),
            decreases count - i,
        {
            let ghost before = units@;
            match reader.read_u16() {
                Ok(unit) => {
                    units.push(unit);
                },
                Err(e) => {
                    return Err(e);
                },
            }
            proof {
                assert(units@ =~= units_at(input, at + 32, (i + 1) as nat));
            }
            i = i + 1;
        }
        Ok(LegacyPingHead { protocol_version, declared_len: declared as usize, units })
    }
}

/// Whether `bytes` are the bytes that every legacy ping starts with.
fn is_static_header(bytes: &Vec<u8>) -> (same: bool)
    ensures
        same == (bytes@ == static_header()),
{
    let expected: [u8; 27] = [
        0xfe, 0x01, 0xfa, 0x00, 0x0b, 0x00, 0x4d, 0x00, 0x43, 0x00, 0x7c, 0x00, 0x50, 0x00, 0x69,
        0x00, 0x6e, 0x00, 0x67, 0x00, 0x48, 0x00, 0x6f, 0x00, 0x73, 0x00, 0x74,
    ];
    assert(expected@ =~= static_header());
    if bytes.len() != 27 {
        return false;
    }
    let mut i: usize = 0;
    while i < 27
        invariant
            i <= 27,
            bytes@.len() == 27,
            expected@ == static_header(),
            forall|j: int| 0 <= j < i ==> bytes@[j] == expected@[j],
        decreases 27 - i,
    {
        if bytes[i] != expected[i] {
            return false;
        }
        i = i + 1;
    }
    assert(bytes@ =~= static_header());
    true
}

impl ServerListPingPacket {
    /// Finishes a legacy ping whose fixed part has been read: `address` is
    /// its host name as text, if it is text. The port is read from `reader`.
    /// Where that fails, the reader has read nothing.
    pub fn with_address(head: LegacyPingHead, address: Option<String>, reader: &mut ByteReader) -> (result:
        Result<Self, ProtocolError>)
        ensures
            final(reader).buffer() == old(reader).buffer(),
            match parse_legacy_tail(
                head@,
                match address {
                    Some(text) => Some(text@),
                    None => None,
                },
                old(reader).buffer(),
                old(reader).position(),
            ) {
                Ok((value, end)) => {
                    &&& result matches Ok(read)
                    &&& read@ == value
                    &&& final(reader).position() == end
                },
                Err(e) => {
                    &&& result matches Err(failure)
                    &&& failure == e
                    &&& final(reader).position() == old(reader).position()
                },
            },
    {
        let server_address = match address {
            Some(text) => text,
            None => {
                return Err(ProtocolError::InvalidLegacyPing);
            },
        };
        if head.units.len() != head.declared_len {
            return Err(ProtocolError::InvalidLegacyPing);
        }
        let server_port = reader.read_i32()?;
        Ok(
            ServerListPingPacket {
                protocol_version: head.protocol_version,
                server_address,
                server_port,
            },
        )
    }

    /// Reads one legacy ping from the front of what `reader` has left. Where
    /// that fails, nothing has been read.
    pub fn deserialize_read(reader: &mut ByteReader) -> (result: Result<Self, ProtocolError>)
        ensures
            final(reader).buffer() == old(reader).buffer(),
            match parse_server_list_ping(old(reader).buffer(), old(reader).position()) {
                Ok((value, end)) => {
                    &&& result matches Ok(read)
                    &&& read@ == value
                    &&& final(reader).position() == end
                },
                Err(e) => {
                    &&& result matches Err(failure)
                    &&& failure == e
                    &&& final(reader).position() == old(reader).position()
                },
            },
    {
        let start = reader.offset();
        let head = LegacyPingHead::read(reader)?;
        let address = string_from_utf16(&head.units);
        match Self::with_address(head, address, reader) {
            Ok(packet) => Ok(packet),
            Err(e) => {
                reader.seek(start);
                Err(e)
            },
        }
    }
}

} // verus!
