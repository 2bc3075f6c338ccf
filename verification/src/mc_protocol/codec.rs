//! The server's end of one connection: which packets it may read next, and
//! how packets are framed.
//!
//! A packet travels in a frame: its bytes behind their count. The legacy
//! ping alone travels bare, and is looked for while a connection is still
//! handshaking, before a frame is read.

use vstd::prelude::*;

use crate::error::ProtocolError;
use crate::mc_protocol::byte_reader::ByteReader;
use crate::mc_protocol::data_types::length_prefixed::{
    frame_arrived, get_length_prefixed_reader, length_error, length_prefixed,
    parse_length_prefixed, LengthPrefixed,
};
use crate::mc_protocol::byte_reader::lemma_be_bytes_len;
use crate::mc_protocol::data_types::length_prefixed::lemma_length_prefixed_round_trip;
use crate::mc_protocol::data_types::mc_string::string_wire;
use crate::mc_protocol::data_types::mc_varint::{
    as_signed, groups_value, lemma_varint_bytes_is_varint, varint_bytes,
};
use crate::mc_protocol::serverbound_packets::generic_packets::handshake::{
    handshake_error, handshake_wf, handshake_wire, lemma_handshake_round_trip, parse_handshake,
    HandshakePacket, HandshakePacketView, NextState,
};
use crate::mc_protocol::serverbound_packets::generic_packets::server_list_ping::{
    is_packet_server_list_ping, legacy_magic, legacy_ping_starts, legacy_ping_wire,
    lemma_legacy_ping_round_trip, max_host_units, parse_server_list_ping, utf16_text,
    ServerListPingPacket, ServerListPingPacketView,
};
use crate::mc_protocol::serverbound_packets::generic_packets::{Generic, GenericView};
use crate::mc_protocol::serverbound_packets::{parse_serverbound, Serverbound, ServerboundView};
use crate::mc_protocol::{
    version_of, ConnectionState, McProtocol, ProtocolVersion, ProtocolVersionLevelDeserialize,
};

verus! {

/// The state that a handshake moves the connection to.
pub open spec fn state_after(next_state: NextState) -> ConnectionState {
    match next_state {
        NextState::Status => ConnectionState::Status,
        NextState::Login => ConnectionState::Login,
    }
}

/// What reading one packet comes to.
pub struct PacketRead {
    /// The packet.
    pub packet: ServerboundView,
    /// The index behind the packet.
    pub end: int,
    /// The state of the connection after the packet.
    pub connection_state: ConnectionState,
    /// The protocol version of the connection after the packet.
    pub protocol_version: Option<ProtocolVersion>,
}

/// The packet that the bytes of one frame hold, and the state and version of
/// the connection after it.
///
/// While the connection is handshaking the frame holds a handshake, which
/// must name a supported version, and which sets the version and the state.
/// After that the frame holds a packet of that version and state. The packet
/// must take up the whole frame.
pub open spec fn parse_frame(
    connection_state: ConnectionState,
    protocol_version: Option<ProtocolVersion>,
    frame: Seq<u8>,
) -> Result<(ServerboundView, ConnectionState, Option<ProtocolVersion>), ProtocolError> {
    match connection_state {
        ConnectionState::Handshaking => match parse_handshake(frame, 0) {
            Err(e) => Err(e),
            Ok((handshake, used)) => match version_of(
                as_signed(groups_value(handshake.protocol_version)),
            ) {
                Err(e) => Err(e),
                Ok(version) => if used != frame.len() {
                    Err(ProtocolError::TrailingBytes((frame.len() - used) as usize))
                } else {
                    Ok(
                        (
                            ServerboundView::Generic(GenericView::Handshake(handshake)),
                            state_after(handshake.next_state),
                            Some(version),
                        ),
                    )
                },
            },
        },
        _ => match protocol_version {
            // A connection that is past the handshake has a version.
            None => Err(ProtocolError::NoSuchPacket),
            Some(version) => match parse_serverbound(frame, 0, connection_state, version) {
                Err(e) => Err(e),
                Ok((packet, used)) => if used != frame.len() {
                    Err(ProtocolError::TrailingBytes((frame.len() - used) as usize))
                } else {
                    Ok((packet, connection_state, protocol_version))
                },
            },
        },
    }
}

/// The framed packet that starts at index `at` of `input`.
pub open spec fn parse_framed(
    connection_state: ConnectionState,
    protocol_version: Option<ProtocolVersion>,
    input: Seq<u8>,
    at: int,
) -> Result<PacketRead, ProtocolError> {
    match parse_length_prefixed(input, at) {
        Err(e) => Err(e),
        Ok((frame, end)) => match parse_frame(connection_state, protocol_version, frame) {
            Err(e) => Err(e),
            Ok((packet, state, version)) => Ok(
                PacketRead { packet, end, connection_state: state, protocol_version: version },
            ),
        },
    }
}

/// The packet that starts at index `at` of `input`, for a connection in the
/// given state: a legacy ping where the connection is handshaking and the
/// bytes start one, which leaves the connection as it is; else a framed
/// packet.
pub open spec fn parse_packet(
    connection_state: ConnectionState,
    protocol_version: Option<ProtocolVersion>,
    input: Seq<u8>,
    at: int,
) -> Result<PacketRead, ProtocolError> {
    if connection_state is Handshaking {
        match legacy_ping_starts(input, at) {
            Err(e) => Err(e),
            Ok(true) => match parse_server_list_ping(input, at) {
                Err(e) => Err(e),
                Ok((ping, end)) => Ok(
                    PacketRead {
                        packet: ServerboundView::Generic(GenericView::ServerListPing(ping)),
                        end,
                        connection_state,
                        protocol_version,
                    },
                ),
            },
            Ok(false) => parse_framed(connection_state, protocol_version, input, at),
        }
    } else {
        parse_framed(connection_state, protocol_version, input, at)
    }
}

/// Whether enough has arrived to read the packet that starts at index `at` of
/// `input`: whether reading it gives what more input cannot change.
///
/// A frame is there once its length and as many bytes as the length
/// announces are there, and a legacy ping once all of its layout is there.
/// A length or a layout that is refused is there as well: more input does
/// not mend it.
pub open spec fn packet_arrived(connection_state: ConnectionState, input: Seq<u8>, at: int) -> bool {
    if connection_state is Handshaking && legacy_ping_starts(input, at) is Err {
        false
    } else if connection_state is Handshaking && legacy_ping_starts(input, at) == Ok::<
        bool,
        ProtocolError,
    >(true) {
        parse_server_list_ping(input, at) != Err::<(ServerListPingPacketView, int), ProtocolError>(
            ProtocolError::UnexpectedEof,
        )
    } else {
        parse_length_prefixed(input, at) != Err::<(Seq<u8>, int), ProtocolError>(
            ProtocolError::UnexpectedEof,
        )
    }
}

/// The bytes that sending a packet appends, given the bytes that writing the
/// packet by itself appends and why it cannot be written, if it cannot: the
/// frame of a packet that can be written and counted, else nothing.
pub open spec fn framed(wire_error: Option<ProtocolError>, wire: Seq<u8>) -> Seq<u8> {
    if wire_error is Some {
        Seq::<u8>::empty()
    } else {
        length_prefixed(wire)
    }
}

/// Why a packet cannot be sent, if it cannot: it must be writable, and short
/// enough to be counted.
pub open spec fn framed_error(wire_error: Option<ProtocolError>, wire: Seq<u8>) -> Option<
    ProtocolError,
> {
    if wire_error is Some {
        wire_error
    } else {
        length_error(wire)
    }
}

/// A packet must take up its whole frame: where a packet is read from the
/// front of a frame and bytes are left behind it, the frame is refused, and
/// the failure names the number of those bytes.
pub proof fn lemma_frame_with_trailing_bytes(
    connection_state: ConnectionState,
    protocol_version: ProtocolVersion,
    frame: Seq<u8>,
)
    requires
        connection_state !is Handshaking,
        parse_serverbound(frame, 0, connection_state, protocol_version) matches Ok((_, used))
            && used != frame.len(),
    ensures
        parse_frame(connection_state, Some(protocol_version), frame) == Err::<
            (ServerboundView, ConnectionState, Option<ProtocolVersion>),
            ProtocolError,
        >(
            ProtocolError::TrailingBytes(
                (frame.len() - parse_serverbound(
                    frame,
                    0,
                    connection_state,
                    protocol_version,
                )->Ok_0.1) as usize,
            ),
        ),
{
}

/// A connection only moves forward: a packet that is read while the
/// connection is handshaking leaves it handshaking or moves it to one of the
/// other two states, and a packet that is read in one of those leaves the
/// state and the version as they are.
pub proof fn lemma_state_moves_forward(
    connection_state: ConnectionState,
    protocol_version: Option<ProtocolVersion>,
    input: Seq<u8>,
    at: int,
)
    ensures
        parse_packet(connection_state, protocol_version, input, at) matches Ok(read) ==> {
            &&& connection_state !is Handshaking ==> read.connection_state == connection_state
                && read.protocol_version == protocol_version
            &&& read.connection_state !is Handshaking ==> read.protocol_version is Some
        },
{
}

/// What has arrived stays the same: once enough has arrived to read a
/// packet, reading it gives the same with more input behind.
pub proof fn lemma_arrived_packet_is_stable(
    connection_state: ConnectionState,
    protocol_version: Option<ProtocolVersion>,
    input: Seq<u8>,
    at: int,
    more: Seq<u8>,
)
    requires
        0 <= at,
        packet_arrived(connection_state, input, at),
    ensures
        packet_arrived(connection_state, input + more, at),
        parse_packet(connection_state, protocol_version, input + more, at) == parse_packet(
            connection_state,
            protocol_version,
            input,
            at,
        ),
{
    let longer = input + more;
    if connection_state is Handshaking {
        assert(at + 3 <= input.len());
        assert(longer.subrange(at, at + 3) =~= input.subrange(at, at + 3));
        if legacy_ping_starts(input, at) == Ok::<bool, ProtocolError>(true) {
            crate::mc_protocol::serverbound_packets::generic_packets::server_list_ping::lemma_parse_server_list_ping_stable(
                input,
                at,
                more,
            );
        } else {
            crate::mc_protocol::data_types::length_prefixed::lemma_parse_length_prefixed_stable(
                input,
                at,
                more,
            );
        }
    } else {
        crate::mc_protocol::data_types::length_prefixed::lemma_parse_length_prefixed_stable(
            input,
            at,
            more,
        );
    }
}

/// A handshake that was sent is read: where the frame of a handshake that can
/// be written, and that names a supported version, stands in an input,
/// followed by whatever, a connection that is handshaking reads the
/// handshake, and moves to the state and the version that it asks for. The
/// frame of a handshake is never taken for a legacy ping.
pub proof fn lemma_framed_handshake_round_trip(
    handshake: HandshakePacketView,
    version: ProtocolVersion,
    input: Seq<u8>,
    at: int,
)
    requires
        handshake_wf(handshake),
        handshake_error(handshake) is None,
        version_of(as_signed(groups_value(handshake.protocol_version))) == Ok::<
            ProtocolVersion,
            ProtocolError,
        >(version),
        0 <= at,
        at + length_prefixed(handshake_wire(handshake)).len() <= input.len(),
        input.subrange(at, at + length_prefixed(handshake_wire(handshake)).len())
            == length_prefixed(handshake_wire(handshake)),
    ensures
        length_error(handshake_wire(handshake)) is None,
        parse_packet(ConnectionState::Handshaking, None, input, at) == Ok::<
            PacketRead,
            ProtocolError,
        >(
            PacketRead {
                packet: ServerboundView::Generic(GenericView::Handshake(handshake)),
                end: at + length_prefixed(handshake_wire(handshake)).len(),
                connection_state: state_after(handshake.next_state),
                protocol_version: Some(version),
            },
        ),
{
    let wire = handshake_wire(handshake);
    let address = vstd::utf8::encode_utf8(handshake.server_address);
    lemma_be_bytes_len(handshake.server_port as nat, 2);
    lemma_varint_bytes_is_varint(address.len());
    assert(string_wire(handshake.server_address).len() <= 5 + 255);
    assert(wire.len() == 1 + handshake.protocol_version.len() + string_wire(
        handshake.server_address,
    ).len() + 3);
    assert(5 <= wire.len() <= 300);
    let frame = length_prefixed(wire);
    let prefix = varint_bytes(wire.len());
    let found = input.subrange(at, at + frame.len());
    assert(wire[0] == 0);
    // The frame does not start as a legacy ping does.
    assert(found[0] == input[at] && found[1] == input[at + 1] && found[2] == input[at + 2]);
    assert(input.subrange(at, at + 3)[0] == input[at] && input.subrange(at, at + 3)[1] == input[at
        + 1] && input.subrange(at, at + 3)[2] == input[at + 2]);
    if wire.len() < 128 {
        assert(prefix =~= seq![wire.len() as u8]);
        assert(frame[1] == wire[0]);
    } else {
        assert(varint_bytes(wire.len() / 128) =~= seq![(wire.len() / 128) as u8]);
        assert(prefix =~= seq![(wire.len() % 128 + 128) as u8, (wire.len() / 128) as u8]);
        assert(frame[0] == (wire.len() % 128 + 128) as u8);
        assert(frame[1] == (wire.len() / 128) as u8);
        assert(frame[2] == wire[0]);
    }
    assert(input.subrange(at, at + 3) != legacy_magic());
    lemma_length_prefixed_round_trip(wire, input, at);
    assert(wire.subrange(0, wire.len() as int) =~= wire);
    lemma_handshake_round_trip(handshake, wire, 0);
}

/// A handshake, too, must take up its whole frame: where a handshake that
/// names a supported version is read from the front of a frame and bytes are
/// left behind it, the frame is refused, and the failure names the number of
/// those bytes.
pub proof fn lemma_handshake_frame_with_trailing_bytes(frame: Seq<u8>)
    requires
        parse_handshake(frame, 0) matches Ok((handshake, used)) && used != frame.len()
            && version_of(as_signed(groups_value(handshake.protocol_version))) is Ok,
    ensures
        parse_frame(ConnectionState::Handshaking, None, frame) == Err::<
            (ServerboundView, ConnectionState, Option<ProtocolVersion>),
            ProtocolError,
        >(ProtocolError::TrailingBytes((frame.len() - parse_handshake(frame, 0)->Ok_0.1) as usize)),
{
}

/// A legacy ping is looked for first, and only while handshaking: where the
/// three bytes that start a legacy ping stand in an input, a connection that
/// is handshaking reads a legacy ping there and nothing else, and stays as it
/// is; a connection in another state reads a frame.
pub proof fn lemma_legacy_ping_comes_first(
    connection_state: ConnectionState,
    protocol_version: Option<ProtocolVersion>,
    input: Seq<u8>,
    at: int,
)
    requires
        0 <= at,
        at + 3 <= input.len(),
        input.subrange(at, at + 3) == legacy_magic(),
    ensures
        connection_state is Handshaking ==> parse_packet(
            connection_state,
            protocol_version,
            input,
            at,
        ) == match parse_server_list_ping(input, at) {
            Ok((ping, end)) => Ok::<PacketRead, ProtocolError>(
                PacketRead {
                    packet: ServerboundView::Generic(GenericView::ServerListPing(ping)),
                    end,
                    connection_state,
                    protocol_version,
                },
            ),
            Err(e) => Err(e),
        },
        connection_state !is Handshaking ==> parse_packet(
            connection_state,
            protocol_version,
            input,
            at,
        ) == parse_framed(connection_state, protocol_version, input, at),
{
}

/// A legacy ping is read whole: where the bytes of a legacy ping whose host
/// name is text stand in an input, followed by whatever, a connection that is
/// handshaking reads the ping and nothing behind it, and stays as it is. No
/// length is read in front of it.
pub proof fn lemma_legacy_ping_is_read(
    protocol_version: u8,
    units: Seq<u16>,
    server_port: i32,
    version: Option<ProtocolVersion>,
    input: Seq<u8>,
    at: int,
)
    requires
        units.len() <= max_host_units(),
        utf16_text(units) is Some,
        0 <= at,
        at + legacy_ping_wire(protocol_version, units, server_port).len() <= input.len(),
        input.subrange(at, at + legacy_ping_wire(protocol_version, units, server_port).len())
            == legacy_ping_wire(protocol_version, units, server_port),
    ensures
        parse_packet(ConnectionState::Handshaking, version, input, at) == Ok::<
            PacketRead,
            ProtocolError,
        >(
            PacketRead {
                packet: ServerboundView::Generic(
                    GenericView::ServerListPing(
                        ServerListPingPacketView {
                            protocol_version,
                            server_address: utf16_text(units)->Some_0,
                            server_port,
                        },
                    ),
                ),
                end: at + 27 + 2 + 1 + 2 + 2 * units.len() + 4,
                connection_state: ConnectionState::Handshaking,
                protocol_version: version,
            },
        ),
{
    lemma_legacy_ping_round_trip(protocol_version, units, server_port, input, at);
}

/// A frame that is cut short asks for more input: where fewer bytes follow
/// the length than it announces, reading the framed packet fails for want of
/// input, whatever state the connection is in.
pub proof fn lemma_frame_cut_short(
    connection_state: ConnectionState,
    protocol_version: Option<ProtocolVersion>,
    payload: Seq<u8>,
    kept: int,
)
    requires
        length_error(payload) is None,
        0 <= kept < length_prefixed(payload).len(),
    ensures
        parse_framed(connection_state, protocol_version, length_prefixed(payload).take(kept), 0)
            == Err::<PacketRead, ProtocolError>(ProtocolError::UnexpectedEof),
{
    crate::mc_protocol::data_types::length_prefixed::lemma_length_prefixed_cut_short(payload, kept);
}

/// The server's end of one connection.
#[derive(Debug)]
pub struct ServerCodec {
    connection_state: ConnectionState,
    protocol_version: Option<ProtocolVersion>,
}

impl ServerCodec {
    /// What holds of every codec: a connection that is past the handshake
    /// has a version.
    #[verifier::type_invariant]
    pub open spec fn wf(&self) -> bool {
        self.state() is Handshaking || self.version() is Some
    }

    /// The state of the connection.
    pub closed spec fn state(&self) -> ConnectionState {
        self.connection_state
    }

    /// The protocol version of the connection, once a handshake has set it.
    pub closed spec fn version(&self) -> Option<ProtocolVersion> {
        self.protocol_version
    }

    /// The codec of a connection that has just been accepted.
    pub fn new() -> (codec: Self)
        ensures
            codec.state() == ConnectionState::Handshaking,
            codec.version() is None,
    {
        ServerCodec { connection_state: ConnectionState::Handshaking, protocol_version: None }
    }

    /// The state of the connection.
    pub fn connection_state(&self) -> (state: ConnectionState)
        ensures
            state == self.state(),
    {
        self.connection_state
    }

    /// The protocol version of the connection, once a handshake has set it.
    pub fn protocol_version(&self) -> (version: Option<ProtocolVersion>)
        ensures
            version == self.version(),
            self.state() is Handshaking || version is Some,
    {
        proof {
            use_type_invariant(self);
        }
        self.protocol_version
    }

    /// Whether enough has arrived to read the next packet. Reads nothing.
    pub fn packet_arrived(&self, reader: &mut ByteReader) -> (arrived: bool)
        ensures
            final(reader).buffer() == old(reader).buffer(),
            final(reader).position() == old(reader).position(),
            arrived == packet_arrived(self.state(), old(reader).buffer(), old(reader).position()),
    {
        let start = reader.offset();
        if let ConnectionState::Handshaking = self.connection_state {
            match is_packet_server_list_ping(reader) {
                Err(_) => {
                    return false;
                },
                Ok(true) => {
                    let arrived = match ServerListPingPacket::deserialize_read(reader) {
                        Err(ProtocolError::UnexpectedEof) => false,
                        _ => true,
                    };
                    reader.seek(start);
                    return arrived;
                },
                Ok(false) => {},
            }
        }
        frame_arrived(reader)
    }

    /// Reads the packet of one frame. Where that fails, the reader is left
    /// wherever the failure was found.
    fn read_frame(&self, frame: &mut ByteReader) -> (result: Result<
        (Serverbound, ConnectionState, Option<ProtocolVersion>),
        ProtocolError,
    >)
        requires
            old(frame).position() == 0,
        ensures
            final(frame).buffer() == old(frame).buffer(),
            match parse_frame(self.state(), self.version(), old(frame).buffer()) {
                Ok((packet, state, version)) => {
                    &&& result matches Ok(read)
                    &&& read.0@ == packet
                    &&& read.1 == state
                    &&& read.2 == version
                    &&& (state is Handshaking || version is Some)
                },
                Err(e) => result matches Err(failure) && failure == e,
            },
    {
        proof {
            use_type_invariant(self);
        }
        let (packet, state, version) = match self.connection_state {
            ConnectionState::Handshaking => {
                let handshake = HandshakePacket::deserialize_read(frame)?;
                let number: i32 = handshake.protocol_version.value();
                let version = ProtocolVersion::try_from(number)?;
                let state = match handshake.next_state {
                    NextState::Status => ConnectionState::Status,
                    NextState::Login => ConnectionState::Login,
                };
                (Serverbound::Generic(Generic::Handshake(handshake)), state, Some(version))
            },
            state => {
                let version = match self.protocol_version {
                    Some(version) => version,
                    None => {
                        return Err(ProtocolError::NoSuchPacket);
                    },
                };
                (Serverbound::deserialize_read(frame, state, version)?, state, Some(version))
            },
        };
        let remaining_bytes = frame.remaining();
        if remaining_bytes != 0 {
            return Err(ProtocolError::TrailingBytes(remaining_bytes));
        }
        Ok((packet, state, version))
    }

    /// Reads one packet from the front of what `reader` has left, and moves
    /// the connection to the state that the packet asks for. Where that
    /// fails, nothing has been read and the connection is as it was.
    pub fn read_packet(&mut self, reader: &mut ByteReader) -> (result: Result<
        Serverbound,
        ProtocolError,
    >)
        ensures
            final(reader).buffer() == old(reader).buffer(),
            match parse_packet(
                old(self).state(),
                old(self).version(),
                old(reader).buffer(),
                old(reader).position(),
            ) {
                Ok(read) => {
                    &&& result matches Ok(packet)
                    &&& packet@ == read.packet
                    &&& final(reader).position() == read.end
                    &&& final(self).state() == read.connection_state
                    &&& final(self).version() == read.protocol_version
                },
                Err(e) => {
                    &&& result matches Err(failure)
                    &&& failure == e
                    &&& final(reader).position() == old(reader).position()
                    &&& final(self).state() == old(self).state()
                    &&& final(self).version() == old(self).version()
                },
            },
    {
        if let ConnectionState::Handshaking = self.connection_state {
            if is_packet_server_list_ping(reader)? {
                return Ok(
                    Serverbound::Generic(
                        Generic::ServerListPing(ServerListPingPacket::deserialize_read(reader)?),
                    ),
                );
            }
        }
        let start = reader.offset();
        let mut frame = get_length_prefixed_reader(reader)?;
        match self.read_frame(&mut frame) {
            Ok((packet, state, version)) => {
                self.protocol_version = version;
                self.connection_state = state;
                Ok(packet)
            },
            Err(e) => {
                reader.seek(start);
                Err(e)
            },
        }
    }

    /// Appends the frame of `packet` to `writer`: the whole frame, or, where
    /// the packet cannot be sent, nothing.
    pub fn send_packet<T: McProtocol>(&mut self, packet: T, writer: &mut Vec<u8>) -> (result:
        Result<(), ProtocolError>)
        ensures
            final(self).state() == old(self).state(),
            final(self).version() == old(self).version(),
            final(writer)@ == old(writer)@ + framed(
                T::wire_error(packet@),
                T::wire(packet@),
            ),
            match framed_error(T::wire_error(packet@), T::wire(packet@)) {
                None => result is Ok,
                Some(e) => result == Err::<(), ProtocolError>(e),
            },
    {
        match LengthPrefixed::from_mc_protocol(packet) {
            Ok(frame) => frame.serialize_write(writer),
            Err(e) => {
                assert(writer@ =~= old(writer)@ + Seq::<u8>::empty());
                Err(e)
            },
        }
    }
}

} // verus!
