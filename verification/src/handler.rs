//! What the proxy does with one connection.
//!
//! A connection is a loop: read a packet, act on it, answer if there is
//! something to answer, and go on or stop. Acting is a function of the packet
//! alone; what the connection has seen before is in the codec's state.

use vstd::prelude::*;

use crate::error::ProtocolError;
use crate::mc_protocol::byte_reader::ByteReader;
use crate::mc_protocol::clientbound_packets::v760_packets::login::{
    disconnect_error, disconnect_wire, LoginPacket, LoginPacketView,
};
use crate::mc_protocol::clientbound_packets::v760_packets::status::{
    status_response_error, status_response_wire, StatusPacket, StatusPacketView,
};
use crate::mc_protocol::clientbound_packets::v760_packets::{V760, V760View};
use crate::mc_protocol::codec::{
    framed, framed_error, lemma_legacy_ping_is_read, parse_packet, ServerCodec,
};
use crate::mc_protocol::serverbound_packets::generic_packets::server_list_ping::{
    legacy_ping_wire, max_host_units, utf16_text,
};
use crate::mc_protocol::serverbound_packets::generic_packets::{Generic, GenericView};
use crate::mc_protocol::serverbound_packets::v760_packets::login::LoginPacketView as LoginStartView;
use crate::mc_protocol::serverbound_packets::v760_packets::{
    LoginPacket as LoginStart, StatusPacket as StatusRequest, V760 as Request, V760View as RequestView,
};
use crate::mc_protocol::serverbound_packets::{Serverbound, ServerboundView};
use crate::mc_protocol::{ConnectionState, ProtocolVersion};
use crate::whitelist::Whitelist;

verus! {

/// The status that is reported while the server sleeps.
pub const STATUS_RESPONSE: &'static str =
    "{\"description\":[{\"text\":\"Hors Ligne ...\\n\",\"color\":\"gold\"},{\"text\":\"Connectez vous pour d\u{e9}marrer le serveur\",\"color\":\"dark_green\"}],\"players\":{\"max\":0,\"online\":1,\"sample\":[{\"name\":\"J'ai pas hack\u{e9} je jure\",\"id\":\"4566e69f-c907-48ee-8d71-d7ba5aa00d20\"}]},\"version\":{\"name\":\"1.19.2\",\"protocol\":760}}";

/// What a player is told whose login starts the server.
pub const LOGIN_RESPONSE: &'static str =
    "[{\"text\":\"Serveur Hors Ligne\\n\\n\",\"color\":\"red\"},{\"text\":\"Demande de d\u{e9}marrage re\u{e7}ue,\\nle serveur devrait \u{ea}tre disponible d'ici une minute\",\"color\":\"white\"}]";

/// What a player is told who is not on the whitelist.
pub const NOT_WHITELISTED_RESPONSE: &'static str =
    "{\"text\": \"You are not whitelisted on this server\"}";

/// How a connection ended, for the question whether the server is started.
#[derive(Debug, Clone, Copy, PartialEq, Eq, Structural)]
pub enum Outcome {
    /// The connection gives no reason to start the server.
    NoStart,
    /// A player who may do so asked for the server.
    StartRequested,
}

/// What to do after one packet.
#[derive(Debug)]
pub struct Step {
    /// The packet to answer with, if there is something to answer.
    pub reply: Option<V760>,
    /// How the connection ends, if it ends here.
    pub outcome: Option<Outcome>,
}

/// What to do after one packet, as plain values.
pub struct StepView {
    pub reply: Option<V760View>,
    pub outcome: Option<Outcome>,
}

impl View for Step {
    type V = StepView;

    open spec fn view(&self) -> StepView {
        StepView {
            reply: match self.reply {
                Some(packet) => Some(packet@),
                None => None,
            },
            outcome: self.outcome,
        }
    }
}

/// The ids on a whitelist that may not be in force.
pub open spec fn listed(whitelist: Option<&Whitelist>) -> Option<Set<u128>> {
    match whitelist {
        Some(list) => Some(list@),
        None => None,
    }
}

/// A disconnect with the given reason.
pub open spec fn disconnect(reason: Seq<char>) -> Option<V760View> {
    Some(V760View::Login(LoginPacketView::Disconnect { reason }))
}

/// What the proxy does with a packet.
///
/// - A legacy ping ends the connection, and starts nothing.
/// - A handshake is taken note of.
/// - A status request is answered with the canned status.
/// - A ping is echoed, and ends the connection, and starts nothing.
/// - A login is answered with a disconnect, and ends the connection. It asks
///   for the server if no whitelist is in force, or if the player gave an id
///   that is on it.
/// - Nothing else is served.
pub open spec fn decide(packet: ServerboundView, whitelist: Option<Set<u128>>) -> Result<
    StepView,
    ProtocolError,
> {
    match packet {
        ServerboundView::Generic(GenericView::ServerListPing(_)) => Ok(
            StepView { reply: None, outcome: Some(Outcome::NoStart) },
        ),
        ServerboundView::Generic(GenericView::Handshake(_)) => Ok(
            StepView { reply: None, outcome: None },
        ),
        ServerboundView::V760(RequestView::Status(StatusRequest::StatusRequest {  })) => Ok(
            StepView {
                reply: Some(
                    V760View::Status(
                        StatusPacketView::StatusResponse { json_response: STATUS_RESPONSE@ },
                    ),
                ),
                outcome: None,
            },
        ),
        ServerboundView::V760(RequestView::Status(StatusRequest::PingRequest { payload })) => Ok(
            StepView {
                reply: Some(V760View::Status(StatusPacketView::PingResponse { payload })),
                outcome: Some(Outcome::NoStart),
            },
        ),
        ServerboundView::V760(
            RequestView::Login(LoginStartView::LoginStart { name, sig_data, player_uuid }),
        ) => {
            let admitted = match whitelist {
                None => true,
                Some(list) => match player_uuid {
                    Some(uuid) => list.contains(uuid),
                    None => false,
                },
            };
            if admitted {
                Ok(
                    StepView {
                        reply: disconnect(LOGIN_RESPONSE@),
                        outcome: Some(Outcome::StartRequested),
                    },
                )
            } else {
                Ok(
                    StepView {
                        reply: disconnect(NOT_WHITELISTED_RESPONSE@),
                        outcome: Some(Outcome::NoStart),
                    },
                )
            }
        },
        ServerboundView::V760(RequestView::Handshake(_)) => Err(ProtocolError::UnhandledPacket),
        ServerboundView::V761(_) => Err(
            ProtocolError::UnservedVersion(ProtocolVersion::V761.spec_number()),
        ),
    }
}

/// A disconnect with the given reason.
fn disconnect_with(reason: &'static str) -> (reply: Option<V760>)
    ensures
        reply matches Some(packet) && Some(packet@) == disconnect(reason@),
{
    Some(V760::Login(LoginPacket::Disconnect { reason: reason.to_owned() }))
}

/// Decides what to do with a packet that was read.
pub fn handle_packet(packet: Serverbound, whitelist: Option<&Whitelist>) -> (result: Result<
    Step,
    ProtocolError,
>)
    ensures
        match decide(packet@, listed(whitelist)) {
            Ok(step) => result matches Ok(decided) && decided@ == step,
            Err(e) => result matches Err(failure) && failure == e,
        },
{
    match packet {
        Serverbound::Generic(Generic::ServerListPing(_)) => Ok(
            Step { reply: None, outcome: Some(Outcome::NoStart) },
        ),
        Serverbound::Generic(Generic::Handshake(_)) => Ok(Step { reply: None, outcome: None }),
        Serverbound::V760(Request::Status(StatusRequest::StatusRequest {  })) => Ok(
            Step {
                reply: Some(
                    V760::Status(
                        StatusPacket::StatusResponse { json_response: STATUS_RESPONSE.to_owned() },
                    ),
                ),
                outcome: None,
            },
        ),
        Serverbound::V760(Request::Status(StatusRequest::PingRequest { payload })) => Ok(
            Step {
                reply: Some(V760::Status(StatusPacket::PingResponse { payload })),
                outcome: Some(Outcome::NoStart),
            },
        ),
        Serverbound::V760(Request::Login(LoginStart::LoginStart { name, sig_data, player_uuid })) => {
            let admitted = match whitelist {
                None => true,
                Some(list) => match player_uuid {
                    Some(uuid) => list.contains(uuid),
                    None => false,
                },
            };
            if admitted {
                Ok(
                    Step {
                        reply: disconnect_with(LOGIN_RESPONSE),
                        outcome: Some(Outcome::StartRequested),
                    },
                )
            } else {
                Ok(
                    Step {
                        reply: disconnect_with(NOT_WHITELISTED_RESPONSE),
                        outcome: Some(Outcome::NoStart),
                    },
                )
            }
        },
        Serverbound::V760(Request::Handshake(_)) => Err(ProtocolError::UnhandledPacket),
        Serverbound::V761(_) => Err(ProtocolError::UnservedVersion(ProtocolVersion::V761.number())),
    }
}

/// Why a reply cannot be sent, if it cannot.
pub open spec fn reply_error(reply: V760View) -> Option<ProtocolError> {
    match reply {
        V760View::Status(packet) => framed_error(
            status_response_error(packet),
            status_response_wire(packet),
        ),
        V760View::Login(packet) => framed_error(disconnect_error(packet), disconnect_wire(packet)),
    }
}

/// The bytes that sending a reply appends: its frame, or nothing where it
/// cannot be sent.
pub open spec fn reply_frame(reply: V760View) -> Seq<u8> {
    match reply {
        V760View::Status(packet) => framed(
            status_response_error(packet),
            status_response_wire(packet),
        ),
        V760View::Login(packet) => framed(disconnect_error(packet), disconnect_wire(packet)),
    }
}

/// Appends the frame of a reply to `writer`.
pub fn send_reply(codec: &mut ServerCodec, reply: V760, writer: &mut Vec<u8>) -> (result: Result<
    (),
    ProtocolError,
>)
    ensures
        final(codec).state() == old(codec).state(),
        final(codec).version() == old(codec).version(),
        final(writer)@ == old(writer)@ + reply_frame(reply@),
        match reply_error(reply@) {
            None => result is Ok,
            Some(e) => result == Err::<(), ProtocolError>(e),
        },
{
    match reply {
        V760::Status(packet) => codec.send_packet(packet, writer),
        V760::Login(packet) => codec.send_packet(packet, writer),
    }
}

/// What one turn of a connection comes to.
pub struct Turn {
    /// What the turn sends to the client.
    pub sent: Seq<u8>,
    /// How the connection ends, if it ends with this turn.
    pub ended: Option<Result<Outcome, ProtocolError>>,
    /// The index behind the packet that the turn read.
    pub end: int,
    /// The state of the connection after the turn.
    pub connection_state: ConnectionState,
    /// The protocol version of the connection after the turn.
    pub protocol_version: Option<ProtocolVersion>,
}

/// One turn of a connection: the packet that starts at index `at` of `input`
/// is read, decided on and answered. The connection ends with the turn if
/// reading, deciding or answering fails, or if the decision ends it. Where
/// reading fails, nothing has been read; else the packet has been.
#[verifier::opaque]
pub open spec fn turn(
    connection_state: ConnectionState,
    protocol_version: Option<ProtocolVersion>,
    input: Seq<u8>,
    at: int,
    whitelist: Option<Set<u128>>,
) -> Turn {
    let stay = Turn {
        sent: Seq::<u8>::empty(),
        ended: None,
        end: at,
        connection_state,
        protocol_version,
    };
    match parse_packet(connection_state, protocol_version, input, at) {
        Err(e) => Turn { ended: Some(Err(e)), ..stay },
        Ok(read) => match decide(read.packet, whitelist) {
            Err(e) => Turn {
                sent: Seq::<u8>::empty(),
                ended: Some(Err(e)),
                end: read.end,
                connection_state: read.connection_state,
                protocol_version: read.protocol_version,
            },
            Ok(step) => {
                let sent = match step.reply {
                    Some(reply) => reply_frame(reply),
                    None => Seq::<u8>::empty(),
                };
                let failure = match step.reply {
                    Some(reply) => reply_error(reply),
                    None => None,
                };
                Turn {
                    sent,
                    ended: match failure {
                        Some(e) => Some(Err(e)),
                        None => match step.outcome {
                            Some(outcome) => Some(Ok(outcome)),
                            None => None,
                        },
                    },
                    end: read.end,
                    connection_state: read.connection_state,
                    protocol_version: read.protocol_version,
                }
            },
        },
    }
}

/// What is sent on a connection from one packet on, and how the connection
/// ends, where `input` is all that the client sends, the next packet starts
/// at index `at`, and the connection is in the given state.
///
/// Turn follows turn until one ends the connection. A client that stops
/// sending before the connection has ended makes the next read fail for want
/// of input.
pub open spec fn converse(
    connection_state: ConnectionState,
    protocol_version: Option<ProtocolVersion>,
    input: Seq<u8>,
    at: int,
    whitelist: Option<Set<u128>>,
) -> (Seq<u8>, Result<Outcome, ProtocolError>)
    decreases input.len() - at,
{
    let first = turn(connection_state, protocol_version, input, at, whitelist);
    match first.ended {
        Some(result) => (first.sent, result),
        None => if first.end <= at || first.end > input.len() {
            // A turn that goes on has read a packet, and no packet is empty
            // or longer than the input: see `lemma_turn_advances`.
            (first.sent, Err(ProtocolError::UnexpectedEof))
        } else {
            let rest = converse(
                first.connection_state,
                first.protocol_version,
                input,
                first.end,
                whitelist,
            );
            (first.sent + rest.0, rest.1)
        },
    }
}

/// Every packet takes up at least one byte.
pub proof fn lemma_packet_advances(
    connection_state: ConnectionState,
    protocol_version: Option<ProtocolVersion>,
    input: Seq<u8>,
    at: int,
)
    requires
        0 <= at,
    ensures
        parse_packet(connection_state, protocol_version, input, at) matches Ok(read) ==> at
            < read.end <= input.len(),
{
    reveal_with_fuel(crate::mc_protocol::data_types::mc_varint::scan_varint, 6);
}

/// A turn that does not end the connection has read at least one byte.
pub proof fn lemma_turn_advances(
    connection_state: ConnectionState,
    protocol_version: Option<ProtocolVersion>,
    input: Seq<u8>,
    at: int,
    whitelist: Option<Set<u128>>,
)
    requires
        0 <= at,
    ensures
        turn(connection_state, protocol_version, input, at, whitelist).ended is None ==> at < turn(
            connection_state,
            protocol_version,
            input,
            at,
            whitelist,
        ).end <= input.len(),
{
    reveal(turn);
    lemma_packet_advances(connection_state, protocol_version, input, at);
}

/// A legacy ping starts nothing: where all that a client sends starts with a
/// legacy ping whose host name is text, whatever follows it, the connection
/// ends with the ping, nothing is sent, and the server is not asked for.
pub proof fn lemma_legacy_ping_starts_nothing(
    protocol_version: u8,
    units: Seq<u16>,
    server_port: i32,
    input: Seq<u8>,
    whitelist: Option<Set<u128>>,
)
    requires
        units.len() <= max_host_units(),
        utf16_text(units) is Some,
        legacy_ping_wire(protocol_version, units, server_port).len() <= input.len(),
        input.subrange(0, legacy_ping_wire(protocol_version, units, server_port).len() as int)
            == legacy_ping_wire(protocol_version, units, server_port),
    ensures
        converse(ConnectionState::Handshaking, None, input, 0, whitelist) == (
            Seq::<u8>::empty(),
            Ok::<Outcome, ProtocolError>(Outcome::NoStart),
        ),
{
    reveal(turn);
    lemma_legacy_ping_is_read(protocol_version, units, server_port, None, input, 0);
}

/// Takes one turn of a connection: reads the next packet, and answers it
/// into `sent`. Gives back how the connection ends, if it ends here.
pub fn take_turn(
    codec: &mut ServerCodec,
    reader: &mut ByteReader,
    sent: &mut Vec<u8>,
    whitelist: Option<&Whitelist>,
) -> (ended: Option<Result<Outcome, ProtocolError>>)
    ensures
        final(reader).buffer() == old(reader).buffer(),
        ({
            let taken = turn(
                old(codec).state(),
                old(codec).version(),
                old(reader).buffer(),
                old(reader).position(),
                listed(whitelist),
            );
            &&& final(sent)@ == old(sent)@ + taken.sent
            &&& ended == taken.ended
            &&& final(reader).position() == taken.end
            &&& final(codec).state() == taken.connection_state
            &&& final(codec).version() == taken.protocol_version
        }),
{
    reveal(turn);
    let packet = match codec.read_packet(reader) {
        Ok(packet) => packet,
        Err(e) => {
            assert(sent@ =~= old(sent)@ + Seq::<u8>::empty());
            return Some(Err(e));
        },
    };
    let step = match handle_packet(packet, whitelist) {
        Ok(step) => step,
        Err(e) => {
            assert(sent@ =~= old(sent)@ + Seq::<u8>::empty());
            return Some(Err(e));
        },
    };
    let Step { reply, outcome } = step;
    match reply {
        Some(packet) => {
            match send_reply(codec, packet, sent) {
                Ok(()) => {},
                Err(e) => {
                    return Some(Err(e));
                },
            }
        },
        None => {
            assert(sent@ =~= old(sent)@ + Seq::<u8>::empty());
        },
    }
    match outcome {
        Some(outcome) => Some(Ok(outcome)),
        None => None,
    }
}

/// What a connection came to: the bytes that were sent to the client, and
/// how the connection ended.
#[derive(Debug)]
pub struct Conversation {
    /// All that was sent, in the order in which it was sent.
    pub sent: Vec<u8>,
    /// How the connection ended.
    pub result: Result<Outcome, ProtocolError>,
}

/// Serves one connection, given all that its client sends: takes turn after
/// turn until the connection ends.
pub fn handle_connection(input: Vec<u8>, whitelist: Option<&Whitelist>) -> (conversation:
    Conversation)
    ensures
        conversation.sent@ == converse(
            ConnectionState::Handshaking,
            None,
            input@,
            0,
            listed(whitelist),
        ).0,
        conversation.result == converse(
            ConnectionState::Handshaking,
            None,
            input@,
            0,
            listed(whitelist),
        ).1,
{
    let ghost whole = converse(ConnectionState::Handshaking, None, input@, 0, listed(whitelist));
    let ghost bytes = input@;
    let mut reader = ByteReader::new(input);
    let mut codec = ServerCodec::new();
    let mut sent: Vec<u8> = Vec::new();
    assert(sent@ + whole.0 =~= whole.0);
    loop
        invariant
            bytes == input@,
            reader.buffer() == bytes,
            0 <= reader.position() <= bytes.len(),
            whole == converse(ConnectionState::Handshaking, None, bytes, 0, listed(whitelist)),
            whole.0 == sent@ + converse(
                codec.state(),
                codec.version(),
                bytes,
                reader.position(),
                listed(whitelist),
            ).0,
            whole.1 == converse(
                codec.state(),
                codec.version(),
                bytes,
                reader.position(),
                listed(whitelist),
            ).1,
        decreases bytes.len() - reader.position(),
    {
        let ghost at = reader.position();
        let ghost before = sent@;
        let ghost taken = turn(codec.state(), codec.version(), bytes, at, listed(whitelist));
        let ghost rest = converse(codec.state(), codec.version(), bytes, at, listed(whitelist));
        proof {
            lemma_turn_advances(codec.state(), codec.version(), bytes, at, listed(whitelist));
        }
        match take_turn(&mut codec, &mut reader, &mut sent, whitelist) {
            Some(result) => {
                return Conversation { sent, result };
            },
            None => {},
        }
        proof {
            let next = converse(
                codec.state(),
                codec.version(),
                bytes,
                reader.position(),
                listed(whitelist),
            );
            assert(rest.0 == taken.sent + next.0);
            assert(sent@ + next.0 =~= before + (taken.sent + next.0));
        }
    }
}

} // verus!
