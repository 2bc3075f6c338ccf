use activity_manager::codec::{Codec, PacketLength, VarintBuffer};
use activity_manager::error::{ErrorKind, ProtocolError};
use activity_manager::handler::{
    handle_connection, handle_packet, send_reply, take_turn, Outcome, LOGIN_RESPONSE,
    NOT_WHITELISTED_RESPONSE, STATUS_RESPONSE,
};
use activity_manager::mc_protocol::byte_reader::ByteReader;
use activity_manager::mc_protocol::clientbound_packets::v760_packets::{
    LoginPacket as Disconnect, StatusPacket as StatusReply,
};
use activity_manager::mc_protocol::clientbound_packets::V760 as Reply;
use activity_manager::mc_protocol::data_types::{frame_arrived, LengthPrefixed, McVarint};
use activity_manager::mc_protocol::serverbound_packets::generic_packets::{
    Generic, HandshakePacket, NextState,
};
use activity_manager::mc_protocol::serverbound_packets::v760_packets::{
    LoginPacket, StatusPacket, V760,
};
use activity_manager::mc_protocol::serverbound_packets::v761_packets::{
    LoginPacket as LoginPacket761, V761,
};
use activity_manager::mc_protocol::serverbound_packets::Serverbound;
use activity_manager::mc_protocol::{ConnectionState, McProtocol, ProtocolVersion, ServerCodec};
use activity_manager::whitelist::Whitelist;

const STEVE: u128 = 0x4566_e69f_c907_48ee_8d71_d7ba_5aa0_0d20;
const ALEX: u128 = 0x0000_0000_0000_0000_0000_0000_0000_0001;

fn frame<T: McProtocol>(packet: T) -> Vec<u8> {
    let mut bytes = Vec::new();
    LengthPrefixed::from_mc_protocol(packet).unwrap().serialize_write(&mut bytes).unwrap();
    bytes
}

fn handshake(version: i32, next_state: NextState) -> HandshakePacket {
    HandshakePacket {
        protocol_version: McVarint::from(version),
        server_address: String::from("example"),
        server_port: 25565,
        next_state,
    }
}

fn login(name: &str, player_uuid: Option<u128>) -> LoginPacket {
    LoginPacket::LoginStart { name: String::from(name), sig_data: None, player_uuid }
}

fn disconnect(reason: &str) -> Vec<u8> {
    frame(Disconnect::Disconnect { reason: String::from(reason) })
}

fn ping_from(hostname: &str) -> Vec<u8> {
    let mut bytes = vec![
        0xfe, 0x01, 0xfa, 0x00, 0x0b, 0x00, 0x4d, 0x00, 0x43, 0x00, 0x7c, 0x00, 0x50, 0x00, 0x69,
        0x00, 0x6e, 0x00, 0x67, 0x00, 0x48, 0x00, 0x6f, 0x00, 0x73, 0x00, 0x74,
    ];
    let units: Vec<u16> = hostname.encode_utf16().collect();
    bytes.extend_from_slice(&((7 + 2 * units.len()) as i16).to_be_bytes());
    bytes.push(74);
    bytes.extend_from_slice(&(units.len() as i16).to_be_bytes());
    for unit in units {
        bytes.extend_from_slice(&unit.to_be_bytes());
    }
    bytes.extend_from_slice(&25565_i32.to_be_bytes());
    bytes
}

#[test]
fn frame_is_length_then_payload() {
    assert_eq!(frame(StatusPacket::StatusRequest {}), vec![1, 0]);
    assert_eq!(
        frame(StatusPacket::PingRequest { payload: 42 }),
        vec![9, 1, 0, 0, 0, 0, 0, 0, 0, 42]
    );
    let mut codec = ServerCodec::new();
    let mut sent = vec![0xee];
    codec.send_packet(StatusPacket::PingRequest { payload: 1 }, &mut sent).unwrap();
    assert_eq!(sent, vec![0xee, 9, 1, 0, 0, 0, 0, 0, 0, 0, 1]);
}

#[test]
fn frame_round_trip_through_the_codec() {
    let mut input = frame(handshake(760, NextState::Status));
    input.extend(frame(StatusPacket::StatusRequest {}));
    input.extend(frame(StatusPacket::PingRequest { payload: -3 }));
    let mut reader = ByteReader::new(input);
    let mut codec = ServerCodec::new();
    assert_eq!(codec.connection_state(), ConnectionState::Handshaking);
    assert_eq!(codec.protocol_version(), None);
    match codec.read_packet(&mut reader).unwrap() {
        Serverbound::Generic(Generic::Handshake(read)) => {
            assert_eq!(read.protocol_version.value(), 760);
            assert_eq!(read.server_address, "example");
            assert_eq!(read.server_port, 25565);
            assert_eq!(read.next_state, NextState::Status);
        }
        other => panic!("read {other:?}"),
    }
    assert_eq!(codec.connection_state(), ConnectionState::Status);
    assert_eq!(codec.protocol_version(), Some(ProtocolVersion::V760));
    assert!(matches!(
        codec.read_packet(&mut reader),
        Ok(Serverbound::V760(V760::Status(StatusPacket::StatusRequest {})))
    ));
    assert!(matches!(
        codec.read_packet(&mut reader),
        Ok(Serverbound::V760(V760::Status(StatusPacket::PingRequest { payload: -3 })))
    ));
    assert_eq!(codec.connection_state(), ConnectionState::Status);
    assert_eq!(reader.remaining(), 0);
    assert_eq!(codec.read_packet(&mut reader).err(), Some(ProtocolError::UnexpectedEof));
}

#[test]
fn frame_whose_length_exceeds_the_input_errors() {
    let whole = frame(handshake(760, NextState::Login));
    for kept in 3..whole.len() {
        let mut reader = ByteReader::new(whole[..kept].to_vec());
        let mut codec = ServerCodec::new();
        assert_eq!(codec.read_packet(&mut reader).err(), Some(ProtocolError::UnexpectedEof));
        assert_eq!(reader.offset(), 0);
        assert_eq!(codec.connection_state(), ConnectionState::Handshaking);
        // With the rest of the frame the same read succeeds.
        let mut reader = reader.extend(&whole[kept..]);
        assert!(codec.read_packet(&mut reader).is_ok());
        assert_eq!(codec.connection_state(), ConnectionState::Login);
    }
}

#[test]
fn packet_that_leaves_bytes_of_its_frame_errors() {
    let mut input = frame(handshake(760, NextState::Status));
    input.extend_from_slice(&[3, 0, 0xaa, 0xbb]);
    let mut reader = ByteReader::new(input);
    let mut codec = ServerCodec::new();
    codec.read_packet(&mut reader).unwrap();
    let before = reader.offset();
    let failure = codec.read_packet(&mut reader).err().unwrap();
    assert_eq!(failure, ProtocolError::TrailingBytes(2));
    assert_eq!(failure.kind(), ErrorKind::Other);
    assert_eq!(reader.offset(), before);
    // A handshake, too, must take up its frame.
    let mut padded = Vec::new();
    handshake(760, NextState::Status).serialize_write(&mut padded).unwrap();
    padded.push(0);
    let mut reader = ByteReader::new(frame(LengthPrefixed::from(padded)));
    let mut skip = ByteReader::new(Vec::from(LengthPrefixed::deserialize_read(&mut reader).unwrap()));
    let mut codec = ServerCodec::new();
    assert_eq!(codec.read_packet(&mut skip).err(), Some(ProtocolError::TrailingBytes(1)));
    assert_eq!(codec.connection_state(), ConnectionState::Handshaking);
    assert_eq!(codec.protocol_version(), None);
}

#[test]
fn handshake_with_an_unknown_version_errors() {
    let mut reader = ByteReader::new(frame(handshake(47, NextState::Status)));
    let mut codec = ServerCodec::new();
    let failure = codec.read_packet(&mut reader).err().unwrap();
    assert_eq!(failure, ProtocolError::UnsupportedVersion(47));
    assert_eq!(codec.connection_state(), ConnectionState::Handshaking);
    assert_eq!(reader.offset(), 0);
}

#[test]
fn packet_id_that_the_state_does_not_know_errors() {
    let mut input = frame(handshake(760, NextState::Status));
    input.extend_from_slice(&[1, 7]);
    let conversation = handle_connection(input, None);
    assert_eq!(conversation.result, Err(ProtocolError::UnexpectedPacketId(7)));
    assert!(conversation.sent.is_empty());
}

#[test]
fn status_scenario() {
    let mut input = frame(handshake(760, NextState::Status));
    input.extend(frame(StatusPacket::StatusRequest {}));
    input.extend(frame(StatusPacket::PingRequest { payload: 42 }));
    let conversation = handle_connection(input, None);
    let mut expected =
        frame(StatusReply::StatusResponse { json_response: String::from(STATUS_RESPONSE) });
    expected.extend(frame(StatusReply::PingResponse { payload: 42 }));
    assert_eq!(conversation.sent, expected);
    assert_eq!(conversation.result, Ok(Outcome::NoStart));
    assert_eq!(&expected[expected.len() - 10..], &[9, 1, 0, 0, 0, 0, 0, 0, 0, 42]);
}

#[test]
fn status_without_ping_ends_when_the_client_stops() {
    let mut input = frame(handshake(760, NextState::Status));
    input.extend(frame(StatusPacket::StatusRequest {}));
    let conversation = handle_connection(input, None);
    assert_eq!(
        conversation.sent,
        frame(StatusReply::StatusResponse { json_response: String::from(STATUS_RESPONSE) })
    );
    assert_eq!(conversation.result, Err(ProtocolError::UnexpectedEof));
}

#[test]
fn connection_stops_reading_once_it_has_ended() {
    let mut input = frame(handshake(760, NextState::Status));
    input.extend(frame(StatusPacket::PingRequest { payload: 1 }));
    input.extend_from_slice(&[0xff, 0xff, 0xff, 0xff, 0xff, 0xff]);
    let conversation = handle_connection(input, None);
    assert_eq!(conversation.sent, frame(StatusReply::PingResponse { payload: 1 }));
    assert_eq!(conversation.result, Ok(Outcome::NoStart));
}

#[test]
fn login_scenario_without_whitelist() {
    let mut input = frame(handshake(760, NextState::Login));
    input.extend(frame(login("Steve", None)));
    let conversation = handle_connection(input, None);
    assert_eq!(conversation.sent, disconnect(LOGIN_RESPONSE));
    assert_eq!(conversation.result, Ok(Outcome::StartRequested));
}

#[test]
fn login_scenario_with_whitelist_and_unlisted_uuid() {
    let whitelist = Whitelist::new(vec![ALEX]);
    let mut input = frame(handshake(760, NextState::Login));
    input.extend(frame(login("Steve", Some(STEVE))));
    let conversation = handle_connection(input, Some(&whitelist));
    assert_eq!(conversation.sent, disconnect(NOT_WHITELISTED_RESPONSE));
    assert_eq!(conversation.result, Ok(Outcome::NoStart));
    assert_ne!(NOT_WHITELISTED_RESPONSE, LOGIN_RESPONSE);
}

#[test]
fn login_scenario_with_whitelist_and_listed_uuid() {
    let whitelist = Whitelist::new(vec![ALEX, STEVE]);
    let mut input = frame(handshake(760, NextState::Login));
    input.extend(frame(login("Steve", Some(STEVE))));
    let conversation = handle_connection(input, Some(&whitelist));
    assert_eq!(conversation.sent, disconnect(LOGIN_RESPONSE));
    assert_eq!(conversation.result, Ok(Outcome::StartRequested));
}

#[test]
fn login_scenario_with_whitelist_and_no_uuid() {
    let whitelist = Whitelist::new(vec![ALEX, STEVE]);
    let mut input = frame(handshake(760, NextState::Login));
    input.extend(frame(login("Steve", None)));
    let conversation = handle_connection(input, Some(&whitelist));
    assert_eq!(conversation.sent, disconnect(NOT_WHITELISTED_RESPONSE));
    assert_eq!(conversation.result, Ok(Outcome::NoStart));
}

#[test]
fn legacy_probe_scenario() {
    let ping = ping_from("localhost");
    assert_eq!(&ping[..3], &[0xfe, 0x01, 0xfa]);
    let mut reader = ByteReader::new(ping.clone());
    let mut codec = ServerCodec::new();
    match codec.read_packet(&mut reader).unwrap() {
        Serverbound::Generic(Generic::ServerListPing(read)) => {
            assert_eq!(read.protocol_version, 74);
            assert_eq!(read.server_address, "localhost");
            assert_eq!(read.server_port, 25565);
        }
        other => panic!("read {other:?}"),
    }
    assert_eq!(reader.remaining(), 0);
    assert_eq!(codec.connection_state(), ConnectionState::Handshaking);
    let conversation = handle_connection(ping, None);
    assert!(conversation.sent.is_empty());
    assert_eq!(conversation.result, Ok(Outcome::NoStart));
    // A host name that is not ASCII is a host name as well.
    let mut ping = ping_from("d\u{e9}marrer.example");
    ping.extend_from_slice(&[1, 0]);
    let mut reader = ByteReader::new(ping.clone());
    assert!(matches!(
        ServerCodec::new().read_packet(&mut reader),
        Ok(Serverbound::Generic(Generic::ServerListPing(_)))
    ));
    assert_eq!(reader.remaining(), 2);
    let conversation = handle_connection(ping, None);
    assert!(conversation.sent.is_empty());
    assert_eq!(conversation.result, Ok(Outcome::NoStart));
}

#[test]
fn legacy_probe_is_looked_for_only_while_handshaking() {
    let mut input = frame(handshake(760, NextState::Status));
    // A frame of 0xfe bytes whose payload starts 0x01 0xfa: no legacy ping in this state.
    let mut payload = vec![0x01, 0xfa];
    payload.resize(0xfe, 0);
    input.push(0xfe);
    input.push(0x01);
    input.extend_from_slice(&payload);
    let mut reader = ByteReader::new(input);
    let mut codec = ServerCodec::new();
    codec.read_packet(&mut reader).unwrap();
    assert!(matches!(
        codec.read_packet(&mut reader).err(),
        Some(ProtocolError::TrailingBytes(_))
    ));
}

#[test]
fn version_761_is_read_but_not_served() {
    let mut input = frame(handshake(761, NextState::Login));
    input.extend(frame(LoginPacket761::LoginStart { name: String::from("Steve"), player_uuid: None }));
    let conversation = handle_connection(input, None);
    assert!(conversation.sent.is_empty());
    assert_eq!(conversation.result, Err(ProtocolError::UnservedVersion(761)));
    assert_eq!(ProtocolError::UnservedVersion(761).kind(), ErrorKind::InvalidData);
    let packet = Serverbound::V761(V761::Status(StatusPacket::StatusRequest {}));
    assert_eq!(handle_packet(packet, None).err(), Some(ProtocolError::UnservedVersion(761)));
}

#[test]
fn handshake_of_a_version_is_not_served() {
    let packet = Serverbound::V760(V760::Handshake(handshake(760, NextState::Status)));
    let failure = handle_packet(packet, None).err().unwrap();
    assert_eq!(failure, ProtocolError::UnhandledPacket);
    assert_eq!(failure.kind(), ErrorKind::Other);
}

#[test]
fn decisions_packet_by_packet() {
    let step = handle_packet(
        Serverbound::Generic(Generic::Handshake(handshake(760, NextState::Status))),
        None,
    )
    .unwrap();
    assert!(step.reply.is_none());
    assert_eq!(step.outcome, None);
    let step =
        handle_packet(Serverbound::V760(V760::Status(StatusPacket::StatusRequest {})), None)
            .unwrap();
    assert_eq!(step.outcome, None);
    match step.reply {
        Some(Reply::Status(StatusReply::StatusResponse { json_response })) => {
            assert_eq!(json_response, STATUS_RESPONSE)
        }
        other => panic!("decided {other:?}"),
    }
    let step = handle_packet(
        Serverbound::V760(V760::Status(StatusPacket::PingRequest { payload: 7 })),
        None,
    )
    .unwrap();
    assert_eq!(step.outcome, Some(Outcome::NoStart));
    assert!(matches!(step.reply, Some(Reply::Status(StatusReply::PingResponse { payload: 7 }))));
    let mut codec = ServerCodec::new();
    let mut sent = Vec::new();
    send_reply(&mut codec, step.reply.unwrap(), &mut sent).unwrap();
    assert_eq!(sent, vec![9, 1, 0, 0, 0, 0, 0, 0, 0, 7]);
}

#[test]
fn turns_are_taken_one_by_one() {
    let mut input = frame(handshake(760, NextState::Status));
    input.extend(frame(StatusPacket::PingRequest { payload: 5 }));
    let mut reader = ByteReader::new(input);
    let mut codec = ServerCodec::new();
    let mut sent = Vec::new();
    assert_eq!(take_turn(&mut codec, &mut reader, &mut sent, None), None);
    assert!(sent.is_empty());
    assert_eq!(codec.connection_state(), ConnectionState::Status);
    assert_eq!(
        take_turn(&mut codec, &mut reader, &mut sent, None),
        Some(Ok(Outcome::NoStart))
    );
    assert_eq!(sent, vec![9, 1, 0, 0, 0, 0, 0, 0, 0, 5]);
}

#[test]
fn canned_status_has_the_shape_of_a_status() {
    let status: serde_json::Value = serde_json::from_str(STATUS_RESPONSE).unwrap();
    assert!(status.get("description").is_some());
    assert_eq!(status["players"]["max"].as_u64(), Some(0));
    assert_eq!(status["players"]["online"].as_u64(), Some(1));
    assert!(status["players"]["sample"][0]["name"].is_string());
    assert!(status["players"]["sample"][0]["id"].is_string());
    assert_eq!(status["version"]["name"].as_str(), Some("1.19.2"));
    assert_eq!(status["version"]["protocol"].as_u64(), Some(760));
    assert!(serde_json::from_str::<serde_json::Value>(LOGIN_RESPONSE).is_ok());
    assert!(serde_json::from_str::<serde_json::Value>(NOT_WHITELISTED_RESPONSE).is_ok());
}

#[test]
fn packet_length_is_unknown_until_it_is_taken_for_known() {
    let mut length = PacketLength::unknown();
    assert_eq!(length, PacketLength::Reading(VarintBuffer { length: 0, data: 0 }));
    assert_eq!(length.length(), Err(ProtocolError::LengthUnknown));
    assert_eq!(ProtocolError::LengthUnknown.kind(), ErrorKind::InvalidData);
    let mut length = PacketLength::Reading(VarintBuffer { length: 2, data: 968 });
    length.to_known();
    assert_eq!(length, PacketLength::Known(968));
    assert_eq!(length.length(), Ok(968));
    length.to_known();
    assert_eq!(length, PacketLength::Known(968));
}

#[test]
fn message_round_trip_holds() {
    for message in [vec![], vec![1_u8, 2, 3], vec![7; 127], vec![8; 128], vec![9; 20000]] {
        let mut sender = Codec::new(Vec::new());
        sender.send_message(message.clone());
        let frame = sender.written().clone();
        assert_eq!(frame.len(), message.len() + if message.len() < 128 { 1 } else if message.len() < 16384 { 2 } else { 3 });
        let mut receiver = Codec::new(frame);
        assert_eq!(receiver.read_message(), Ok(message));
        assert_eq!(receiver.read_message(), Err(ProtocolError::UnexpectedEof));
    }
}

#[test]
fn messages_are_read_one_frame_at_a_time() {
    let mut codec = Codec::new(vec![2, 0xaa, 0xbb, 1, 0xcc, 3, 0xdd]);
    assert_eq!(codec.read_message(), Ok(vec![0xaa, 0xbb]));
    assert_eq!(codec.read_message(), Ok(vec![0xcc]));
    assert_eq!(codec.read_message(), Err(ProtocolError::UnexpectedEof));
    let mut codec = codec.receive(&[0xee, 0xff]);
    assert_eq!(codec.read_message(), Ok(vec![0xdd, 0xee, 0xff]));
    codec.send_message(vec![1, 2]);
    codec.send_message(vec![3]);
    assert_eq!(codec.written(), &vec![2, 1, 2, 1, 3]);
}

#[test]
fn message_length_of_more_than_five_bytes_is_refused() {
    let mut codec = Codec::new(vec![0x80, 0x80, 0x80, 0x80, 0x80, 0x00]);
    assert_eq!(codec.read_message(), Err(ProtocolError::VarintTooLong));
    let mut codec = Codec::new(vec![0x80, 0x80]);
    assert_eq!(codec.read_message(), Err(ProtocolError::UnexpectedEof));
}

#[test]
fn packet_has_arrived_once_its_frame_is_whole() {
    let whole = frame(handshake(760, NextState::Status));
    let codec = ServerCodec::new();
    for kept in 0..whole.len() {
        let mut reader = ByteReader::new(whole[..kept].to_vec());
        assert!(!codec.packet_arrived(&mut reader), "{kept}");
        assert_eq!(reader.offset(), 0);
    }
    let mut reader = ByteReader::new(whole.clone());
    assert!(codec.packet_arrived(&mut reader));
    assert_eq!(reader.offset(), 0);
    // What has arrived reads the same with more behind it.
    let mut codec = ServerCodec::new();
    let mut reader = reader.extend(&[1, 2, 3]);
    assert!(codec.packet_arrived(&mut reader));
    assert!(codec.read_packet(&mut reader).is_ok());
    assert_eq!(reader.remaining(), 3);
}

#[test]
fn packet_that_is_refused_has_arrived() {
    let codec = ServerCodec::new();
    // A length of more than five bytes, and a negative one: more input mends neither.
    let mut reader = ByteReader::new(vec![0x80, 0x80, 0x80, 0x80, 0x80]);
    assert!(codec.packet_arrived(&mut reader));
    let mut reader = ByteReader::new(vec![0xff, 0xff, 0xff, 0xff, 0x0f]);
    assert!(codec.packet_arrived(&mut reader));
    assert!(frame_arrived(&mut reader));
    // A frame whose packet is cut short inside it has arrived as well.
    let mut reader = ByteReader::new(vec![3, 0, 0xf8, 0x05]);
    assert!(codec.packet_arrived(&mut reader));
    let mut codec = ServerCodec::new();
    assert_eq!(codec.read_packet(&mut reader).err(), Some(ProtocolError::UnexpectedEof));
}

#[test]
fn legacy_ping_has_arrived_once_its_layout_is_whole() {
    let whole = ping_from("localhost");
    let codec = ServerCodec::new();
    for kept in 0..whole.len() {
        let mut reader = ByteReader::new(whole[..kept].to_vec());
        assert!(!codec.packet_arrived(&mut reader), "{kept}");
    }
    let mut reader = ByteReader::new(whole.clone());
    assert!(codec.packet_arrived(&mut reader));
    assert_eq!(reader.offset(), 0);
    // A layout that is broken has arrived as soon as the break shows.
    let mut broken = whole[..27].to_vec();
    broken[10] = 0xff;
    let mut reader = ByteReader::new(broken);
    assert!(codec.packet_arrived(&mut reader));
}

#[test]
fn frame_has_arrived_once_all_of_it_is_there() {
    let mut reader = ByteReader::new(vec![2, 0xaa]);
    assert!(!frame_arrived(&mut reader));
    let mut reader = reader.extend(&[0xbb]);
    assert!(frame_arrived(&mut reader));
    assert_eq!(reader.offset(), 0);
    let mut empty = ByteReader::new(Vec::new());
    assert!(!frame_arrived(&mut empty));
}
