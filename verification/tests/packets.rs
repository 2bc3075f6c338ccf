use activity_manager::error::{ErrorKind, ProtocolError};
use activity_manager::mc_protocol::byte_reader::{
    write_i64, write_u128, write_u16, write_u8, ByteReader,
};
use activity_manager::mc_protocol::clientbound_packets::v760_packets::{
    LoginPacket as Disconnect, StatusPacket as StatusReply,
};
use activity_manager::mc_protocol::clientbound_packets::{
    Clientbound, V760 as ClientboundV760, V761 as ClientboundV761,
};
use activity_manager::mc_protocol::data_types::{
    get_length_prefixed_reader, LengthPrefixed, McVarint,
};
use activity_manager::mc_protocol::serverbound_packets::generic_packets::server_list_ping::LegacyPingHead;
use activity_manager::mc_protocol::serverbound_packets::generic_packets::{
    is_packet_server_list_ping, HandshakePacket, NextState, ServerListPingPacket,
};
use activity_manager::mc_protocol::serverbound_packets::v760_packets::{
    LoginPacket, SigData, StatusPacket, V760,
};
use activity_manager::mc_protocol::serverbound_packets::v761_packets::{
    LoginPacket as LoginPacket761, V761,
};
use activity_manager::mc_protocol::serverbound_packets::Serverbound;
use activity_manager::mc_protocol::{
    ConnectionState, ConnectionStateLevelDeserialize, McProtocol, ProtocolVersion,
    ProtocolVersionLevelDeserialize,
};

fn written<T: McProtocol>(value: &T) -> Vec<u8> {
    let mut bytes = Vec::new();
    value.serialize_write(&mut bytes).unwrap();
    bytes
}

fn read_string(bytes: &[u8]) -> Result<String, ProtocolError> {
    let mut reader = ByteReader::new(bytes.to_vec());
    String::deserialize_read(&mut reader)
}

fn example_handshake() -> HandshakePacket {
    HandshakePacket {
        protocol_version: McVarint::from(760),
        server_address: String::from("example"),
        server_port: 25565,
        next_state: NextState::Status,
    }
}

fn legacy_ping(hostname: &str, protocol_version: u8, port: i32) -> Vec<u8> {
    let mut bytes = vec![
        0xfe, 0x01, 0xfa, 0x00, 0x0b, 0x00, 0x4d, 0x00, 0x43, 0x00, 0x7c, 0x00, 0x50, 0x00, 0x69,
        0x00, 0x6e, 0x00, 0x67, 0x00, 0x48, 0x00, 0x6f, 0x00, 0x73, 0x00, 0x74,
    ];
    let units: Vec<u16> = hostname.encode_utf16().collect();
    bytes.extend_from_slice(&((7 + 2 * units.len()) as i16).to_be_bytes());
    bytes.push(protocol_version);
    bytes.extend_from_slice(&(units.len() as i16).to_be_bytes());
    for unit in units {
        bytes.extend_from_slice(&unit.to_be_bytes());
    }
    bytes.extend_from_slice(&port.to_be_bytes());
    bytes
}

#[test]
fn fixed_width_numbers_are_big_endian() {
    let mut bytes = Vec::new();
    write_u8(&mut bytes, 0xab);
    write_u16(&mut bytes, 25565);
    write_i64(&mut bytes, 42);
    write_i64(&mut bytes, -2);
    write_u128(&mut bytes, 0x0102_0304_0506_0708_090a_0b0c_0d0e_0f10);
    assert_eq!(
        bytes,
        vec![
            0xab, 0x63, 0xdd, 0, 0, 0, 0, 0, 0, 0, 42, 0xff, 0xff, 0xff, 0xff, 0xff, 0xff, 0xff,
            0xfe, 1, 2, 3, 4, 5, 6, 7, 8, 9, 10, 11, 12, 13, 14, 15, 16,
        ]
    );
    let mut reader = ByteReader::new(bytes);
    assert_eq!(reader.read_u8(), Ok(0xab));
    assert_eq!(reader.read_u16(), Ok(25565));
    assert_eq!(reader.read_i64(), Ok(42));
    assert_eq!(reader.read_i64(), Ok(-2));
    assert_eq!(reader.read_u128(), Ok(0x0102_0304_0506_0708_090a_0b0c_0d0e_0f10));
    assert_eq!(reader.remaining(), 0);
    assert_eq!(reader.read_u8(), Err(ProtocolError::UnexpectedEof));
}

#[test]
fn signed_numbers_are_twos_complement() {
    let mut reader = ByteReader::new(vec![
        0xff, 0xff, 0x80, 0x00, 0x7f, 0xff, 0xff, 0xff, 0xff, 0xff, 0x80, 0x00, 0x00, 0x00, 0x80,
        0, 0, 0, 0, 0, 0, 0,
    ]);
    assert_eq!(reader.read_i16(), Ok(-1));
    assert_eq!(reader.read_i16(), Ok(i16::MIN));
    assert_eq!(reader.read_i16(), Ok(i16::MAX));
    assert_eq!(reader.read_i32(), Ok(-1));
    assert_eq!(reader.read_i32(), Ok(i32::MIN));
    assert_eq!(reader.read_i64(), Ok(i64::MIN));
    let mut bytes = Vec::new();
    write_i64(&mut bytes, i64::MIN);
    write_i64(&mut bytes, i64::MAX);
    assert_eq!(
        bytes,
        vec![0x80, 0, 0, 0, 0, 0, 0, 0, 0x7f, 0xff, 0xff, 0xff, 0xff, 0xff, 0xff, 0xff]
    );
}

#[test]
fn short_reads_read_nothing() {
    let mut reader = ByteReader::new(vec![1, 2, 3]);
    assert_eq!(reader.read_i32(), Err(ProtocolError::UnexpectedEof));
    assert_eq!(reader.read_u128(), Err(ProtocolError::UnexpectedEof));
    assert_eq!(reader.read_exact(4), Err(ProtocolError::UnexpectedEof));
    assert_eq!(reader.offset(), 0);
    assert_eq!(reader.peek(2), Some(3));
    assert_eq!(reader.peek(3), None);
    assert_eq!(reader.read_exact(2), Ok(vec![1, 2]));
    assert_eq!(reader.offset(), 2);
    assert_eq!(reader.read_u16(), Err(ProtocolError::UnexpectedEof));
    assert_eq!(reader.read_u8(), Ok(3));
}

#[test]
fn string_round_trip_holds() {
    for length in [0_usize, 15, 16, 17, 255, 256, 300, 70000] {
        let text: String = "a".repeat(length);
        let bytes = written(&text);
        let prefix = written(&McVarint::from(length as i32));
        assert_eq!(&bytes[..prefix.len()], prefix.as_slice());
        assert_eq!(&bytes[prefix.len()..], text.as_bytes());
        assert_eq!(read_string(&bytes), Ok(text));
    }
}

#[test]
fn string_length_counts_bytes() {
    let text = String::from("d\u{e9}marrer \u{1f600}");
    let bytes = written(&text);
    assert_eq!(bytes[0] as usize, text.len());
    assert_eq!(bytes.len(), 1 + text.len());
    assert_eq!(read_string(&bytes), Ok(text));
    assert_eq!(written(&String::from("hi")), vec![2, b'h', b'i']);
}

#[test]
fn truncated_string_is_unexpected_eof() {
    let bytes = written(&String::from("example"));
    for kept in 0..bytes.len() {
        let failure = read_string(&bytes[..kept]).unwrap_err();
        assert_eq!(failure, ProtocolError::UnexpectedEof);
        assert_eq!(failure.kind(), ErrorKind::UnexpectedEof);
    }
    let long = written(&"b".repeat(300));
    assert_eq!(read_string(&long[..1]), Err(ProtocolError::UnexpectedEof));
    assert_eq!(read_string(&long[..301]), Err(ProtocolError::UnexpectedEof));
}

#[test]
fn invalid_utf8_is_invalid_data() {
    let failure = read_string(&[2, 0xc3, 0x28]).unwrap_err();
    assert_eq!(failure, ProtocolError::InvalidUtf8);
    assert_eq!(failure.kind(), ErrorKind::InvalidData);
    assert_eq!(read_string(&[1, 0xff]), Err(ProtocolError::InvalidUtf8));
    // A failure reads nothing.
    let mut reader = ByteReader::new(vec![2, 0xc3, 0x28, 9]);
    assert!(String::deserialize_read(&mut reader).is_err());
    assert_eq!(reader.offset(), 0);
}

#[test]
fn string_with_negative_length_is_refused() {
    let failure = read_string(&[0xff, 0xff, 0xff, 0xff, 0x0f, b'a']).unwrap_err();
    assert_eq!(failure, ProtocolError::NegativeLength(-1));
    assert_eq!(failure.kind(), ErrorKind::InvalidData);
}

#[test]
fn length_prefixed_round_trip_holds() {
    for payload in [vec![], vec![0_u8], vec![1, 2, 3], vec![7; 128], vec![9; 70000]] {
        let bytes = written(&LengthPrefixed::from(payload.clone()));
        assert_eq!(bytes.len(), payload.len() + written(&McVarint::from(payload.len() as i32)).len());
        let mut reader = ByteReader::new(bytes);
        let read = LengthPrefixed::deserialize_read(&mut reader).unwrap();
        assert_eq!(Vec::<u8>::from(read), payload);
        assert_eq!(reader.remaining(), 0);
    }
}

#[test]
fn length_prefixed_wire_is_exact() {
    assert_eq!(written(&LengthPrefixed::from(vec![0xaa, 0xbb])), vec![2, 0xaa, 0xbb]);
    let long = written(&LengthPrefixed::from(vec![5; 200]));
    assert_eq!(&long[..2], &[0xc8, 0x01]);
    assert_eq!(long.len(), 202);
}

#[test]
fn frame_that_announces_more_than_there_is_errors() {
    let mut reader = ByteReader::new(vec![5, 1, 2, 3]);
    let failure = get_length_prefixed_reader(&mut reader).unwrap_err();
    assert_eq!(failure, ProtocolError::UnexpectedEof);
    assert_eq!(reader.offset(), 0);
    // Once the rest has arrived, the same read succeeds.
    let mut reader = reader.extend(&[4, 5, 6]);
    let mut frame = get_length_prefixed_reader(&mut reader).unwrap();
    assert_eq!(frame.remaining(), 5);
    assert_eq!(frame.read_exact(5), Ok(vec![1, 2, 3, 4, 5]));
    assert_eq!(reader.remaining(), 1);
}

#[test]
fn from_mc_protocol_holds_the_wire_form() {
    let prefixed = LengthPrefixed::from_mc_protocol(StatusPacket::PingRequest { payload: 42 }).unwrap();
    assert_eq!(written(&prefixed), vec![9, 1, 0, 0, 0, 0, 0, 0, 0, 42]);
    let unwritable = HandshakePacket { server_address: "x".repeat(256), ..example_handshake() };
    assert_eq!(
        LengthPrefixed::from_mc_protocol(unwritable).err(),
        Some(ProtocolError::AddressTooLong)
    );
}

#[test]
fn handshake_round_trip_holds() {
    let bytes = written(&example_handshake());
    assert_eq!(
        bytes,
        vec![0x00, 0xf8, 0x05, 7, b'e', b'x', b'a', b'm', b'p', b'l', b'e', 0x63, 0xdd, 0x01]
    );
    let mut reader = ByteReader::new(bytes);
    let read = HandshakePacket::deserialize_read(&mut reader).unwrap();
    assert_eq!(reader.remaining(), 0);
    assert_eq!(i32::from(read.protocol_version.clone()), 760);
    assert_eq!(read.protocol_version.as_bytes(), example_handshake().protocol_version.as_bytes());
    assert_eq!(read.server_address, "example");
    assert_eq!(read.server_port, 25565);
    assert_eq!(read.next_state, NextState::Status);
}

#[test]
fn handshake_for_login_round_trips() {
    let handshake = HandshakePacket {
        protocol_version: McVarint::from(761),
        server_address: String::from("mc.example.org"),
        server_port: 1,
        next_state: NextState::Login,
    };
    let bytes = written(&handshake);
    assert_eq!(*bytes.last().unwrap(), 2);
    let mut reader = ByteReader::new(bytes);
    let read = HandshakePacket::deserialize_read(&mut reader).unwrap();
    assert_eq!(read.protocol_version.value(), 761);
    assert_eq!(read.server_address, "mc.example.org");
    assert_eq!(read.server_port, 1);
    assert_eq!(read.next_state, NextState::Login);
    assert_eq!(NextState::Login.name(), "Login");
    assert_eq!(NextState::Status.name(), "Status");
    assert_eq!(NextState::Status.wire_byte(), 1);
}

#[test]
fn handshake_with_next_state_3_errors() {
    let mut bytes = written(&example_handshake());
    *bytes.last_mut().unwrap() = 3;
    let mut reader = ByteReader::new(bytes);
    let failure = HandshakePacket::deserialize_read(&mut reader).unwrap_err();
    assert_eq!(failure, ProtocolError::InvalidNextState(3));
    assert_eq!(failure.kind(), ErrorKind::InvalidData);
    assert_eq!(reader.offset(), 0);
}

#[test]
fn handshake_with_another_packet_id_errors() {
    let mut bytes = written(&example_handshake());
    bytes[0] = 5;
    let mut reader = ByteReader::new(bytes);
    let failure = HandshakePacket::deserialize_read(&mut reader).unwrap_err();
    assert_eq!(failure, ProtocolError::UnexpectedPacketId(5));
    assert_eq!(failure.kind(), ErrorKind::InvalidData);
}

#[test]
fn handshake_cut_short_errors() {
    let bytes = written(&example_handshake());
    for kept in 0..bytes.len() {
        let mut reader = ByteReader::new(bytes[..kept].to_vec());
        assert_eq!(
            HandshakePacket::deserialize_read(&mut reader).unwrap_err(),
            ProtocolError::UnexpectedEof
        );
        assert_eq!(reader.offset(), 0);
    }
}

#[test]
fn handshake_address_over_255_bytes_is_invalid_input() {
    let handshake = HandshakePacket { server_address: "x".repeat(256), ..example_handshake() };
    let mut bytes = vec![0xee];
    let failure = handshake.serialize_write(&mut bytes).unwrap_err();
    assert_eq!(failure, ProtocolError::AddressTooLong);
    assert_eq!(failure.kind(), ErrorKind::InvalidInput);
    // What comes before the address has been written.
    assert_eq!(bytes, vec![0xee, 0x00, 0xf8, 0x05]);
    let fits = HandshakePacket { server_address: "x".repeat(255), ..example_handshake() };
    assert_eq!(written(&fits).len(), 1 + 2 + 2 + 255 + 3);
}

#[test]
fn status_request_round_trips() {
    assert_eq!(written(&StatusPacket::StatusRequest {}), vec![0]);
    assert_eq!(
        written(&StatusPacket::PingRequest { payload: 42 }),
        vec![1, 0, 0, 0, 0, 0, 0, 0, 42]
    );
    for packet in [
        StatusPacket::StatusRequest {},
        StatusPacket::PingRequest { payload: 42 },
        StatusPacket::PingRequest { payload: -1 },
        StatusPacket::PingRequest { payload: i64::MIN },
    ] {
        let mut reader = ByteReader::new(written(&packet));
        assert_eq!(StatusPacket::deserialize_read(&mut reader), Ok(packet));
        assert_eq!(reader.remaining(), 0);
    }
    let mut reader = ByteReader::new(vec![2]);
    assert_eq!(
        StatusPacket::deserialize_read(&mut reader),
        Err(ProtocolError::UnexpectedPacketId(2))
    );
    let mut reader = ByteReader::new(vec![1, 0, 0]);
    assert_eq!(StatusPacket::deserialize_read(&mut reader), Err(ProtocolError::UnexpectedEof));
    assert_eq!(reader.offset(), 0);
}

#[test]
fn login_start_round_trips() {
    let packet = LoginPacket::LoginStart {
        name: String::from("Steve"),
        sig_data: None,
        player_uuid: None,
    };
    let bytes = written(&packet);
    assert_eq!(bytes, vec![0, 5, b'S', b't', b'e', b'v', b'e', 0, 0]);
    let mut reader = ByteReader::new(bytes);
    let LoginPacket::LoginStart { name, sig_data, player_uuid } =
        LoginPacket::deserialize_read(&mut reader).unwrap();
    assert_eq!(name, "Steve");
    assert!(sig_data.is_none());
    assert_eq!(player_uuid, None);
    assert_eq!(reader.remaining(), 0);
}

#[test]
fn login_start_with_signature_and_uuid_round_trips() {
    let uuid = 0x4566_e69f_c907_48ee_8d71_d7ba_5aa0_0d20_u128;
    let packet = LoginPacket::LoginStart {
        name: String::from("Alex"),
        sig_data: Some(SigData { timestamp: -7, public_key: vec![1, 2, 3], signature: vec![9; 200] }),
        player_uuid: Some(uuid),
    };
    let bytes = written(&packet);
    let mut expected = vec![0, 4, b'A', b'l', b'e', b'x', 1];
    expected.extend_from_slice(&(-7_i64).to_be_bytes());
    expected.extend_from_slice(&[3, 1, 2, 3, 0xc8, 0x01]);
    expected.extend_from_slice(&[9; 200]);
    expected.push(1);
    expected.extend_from_slice(&uuid.to_be_bytes());
    assert_eq!(bytes, expected);
    let mut reader = ByteReader::new(bytes);
    let LoginPacket::LoginStart { name, sig_data, player_uuid } =
        LoginPacket::deserialize_read(&mut reader).unwrap();
    let sig_data = sig_data.unwrap();
    assert_eq!(name, "Alex");
    assert_eq!(sig_data.timestamp, -7);
    assert_eq!(sig_data.public_key, vec![1, 2, 3]);
    assert_eq!(sig_data.signature, vec![9; 200]);
    assert_eq!(player_uuid, Some(uuid));
    assert_eq!(reader.remaining(), 0);
}

#[test]
fn login_name_over_16_bytes_is_invalid_data() {
    let too_long = LoginPacket::LoginStart {
        name: "n".repeat(17),
        sig_data: None,
        player_uuid: None,
    };
    let mut bytes = Vec::new();
    let failure = too_long.serialize_write(&mut bytes).unwrap_err();
    assert_eq!(failure, ProtocolError::NameTooLong);
    assert_eq!(failure.kind(), ErrorKind::InvalidData);
    assert!(bytes.is_empty());
    let mut wire = vec![0, 17];
    wire.extend_from_slice(&[b'n'; 17]);
    wire.extend_from_slice(&[0, 0]);
    let mut reader = ByteReader::new(wire);
    assert_eq!(LoginPacket::deserialize_read(&mut reader).err(), Some(ProtocolError::NameTooLong));
    let fits = LoginPacket::LoginStart { name: "n".repeat(16), sig_data: None, player_uuid: None };
    assert_eq!(written(&fits).len(), 1 + 17 + 2);
    let too_long = LoginPacket761::LoginStart { name: "n".repeat(17), player_uuid: None };
    assert_eq!(too_long.serialize_write(&mut bytes), Err(ProtocolError::NameTooLong));
}

#[test]
fn login_packets_that_are_not_read() {
    for id in [1_u8, 2] {
        let mut reader = ByteReader::new(vec![id, 0, 0]);
        let failure = LoginPacket::deserialize_read(&mut reader).err().unwrap();
        assert_eq!(failure, ProtocolError::UnsupportedPacket(id));
        assert_eq!(failure.kind(), ErrorKind::Other);
        let mut reader = ByteReader::new(vec![id, 0, 0]);
        assert_eq!(
            LoginPacket761::deserialize_read(&mut reader).err(),
            Some(ProtocolError::UnsupportedPacket(id))
        );
    }
    let mut reader = ByteReader::new(vec![3, 0, 0]);
    assert_eq!(
        LoginPacket::deserialize_read(&mut reader).err(),
        Some(ProtocolError::UnexpectedPacketId(3))
    );
}

#[test]
fn login_presence_bytes_must_be_0_or_1() {
    let mut reader = ByteReader::new(vec![0, 1, b'a', 2, 0]);
    let failure = LoginPacket::deserialize_read(&mut reader).err().unwrap();
    assert_eq!(failure, ProtocolError::InvalidBoolean(2));
    assert_eq!(failure.kind(), ErrorKind::InvalidData);
    let mut reader = ByteReader::new(vec![0, 1, b'a', 0, 7]);
    assert_eq!(
        LoginPacket::deserialize_read(&mut reader).err(),
        Some(ProtocolError::InvalidBoolean(7))
    );
    assert_eq!(reader.offset(), 0);
}

#[test]
fn login_start_of_version_761_has_no_signature() {
    let uuid = 7_u128;
    let packet = LoginPacket761::LoginStart { name: String::from("Steve"), player_uuid: Some(uuid) };
    let bytes = written(&packet);
    let mut expected = vec![0, 5, b'S', b't', b'e', b'v', b'e', 1];
    expected.extend_from_slice(&uuid.to_be_bytes());
    assert_eq!(bytes, expected);
    let mut reader = ByteReader::new(bytes);
    let LoginPacket761::LoginStart { name, player_uuid } =
        LoginPacket761::deserialize_read(&mut reader).unwrap();
    assert_eq!(name, "Steve");
    assert_eq!(player_uuid, Some(7));
}

#[test]
fn status_response_round_trips() {
    let packet = StatusReply::StatusResponse { json_response: String::from("{}") };
    let bytes = written(&packet);
    assert_eq!(bytes, vec![0, 2, b'{', b'}']);
    let mut reader = ByteReader::new(bytes);
    match StatusReply::deserialize_read(&mut reader).unwrap() {
        StatusReply::StatusResponse { json_response } => assert_eq!(json_response, "{}"),
        other => panic!("read {other:?}"),
    }
    let bytes = written(&StatusReply::PingResponse { payload: 42 });
    assert_eq!(bytes, vec![1, 0, 0, 0, 0, 0, 0, 0, 42]);
    let mut reader = ByteReader::new(bytes);
    match StatusReply::deserialize_read(&mut reader).unwrap() {
        StatusReply::PingResponse { payload } => assert_eq!(payload, 42),
        other => panic!("read {other:?}"),
    }
    let mut reader = ByteReader::new(vec![9]);
    assert_eq!(
        StatusReply::deserialize_read(&mut reader).err(),
        Some(ProtocolError::UnexpectedPacketId(9))
    );
}

#[test]
fn disconnect_round_trips() {
    let packet = Disconnect::Disconnect { reason: String::from("bye") };
    let bytes = written(&packet);
    assert_eq!(bytes, vec![0, 3, b'b', b'y', b'e']);
    let mut reader = ByteReader::new(bytes);
    let Disconnect::Disconnect { reason } = Disconnect::deserialize_read(&mut reader).unwrap();
    assert_eq!(reason, "bye");
    for id in 1_u8..=4 {
        let mut reader = ByteReader::new(vec![id]);
        assert_eq!(
            Disconnect::deserialize_read(&mut reader).err(),
            Some(ProtocolError::UnsupportedPacket(id))
        );
    }
    let mut reader = ByteReader::new(vec![5]);
    assert_eq!(
        Disconnect::deserialize_read(&mut reader).err(),
        Some(ProtocolError::UnexpectedPacketId(5))
    );
}

#[test]
fn packets_are_read_by_state_and_version() {
    let handshake = written(&example_handshake());
    let mut reader = ByteReader::new(handshake.clone());
    assert!(matches!(
        V760::deserialize_read(&mut reader, ConnectionState::Handshaking),
        Ok(V760::Handshake(_))
    ));
    let mut reader = ByteReader::new(vec![0]);
    assert!(matches!(
        V761::deserialize_read(&mut reader, ConnectionState::Status),
        Ok(V761::Status(StatusPacket::StatusRequest {}))
    ));
    let login = written(&LoginPacket761::LoginStart { name: String::from("a"), player_uuid: None });
    let mut reader = ByteReader::new(login.clone());
    assert!(matches!(
        Serverbound::deserialize_read(&mut reader, ConnectionState::Login, ProtocolVersion::V761),
        Ok(Serverbound::V761(V761::Login(_)))
    ));
    // The same bytes are cut short for version 760, which expects signature data and an id.
    let mut reader = ByteReader::new(login);
    assert_eq!(
        Serverbound::deserialize_read(&mut reader, ConnectionState::Login, ProtocolVersion::V760)
            .err(),
        Some(ProtocolError::UnexpectedEof)
    );
    let mut reader = ByteReader::new(vec![1, 0, 0, 0, 0, 0, 0, 0, 5]);
    let packet =
        Serverbound::deserialize_read(&mut reader, ConnectionState::Status, ProtocolVersion::V760)
            .unwrap();
    assert_eq!(Option::<ProtocolVersion>::from(packet), Some(ProtocolVersion::V760));
}

#[test]
fn clientbound_packets_are_read_by_state_and_version() {
    let mut reader = ByteReader::new(vec![0, 2, b'{', b'}']);
    assert!(matches!(
        Clientbound::deserialize_read(&mut reader, ConnectionState::Status, ProtocolVersion::V760),
        Ok(Clientbound::V760(ClientboundV760::Status(_)))
    ));
    let mut reader = ByteReader::new(vec![0, 2, b'{', b'}']);
    assert!(matches!(
        Clientbound::deserialize_read(&mut reader, ConnectionState::Login, ProtocolVersion::V761),
        Ok(Clientbound::V761(ClientboundV761::Login(_)))
    ));
    let mut reader = ByteReader::new(vec![0, 2, b'{', b'}']);
    let failure = ClientboundV761::deserialize_read(&mut reader, ConnectionState::Handshaking)
        .err()
        .unwrap();
    assert_eq!(failure, ProtocolError::NoSuchPacket);
    assert_eq!(failure.kind(), ErrorKind::InvalidInput);
    assert_eq!(reader.offset(), 0);
}

#[test]
fn supported_versions() {
    assert_eq!(ProtocolVersion::try_from(760), Ok(ProtocolVersion::V760));
    assert_eq!(ProtocolVersion::try_from(761), Ok(ProtocolVersion::V761));
    assert_eq!(ProtocolVersion::try_from(759), Err(ProtocolError::UnsupportedVersion(759)));
    assert_eq!(ProtocolError::UnsupportedVersion(759).kind(), ErrorKind::Other);
    assert_eq!(ProtocolVersion::V760.number(), 760);
    assert_eq!(ProtocolVersion::V761.number(), 761);
    assert_eq!(ProtocolVersion::V760.name(), "V760");
    assert_eq!(ProtocolVersion::V761.name(), "V761");
}

#[test]
fn legacy_ping_is_told_by_its_first_three_bytes() {
    let reader = ByteReader::new(vec![0xfe, 0x01, 0xfa, 0x00]);
    assert_eq!(is_packet_server_list_ping(&reader), Ok(true));
    assert_eq!(reader.offset(), 0);
    let reader = ByteReader::new(vec![0xfe, 0x01, 0xfb]);
    assert_eq!(is_packet_server_list_ping(&reader), Ok(false));
    let reader = ByteReader::new(vec![0x10, 0x00, 0xf8]);
    assert_eq!(is_packet_server_list_ping(&reader), Ok(false));
    let reader = ByteReader::new(vec![0xfe, 0x01]);
    assert_eq!(is_packet_server_list_ping(&reader), Err(ProtocolError::UnexpectedEof));
}

#[test]
fn legacy_ping_is_read_whole() {
    let mut bytes = legacy_ping("localhost", 74, 25565);
    assert_eq!(bytes.len(), 27 + 2 + 1 + 2 + 18 + 4);
    bytes.extend_from_slice(&[0xaa, 0xbb]);
    let mut reader = ByteReader::new(bytes);
    let ping = ServerListPingPacket::deserialize_read(&mut reader).unwrap();
    assert_eq!(ping.protocol_version, 74);
    assert_eq!(ping.server_address, "localhost");
    assert_eq!(ping.server_port, 25565);
    assert_eq!(reader.remaining(), 2);
}

#[test]
fn legacy_ping_head_holds_the_units_of_the_host_name() {
    let mut reader = ByteReader::new(legacy_ping("ab", 1, 2));
    let head = LegacyPingHead::read(&mut reader).unwrap();
    assert_eq!(head.protocol_version, 1);
    assert_eq!(head.declared_len, 2);
    assert_eq!(head.units, vec![0x61, 0x62]);
    assert_eq!(reader.remaining(), 4);
    let unpaired = LegacyPingHead { protocol_version: 1, declared_len: 2, units: vec![] };
    assert_eq!(
        ServerListPingPacket::with_address(unpaired, None, &mut reader).err(),
        Some(ProtocolError::InvalidLegacyPing)
    );
    assert_eq!(reader.remaining(), 4);
}

#[test]
fn legacy_ping_that_breaks_its_layout_is_refused() {
    let good = legacy_ping("host", 74, 1);
    let mut wrong_header = good.clone();
    wrong_header[5] = 0x01;
    let mut too_short_rest = good.clone();
    too_short_rest[27] = 0;
    too_short_rest[28] = 6;
    let mut negative_rest = good.clone();
    negative_rest[27] = 0xff;
    let mut negative_length = good.clone();
    negative_length[30] = 0x80;
    let mut wrong_length = good.clone();
    wrong_length[31] = 5;
    let mut unpaired_surrogate = good.clone();
    unpaired_surrogate[32] = 0xd8;
    for bytes in [
        wrong_header,
        too_short_rest,
        negative_rest,
        negative_length,
        wrong_length,
        unpaired_surrogate,
    ] {
        let mut reader = ByteReader::new(bytes);
        let failure = ServerListPingPacket::deserialize_read(&mut reader).err().unwrap();
        assert_eq!(failure, ProtocolError::InvalidLegacyPing);
        assert_eq!(failure.kind(), ErrorKind::InvalidData);
        assert_eq!(reader.offset(), 0);
    }
    for kept in 0..good.len() {
        let mut reader = ByteReader::new(good[..kept].to_vec());
        assert_eq!(
            ServerListPingPacket::deserialize_read(&mut reader).err(),
            Some(ProtocolError::UnexpectedEof)
        );
    }
}

#[test]
fn legacy_ping_host_name_is_counted_in_units() {
    // The host name U+00E9 is one unit, and two bytes as text.
    let mut bytes = legacy_ping("", 0, 0)[..27].to_vec();
    bytes.extend_from_slice(&[0x00, 0x09, 0x4a, 0x00, 0x01, 0x00, 0xe9, 0x00, 0x00, 0x63, 0xdd]);
    assert_eq!(bytes, legacy_ping("\u{e9}", 74, 25565));
    let mut reader = ByteReader::new(bytes);
    let ping = ServerListPingPacket::deserialize_read(&mut reader).unwrap();
    assert_eq!(ping.server_address, "\u{e9}");
    assert_eq!(ping.protocol_version, 74);
    assert_eq!(ping.server_port, 25565);
    assert_eq!(reader.remaining(), 0);
}

#[test]
fn legacy_ping_is_consumed_whole_whatever_its_host_name() {
    // A character beyond the first 65536 is two units, and one character.
    for hostname in ["", "localhost", "d\u{e9}marrer.example", "\u{1f600}", "a\u{1f600}\u{e9}"] {
        let units = hostname.encode_utf16().count();
        let mut bytes = legacy_ping(hostname, 74, -2);
        bytes.extend_from_slice(&[0xaa, 0xbb, 0xcc]);
        let mut reader = ByteReader::new(bytes);
        let ping = ServerListPingPacket::deserialize_read(&mut reader).unwrap();
        assert_eq!(ping.server_address, hostname);
        assert_eq!(ping.server_port, -2);
        assert_eq!(reader.offset(), 27 + 2 + 1 + 2 + 2 * units + 4);
        assert_eq!(reader.remaining(), 3);
    }
}

#[test]
fn legacy_ping_host_name_must_have_the_units_it_announces() {
    for announced in [0_u8, 1, 3, 4] {
        let mut bytes = legacy_ping("\u{e9}\u{e9}", 74, 1);
        bytes[31] = announced;
        let mut reader = ByteReader::new(bytes);
        assert_eq!(
            ServerListPingPacket::deserialize_read(&mut reader).err(),
            Some(ProtocolError::InvalidLegacyPing)
        );
        assert_eq!(reader.offset(), 0);
    }
    let mut reader = ByteReader::new(vec![0, 0, 0, 7]);
    let head = LegacyPingHead { protocol_version: 1, declared_len: 1, units: vec![0xe9] };
    let ping =
        ServerListPingPacket::with_address(head, Some(String::from("\u{e9}")), &mut reader).unwrap();
    assert_eq!(ping.server_address, "\u{e9}");
    assert_eq!(ping.server_port, 7);
    let head = LegacyPingHead { protocol_version: 1, declared_len: 2, units: vec![0xe9] };
    assert_eq!(
        ServerListPingPacket::with_address(head, Some(String::from("\u{e9}")), &mut reader).err(),
        Some(ProtocolError::InvalidLegacyPing)
    );
}

#[test]
fn legacy_ping_with_a_surrogate_that_stands_alone_is_refused() {
    // A low surrogate in front, a high one at the end, a high one before a unit that is none.
    for units in [vec![0xdc00_u16, 0x61], vec![0x61, 0xd800], vec![0xd800, 0x61], vec![0xd800, 0xd800]] {
        let mut bytes = legacy_ping("ab", 74, 1);
        for (i, unit) in units.iter().enumerate() {
            bytes[32 + 2 * i..34 + 2 * i].copy_from_slice(&unit.to_be_bytes());
        }
        let mut reader = ByteReader::new(bytes);
        assert_eq!(
            ServerListPingPacket::deserialize_read(&mut reader).err(),
            Some(ProtocolError::InvalidLegacyPing)
        );
    }
}

#[test]
fn length_over_the_signed_32_bit_range_is_invalid_input() {
    let too_long = LengthPrefixed::from(vec![0_u8; i32::MAX as usize + 1]);
    let mut bytes = vec![0xee];
    let failure = too_long.serialize_write(&mut bytes).unwrap_err();
    assert_eq!(failure, ProtocolError::LengthOutOfBounds);
    assert_eq!(failure.kind(), ErrorKind::InvalidInput);
    assert_eq!(bytes, vec![0xee]);
}
