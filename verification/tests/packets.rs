use player_connect::codec::{read_string, write_string, ByteCursor};
use player_connect::constant::{ConnectionCloseReason, MessageType, RoomCloseReason};
use player_connect::error::PacketError;
use player_connect::packets::{
    AnyPacket, AppPacket, ConnectionClosedPacket, ConnectionIdlingPacket, ConnectionJoinPacket,
    ConnectionPacketWrapPacket, FrameworkMessage, Message2Packet, MessagePacket, PopupPacket,
    RoomClosedPacket, RoomClosureRequestPacket, RoomJoinPacket, RoomLinkPacket, APP_PACKET_ID,
    FRAMEWORK_PACKET_ID,
};

fn read_any(bytes: Vec<u8>) -> Option<Result<AnyPacket, PacketError>> {
    let mut cursor = ByteCursor::new(bytes);
    AnyPacket::try_read(&mut cursor)
}

fn payload(p: &AnyPacket) -> Vec<u8> {
    let framed = p.to_bytes();
    framed[2..].to_vec()
}

#[test]
fn packet_ids_are_the_signed_bytes_minus_four_and_minus_two() {
    assert_eq!(APP_PACKET_ID, (-4i8) as u8);
    assert_eq!(FRAMEWORK_PACKET_ID, (-2i8) as u8);
}

#[test]
fn ping_is_written_big_endian() {
    let mut buf = Vec::new();
    FrameworkMessage::Ping { id: 258, is_reply: false }.write(&mut buf);
    assert_eq!(buf, vec![254, 0, 0, 0, 1, 2, 0]);
    let mut buf = Vec::new();
    FrameworkMessage::Ping { id: -1, is_reply: true }.write(&mut buf);
    assert_eq!(buf, vec![254, 0, 255, 255, 255, 255, 1]);
}

#[test]
fn framework_messages_read_back() {
    let messages = vec![
        FrameworkMessage::Ping { id: 77, is_reply: true },
        FrameworkMessage::DiscoverHost,
        FrameworkMessage::KeepAlive,
        FrameworkMessage::RegisterUDP { connection_id: -5 },
        FrameworkMessage::RegisterTCP { connection_id: 123456 },
    ];
    for m in messages {
        let bytes = payload(&AnyPacket::Framework(m));
        match read_any(bytes) {
            Some(Ok(AnyPacket::Framework(back))) => assert_eq!(back, m),
            other => panic!("unexpected {:?}", other),
        }
    }
}

#[test]
fn to_bytes_puts_the_length_first() {
    let p = AnyPacket::App(AppPacket::RoomLink(RoomLinkPacket { room_id: "abc".to_string() }));
    assert_eq!(p.to_bytes(), vec![0, 7, 252, 7, 0, 3, b'a', b'b', b'c']);
}

#[test]
fn prepend_len_cuts_the_length_to_sixteen_bits() {
    let out = AnyPacket::prepend_len(vec![7u8; 70000]);
    assert_eq!(out.len(), 70002);
    assert_eq!(&out[0..2], &[0x11, 0x70]);
    assert_eq!(AnyPacket::prepend_len(vec![]), vec![0, 0]);
}

#[test]
fn app_packets_are_written_as_the_protocol_says() {
    let cases: Vec<(AppPacket, Vec<u8>)> = vec![
        (
            AppPacket::ConnectionClosed(ConnectionClosedPacket {
                connection_id: 1,
                reason: ConnectionCloseReason::PacketSpam,
            }),
            vec![252, 1, 0, 0, 0, 1, 3],
        ),
        (
            AppPacket::ConnectionJoin(ConnectionJoinPacket {
                connection_id: 2,
                room_id: "r".to_string(),
            }),
            vec![252, 2, 0, 0, 0, 2, 0, 1, b'r'],
        ),
        (
            AppPacket::ConnectionIdling(ConnectionIdlingPacket { connection_id: 3 }),
            vec![252, 3, 0, 0, 0, 3],
        ),
        (AppPacket::RoomClosureRequest(RoomClosureRequestPacket), vec![252, 5]),
        (
            AppPacket::RoomClosed(RoomClosedPacket { reason: RoomCloseReason::ServerClosed }),
            vec![252, 6, 3],
        ),
        (
            AppPacket::RoomJoin(RoomJoinPacket {
                room_id: "a".to_string(),
                password: "pw".to_string(),
            }),
            vec![252, 8, 0, 1, b'a', 0, 2, b'p', b'w'],
        ),
        (
            AppPacket::Message(MessagePacket { message: "hi".to_string() }),
            vec![252, 9, 0, 2, b'h', b'i'],
        ),
        (
            AppPacket::Message2(Message2Packet { message: MessageType::ConClosureDenied }),
            vec![252, 10, 4],
        ),
        (
            AppPacket::Popup(PopupPacket { message: "x".to_string() }),
            vec![252, 11, 0, 1, b'x'],
        ),
    ];
    for (p, expected) in cases {
        let mut buf = Vec::new();
        p.write(&mut buf);
        assert_eq!(buf, expected, "{:?}", p);
    }
}

#[test]
fn app_packets_read_back() {
    let bytes = payload(&AnyPacket::App(AppPacket::RoomJoin(RoomJoinPacket {
        room_id: "room-1".to_string(),
        password: "sécret".to_string(),
    })));
    match read_any(bytes) {
        Some(Ok(AnyPacket::App(AppPacket::RoomJoin(p)))) => {
            assert_eq!(p.room_id, "room-1");
            assert_eq!(p.password, "sécret");
        }
        other => panic!("unexpected {:?}", other),
    }
    let bytes = payload(&AnyPacket::App(AppPacket::ConnectionClosed(ConnectionClosedPacket {
        connection_id: -9,
        reason: ConnectionCloseReason::Timeout,
    })));
    match read_any(bytes) {
        Some(Ok(AnyPacket::App(AppPacket::ConnectionClosed(p)))) => {
            assert_eq!(p.connection_id, -9);
            assert_eq!(p.reason, ConnectionCloseReason::Timeout);
        }
        other => panic!("unexpected {:?}", other),
    }
}

#[test]
fn a_read_wrap_keeps_its_header_in_its_buffer() {
    let wrap = AnyPacket::App(AppPacket::ConnectionPacketWrap(ConnectionPacketWrapPacket {
        connection_id: 5,
        is_tcp: true,
        buffer: vec![9, 9],
    }));
    let bytes = payload(&wrap);
    assert_eq!(bytes, vec![252, 0, 0, 0, 0, 5, 1, 9, 9]);
    match read_any(bytes) {
        Some(Ok(AnyPacket::App(AppPacket::ConnectionPacketWrap(p)))) => {
            assert_eq!(p.connection_id, 5);
            assert!(p.is_tcp);
            assert_eq!(p.buffer, vec![0, 0, 0, 5, 1, 9, 9]);
        }
        other => panic!("unexpected {:?}", other),
    }
}

#[test]
fn client_packets_carry_their_stats_as_text() {
    let mut bytes = vec![252, 12];
    write_string(&mut bytes, "room");
    write_string(&mut bytes, "{\"name\":\"n\"}");
    match read_any(bytes) {
        Some(Ok(AnyPacket::App(AppPacket::Stats(p)))) => {
            assert_eq!(p.room_id, "room");
            assert_eq!(p.data, "{\"name\":\"n\"}");
        }
        other => panic!("unexpected {:?}", other),
    }
    let mut bytes = vec![252, 4];
    write_string(&mut bytes, "v7");
    write_string(&mut bytes, "");
    write_string(&mut bytes, "{}");
    match read_any(bytes) {
        Some(Ok(AnyPacket::App(AppPacket::RoomCreationRequest(p)))) => {
            assert_eq!(p.version, "v7");
            assert_eq!(p.password, "");
            assert_eq!(p.data, "{}");
        }
        other => panic!("unexpected {:?}", other),
    }
}

#[test]
fn other_first_bytes_make_raw_packets() {
    match read_any(vec![1, 2, 3]) {
        Some(Ok(AnyPacket::Raw(b))) => assert_eq!(b, vec![1, 2, 3]),
        other => panic!("unexpected {:?}", other),
    }
    let raw = AnyPacket::Raw(vec![10, 20]);
    assert_eq!(raw.to_bytes(), vec![0, 2, 10, 20]);
}

#[test]
fn each_read_error_has_its_input() {
    let cases: Vec<(Vec<u8>, PacketError)> = vec![
        (vec![], PacketError::EmptyPacket),
        (vec![254, 9], PacketError::UnknownFrameworkId(9)),
        (vec![252, 13], PacketError::UnknownAppId(13)),
        (vec![252, 7, 0], PacketError::MissingStringLength(1)),
        (vec![252, 7, 0, 5, b'a'], PacketError::MissingStringContent(5, 1)),
        (vec![252, 7, 0, 1, 0xff], PacketError::InvalidUtf8),
        (vec![252, 6, 7], PacketError::InvalidRoomCloseReason(7)),
        (vec![252, 1, 0, 0, 0, 1, 9], PacketError::InvalidConnectionCloseReason(9)),
        (vec![252, 10, 5], PacketError::InvalidMessageType(5)),
    ];
    for (bytes, err) in cases {
        match read_any(bytes.clone()) {
            Some(Err(e)) => assert_eq!(e, err, "{:?}", bytes),
            other => panic!("unexpected {:?} for {:?}", other, bytes),
        }
    }
}

#[test]
fn a_payload_that_ends_inside_a_number_is_truncated() {
    assert!(read_any(vec![254, 0, 1]).is_none());
    assert!(read_any(vec![254]).is_none());
    assert!(read_any(vec![252]).is_none());
    assert!(read_any(vec![252, 0, 0, 0]).is_none());
    assert!(read_any(vec![252, 6]).is_none());
}

#[test]
fn read_reports_errors_of_readable_payloads() {
    let mut cursor = ByteCursor::new(vec![252, 13]);
    match AnyPacket::read(&mut cursor) {
        Err(e) => assert_eq!(e, PacketError::UnknownAppId(13)),
        Ok(p) => panic!("unexpected {:?}", p),
    }
    let mut cursor = ByteCursor::new(vec![254, 2]);
    match FrameworkMessage::read(&mut cursor) {
        Err(e) => assert_eq!(e, PacketError::UnknownFrameworkId(254)),
        Ok(m) => panic!("unexpected {:?}", m),
    }
}

#[test]
fn strings_are_length_prefixed_utf8() {
    let mut buf = Vec::new();
    write_string(&mut buf, "hé");
    assert_eq!(buf, vec![0, 3, b'h', 0xc3, 0xa9]);
    let mut cursor = ByteCursor::new(buf);
    assert_eq!(read_string(&mut cursor).unwrap(), "hé");
    assert_eq!(cursor.remaining(), 0);
}

#[test]
fn codes_convert_both_ways() {
    assert_eq!(RoomCloseReason::try_from(0u8).unwrap(), RoomCloseReason::Closed);
    assert_eq!(RoomCloseReason::try_from(1u8).unwrap(), RoomCloseReason::ObsoleteClient);
    assert_eq!(RoomCloseReason::try_from(2u8).unwrap(), RoomCloseReason::OutdatedVersion);
    assert_eq!(RoomCloseReason::try_from(3u8).unwrap(), RoomCloseReason::ServerClosed);
    assert_eq!(RoomCloseReason::try_from(4u8), Err(PacketError::InvalidRoomCloseReason(4)));
    assert_eq!(ConnectionCloseReason::try_from(3u8).unwrap(), ConnectionCloseReason::PacketSpam);
    assert_eq!(
        ConnectionCloseReason::try_from(4u8),
        Err(PacketError::InvalidConnectionCloseReason(4))
    );
    assert_eq!(MessageType::try_from(2u8).unwrap(), MessageType::AlreadyHosting);
    assert_eq!(MessageType::try_from(9u8), Err(PacketError::InvalidMessageType(9)));
    assert_eq!(MessageType::ConClosureDenied.code(), 4);
    assert_eq!(RoomCloseReason::ServerClosed.code(), 3);
    assert_eq!(RoomCloseReason::ObsoleteClient.code(), 1);
    assert_eq!(ConnectionCloseReason::Error.code(), 2);
}

#[test]
fn a_failed_string_read_leaves_the_cursor_where_the_error_is() {
    let mut cursor = ByteCursor::new(vec![0]);
    assert_eq!(read_string(&mut cursor), Err(PacketError::MissingStringLength(1)));
    assert_eq!(cursor.position(), 0);
    let mut cursor = ByteCursor::new(vec![0, 5, b'a']);
    assert_eq!(read_string(&mut cursor), Err(PacketError::MissingStringContent(5, 1)));
    assert_eq!(cursor.position(), 2);
    let mut cursor = ByteCursor::new(vec![0, 2, 0xff, 0xfe, 7]);
    assert_eq!(read_string(&mut cursor), Err(PacketError::InvalidUtf8));
    assert_eq!(cursor.position(), 4);
}
