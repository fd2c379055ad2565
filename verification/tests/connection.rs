use player_connect::config::Config;
use player_connect::connection::{
    ConnectionActor, ConnectionError, ConnectionRoom, FrameRead, FrameStep, OUTDATED_CLIENT_TEXT,
};
use player_connect::constant::{ConnectionCloseReason, MessageType};
use player_connect::models::{Player, Stats};
use player_connect::packets::{
    AnyPacket, AppPacket, ConnectionClosedPacket, ConnectionPacketWrapPacket, FrameworkMessage,
    MessagePacket, RoomCreationRequestPacket, RoomJoinPacket, RoomLinkPacket, StatsPacket,
};
use player_connect::rate::RateLimiter;
use player_connect::state::{AppState, ConnectionAction, Effect, RoomInit, RoomUpdate, SendOutcome};

const SECOND: u128 = 1_000_000_000;

/// The wall-clock reading, in milliseconds, that goes with a monotonic
/// reading in the tests: the two clocks read alike.
fn ms(nanos: u128) -> u128 {
    nanos / 1_000_000
}

fn stats(name: &str) -> Stats {
    Stats {
        players: vec![Player { name: "a".to_string(), locale: "en".to_string() }],
        map_name: "map".to_string(),
        name: name.to_string(),
        gamemode: "pvp".to_string(),
        mods: vec![],
        locale: "en".to_string(),
        version: "146".to_string(),
        created_at: 1_000,
    }
}

fn state_with(ids: &[i32]) -> AppState {
    let mut state =
        AppState::new(Config { player_connect_port: 11010, player_connect_http_port: 11011 });
    for id in ids {
        state.register_connection(*id);
    }
    state
}

fn limiter() -> RateLimiter {
    RateLimiter::new(1000, 3 * SECOND)
}

/// The bytes written to a client's TCP stream for a packet.
fn written(p: AnyPacket) -> Vec<u8> {
    AnyPacket::prepend_len(p.to_bytes())
}

fn create_room(actor: &mut ConnectionActor, state: &mut AppState, password: &str) -> String {
    let mut out = Vec::new();
    let packet = AnyPacket::App(AppPacket::RoomCreationRequest(RoomCreationRequestPacket {
        version: "v1".to_string(),
        password: password.to_string(),
        data: "{}".to_string(),
    }));
    actor
        .handle_packet(state, &mut limiter(), packet, Some(stats("room")), true, 5 * SECOND, ms(5 * SECOND), &mut out)
        .unwrap();
    actor.room.as_ref().unwrap().room_id().clone()
}

fn join(actor: &mut ConnectionActor, state: &mut AppState, room: &str, password: &str) -> Vec<Effect> {
    let mut out = Vec::new();
    let packet = AnyPacket::App(AppPacket::RoomJoin(RoomJoinPacket {
        room_id: room.to_string(),
        password: password.to_string(),
    }));
    actor.handle_packet(state, &mut limiter(), packet, None, true, SECOND, ms(SECOND), &mut out).unwrap();
    out
}

#[test]
fn a_room_link_knows_its_room() {
    let link = ConnectionRoom::new("r".to_string(), true);
    assert_eq!(link.room_id(), "r");
    assert!(link.is_host());
}

#[test]
fn frames_come_off_the_front_of_the_buffer() {
    let actor = ConnectionActor::new(1);
    let mut limiter = limiter();
    let mut buf = vec![0, 3, 1, 2, 3, 9];
    match actor.next_frame(&mut buf, &mut limiter, 0) {
        FrameStep::Frame(p) => assert_eq!(p, vec![1, 2, 3]),
        other => panic!("unexpected {:?}", other),
    }
    assert_eq!(buf, vec![9]);
    assert!(matches!(actor.next_frame(&mut buf, &mut limiter, 0), FrameStep::Incomplete));
    let mut buf = vec![0, 5, 1];
    assert!(matches!(actor.next_frame(&mut buf, &mut limiter, 0), FrameStep::Incomplete));
    assert_eq!(buf, vec![0, 5, 1]);
}

#[test]
fn a_refused_frame_stays_in_the_buffer() {
    let actor = ConnectionActor::new(1);
    let mut limiter = RateLimiter::new(1, SECOND);
    let mut buf = vec![0, 1, 7, 0, 1, 8];
    assert!(matches!(actor.next_frame(&mut buf, &mut limiter, 0), FrameStep::Frame(_)));
    assert!(matches!(actor.next_frame(&mut buf, &mut limiter, 1), FrameStep::RateLimited));
    assert_eq!(buf, vec![0, 1, 8]);
}

#[test]
fn pings_are_answered() {
    let mut actor = ConnectionActor::new(1);
    let mut state = state_with(&[1]);
    let mut out = Vec::new();
    let ping = AnyPacket::Framework(FrameworkMessage::Ping { id: 1, is_reply: false });
    actor.handle_packet(&mut state, &mut limiter(), ping, None, true, 0, ms(0), &mut out).unwrap();
    assert_eq!(out.len(), 1);
    match &out[0] {
        Effect::Write(b) => assert_eq!(b, &vec![0, 9, 0, 7, 254, 0, 0, 0, 0, 1, 1]),
        other => panic!("unexpected {:?}", other),
    }
    out.clear();
    let reply = AnyPacket::Framework(FrameworkMessage::Ping { id: 1, is_reply: true });
    actor.handle_packet(&mut state, &mut limiter(), reply, None, true, 0, ms(0), &mut out).unwrap();
    assert!(out.is_empty());
}

#[test]
fn raw_packets_wait_for_a_room_up_to_sixteen() {
    let mut actor = ConnectionActor::new(1);
    let mut state = state_with(&[1]);
    let mut out = Vec::new();
    for k in 0..20u8 {
        let r = actor.handle_packet(
            &mut state,
            &mut limiter(),
            AnyPacket::Raw(vec![k]),
            None,
            false,
            0,
            ms(0),
            &mut out,
        );
        assert!(r.is_ok());
    }
    assert!(out.is_empty());
    assert_eq!(actor.packet_queue.len(), 16);
    assert_eq!(actor.packet_queue[15], vec![15]);
}

#[test]
fn creating_a_room_makes_the_connection_its_host() {
    let mut actor = ConnectionActor::new(1);
    let mut state = state_with(&[1]);
    let mut out = Vec::new();
    let packet = AnyPacket::App(AppPacket::RoomCreationRequest(RoomCreationRequestPacket {
        version: "v1".to_string(),
        password: "pw".to_string(),
        data: "{}".to_string(),
    }));
    actor
        .handle_packet(&mut state, &mut limiter(), packet, Some(stats("mine")), true, 5 * SECOND, ms(5 * SECOND), &mut out)
        .unwrap();
    let link = actor.room.as_ref().unwrap();
    assert!(link.is_host());
    let room_id = link.room_id().clone();
    let room = state.room_state.get_room(&room_id).unwrap();
    assert_eq!(room.host_connection_id, 1);
    assert_eq!(room.password.as_deref(), Some("pw"));
    assert_eq!(room.stats.name, "mine");
    assert_eq!(room.protocol_version, "v1");
    assert_eq!(room.created_at, 5000);
    assert_eq!(out.len(), 2);
    match &out[0] {
        Effect::Write(b) => assert_eq!(
            b,
            &written(AnyPacket::App(AppPacket::RoomLink(RoomLinkPacket { room_id: room_id.clone() })))
        ),
        other => panic!("unexpected {:?}", other),
    }
    assert!(matches!(&out[1], Effect::Publish(RoomUpdate::Update { id, .. }) if *id == room_id));
    // a second request is refused: the connection already hosts
    out.clear();
    let again = AnyPacket::App(AppPacket::RoomCreationRequest(RoomCreationRequestPacket {
        version: "v1".to_string(),
        password: String::new(),
        data: "{}".to_string(),
    }));
    actor.handle_packet(&mut state, &mut limiter(), again, Some(stats("x")), true, 0, ms(0), &mut out).unwrap();
    assert_eq!(state.room_state.into_views().len(), 1);
    assert_eq!(out.len(), 1);
}

#[test]
fn an_unregistered_connection_opens_no_room() {
    let mut actor = ConnectionActor::new(1);
    let mut state = state_with(&[]);
    let mut out = Vec::new();
    let packet = AnyPacket::App(AppPacket::RoomCreationRequest(RoomCreationRequestPacket {
        version: "v1".to_string(),
        password: String::new(),
        data: "{}".to_string(),
    }));
    actor.handle_packet(&mut state, &mut limiter(), packet, Some(stats("x")), true, 0, ms(0), &mut out).unwrap();
    assert!(actor.room.is_none());
    assert!(out.is_empty());
}

#[test]
fn joining_checks_the_password_and_forwards_the_queue() {
    let mut host = ConnectionActor::new(1);
    let mut guest = ConnectionActor::new(2);
    let mut state = state_with(&[1, 2]);
    let room = create_room(&mut host, &mut state, "pw");
    // a raw packet waits while the guest is in no room
    let mut out = Vec::new();
    guest
        .handle_packet(&mut state, &mut limiter(), AnyPacket::Raw(vec![42]), None, false, 0, ms(0), &mut out)
        .unwrap();
    let wrong = join(&mut guest, &mut state, &room, "nope");
    assert_eq!(wrong.len(), 1);
    match &wrong[0] {
        Effect::Write(b) => assert_eq!(
            b,
            &written(AnyPacket::App(AppPacket::Message(MessagePacket {
                message: "Wrong password".to_string()
            })))
        ),
        other => panic!("unexpected {:?}", other),
    }
    assert!(guest.room.is_none());
    let ok = join(&mut guest, &mut state, &room, "pw");
    assert!(state.room_state.is_in_room(&2, &room));
    assert!(!guest.room.as_ref().unwrap().is_host());
    assert!(guest.packet_queue.is_empty());
    assert_eq!(ok.len(), 2);
    match &ok[1] {
        Effect::Send(1, ConnectionAction::SendTCP(AnyPacket::App(AppPacket::ConnectionPacketWrap(w)))) => {
            assert_eq!(w.connection_id, 2);
            assert!(!w.is_tcp);
            assert_eq!(w.buffer, vec![42]);
        }
        other => panic!("unexpected {:?}", other),
    }
}

#[test]
fn joining_an_unknown_room_is_refused_with_a_popup() {
    let mut guest = ConnectionActor::new(2);
    let mut state = state_with(&[2]);
    let out = join(&mut guest, &mut state, "nowhere", "");
    assert_eq!(out.len(), 2);
    match &out[1] {
        Effect::Write(b) => assert_eq!(
            b,
            &written(AnyPacket::App(AppPacket::ConnectionClosed(ConnectionClosedPacket {
                connection_id: 2,
                reason: ConnectionCloseReason::Error,
            })))
        ),
        other => panic!("unexpected {:?}", other),
    }
}

#[test]
fn a_host_may_not_join_another_room() {
    let mut host = ConnectionActor::new(1);
    let mut state = state_with(&[1]);
    let room = create_room(&mut host, &mut state, "");
    let other = create_room(&mut ConnectionActor::new(9), &mut state_with(&[9]), "");
    let out = join(&mut host, &mut state, &other, "");
    assert_eq!(out.len(), 1);
    assert_eq!(host.room.as_ref().unwrap().room_id(), &room);
}

#[test]
fn a_spamming_member_is_closed() {
    let mut host = ConnectionActor::new(1);
    let mut guest = ConnectionActor::new(2);
    let mut state = state_with(&[1, 2]);
    let room = create_room(&mut host, &mut state, "");
    join(&mut guest, &mut state, &room, "");
    let mut tight = RateLimiter::new(0, SECOND);
    let mut out = Vec::new();
    let r = guest.handle_packet(&mut state, &mut tight, AnyPacket::Raw(vec![1]), None, true, 0, ms(0), &mut out);
    assert_eq!(r, Err(ConnectionError::PacketSpamming));
    assert_eq!(out.len(), 2);
    match &out[0] {
        Effect::Send(2, ConnectionAction::SendTCP(AnyPacket::App(AppPacket::Message2(m)))) => {
            assert_eq!(m.message, MessageType::PacketSpamming)
        }
        other => panic!("unexpected {:?}", other),
    }
    // the host is never limited
    out.clear();
    let r = host.handle_packet(&mut state, &mut tight, AnyPacket::Raw(vec![1]), None, true, 0, ms(0), &mut out);
    assert!(r.is_ok());
    // framework messages are never limited
    let r = guest.handle_packet(
        &mut state,
        &mut tight,
        AnyPacket::Framework(FrameworkMessage::KeepAlive),
        None,
        true,
        0,
        ms(0),
        &mut out,
    );
    assert!(r.is_ok());
}

#[test]
fn the_host_reports_stats_and_members_may_not_wrap() {
    let mut host = ConnectionActor::new(1);
    let mut guest = ConnectionActor::new(2);
    let mut state = state_with(&[1, 2]);
    let room = create_room(&mut host, &mut state, "");
    join(&mut guest, &mut state, &room, "");
    let mut out = Vec::new();
    let report = AnyPacket::App(AppPacket::Stats(StatsPacket { room_id: room.clone(), data: "{}".to_string() }));
    host.handle_packet(&mut state, &mut limiter(), report, Some(stats("fresh")), true, 3 * SECOND, ms(3 * SECOND), &mut out)
        .unwrap();
    let r = state.room_state.get_room(&room).unwrap();
    assert_eq!(r.stats.name, "fresh");
    assert_eq!(r.updated_at, 3000);
    assert_eq!(r.ping, 2000);
    assert!(matches!(out[0], Effect::Publish(RoomUpdate::Update { .. })));
    let wrap = AnyPacket::App(AppPacket::ConnectionPacketWrap(ConnectionPacketWrapPacket {
        connection_id: 1,
        is_tcp: true,
        buffer: vec![],
    }));
    let r = guest.handle_packet(&mut state, &mut limiter(), wrap, None, true, 0, ms(0), &mut out);
    assert_eq!(r, Err(ConnectionError::NotRoomOwner));
}

#[test]
fn a_host_hands_bytes_to_its_members() {
    let mut host = ConnectionActor::new(1);
    let mut guest = ConnectionActor::new(2);
    let mut state = state_with(&[1, 2]);
    let room = create_room(&mut host, &mut state, "");
    join(&mut guest, &mut state, &room, "");
    let mut out = Vec::new();
    let wrap = AnyPacket::App(AppPacket::ConnectionPacketWrap(ConnectionPacketWrapPacket {
        connection_id: 2,
        is_tcp: false,
        buffer: vec![7, 7],
    }));
    host.handle_packet(&mut state, &mut limiter(), wrap, None, true, 0, ms(0), &mut out).unwrap();
    match &out[0] {
        Effect::Send(2, ConnectionAction::SendUDPRaw(b)) => assert_eq!(b, &vec![7, 7]),
        other => panic!("unexpected {:?}", other),
    }
    out.clear();
    let gone = AnyPacket::App(AppPacket::ConnectionPacketWrap(ConnectionPacketWrapPacket {
        connection_id: 99,
        is_tcp: true,
        buffer: vec![1],
    }));
    host.handle_packet(&mut state, &mut limiter(), gone, None, true, 0, ms(0), &mut out).unwrap();
    match &out[0] {
        Effect::Send(1, ConnectionAction::SendTCP(AnyPacket::App(AppPacket::ConnectionClosed(p)))) => {
            assert_eq!(p.connection_id, 99)
        }
        other => panic!("unexpected {:?}", other),
    }
}

#[test]
fn the_host_closes_its_room_and_members_may_not() {
    let mut host = ConnectionActor::new(1);
    let mut guest = ConnectionActor::new(2);
    let mut state = state_with(&[1, 2]);
    let room = create_room(&mut host, &mut state, "");
    join(&mut guest, &mut state, &room, "");
    let mut out = Vec::new();
    let closure = || AnyPacket::App(AppPacket::RoomClosureRequest(player_connect::packets::RoomClosureRequestPacket));
    guest.handle_packet(&mut state, &mut limiter(), closure(), None, true, 0, ms(0), &mut out).unwrap();
    assert!(state.room_state.get_room(&room).is_some());
    assert_eq!(out.len(), 1);
    out.clear();
    host.handle_packet(&mut state, &mut limiter(), closure(), None, true, 0, ms(0), &mut out).unwrap();
    assert!(state.room_state.get_room(&room).is_none());
    assert!(host.room.is_none());
    assert_eq!(out.len(), 3);
}

#[test]
fn the_host_closes_a_member() {
    let mut host = ConnectionActor::new(1);
    let mut guest = ConnectionActor::new(2);
    let mut state = state_with(&[1, 2]);
    let room = create_room(&mut host, &mut state, "");
    join(&mut guest, &mut state, &room, "");
    let mut out = Vec::new();
    let close = AnyPacket::App(AppPacket::ConnectionClosed(ConnectionClosedPacket {
        connection_id: 2,
        reason: ConnectionCloseReason::Timeout,
    }));
    host.handle_packet(&mut state, &mut limiter(), close, None, true, 0, ms(0), &mut out).unwrap();
    assert_eq!(out.len(), 2);
    assert!(matches!(out[1], Effect::Send(2, ConnectionAction::Close(ConnectionCloseReason::Timeout))));
}

#[test]
fn actions_fill_the_batch_and_the_udp_socket() {
    let mut actor = ConnectionActor::new(3);
    let mut state = state_with(&[3]);
    let mut out = Vec::new();
    let p = AnyPacket::Framework(FrameworkMessage::KeepAlive);
    actor
        .handle_action(&mut state, &mut limiter(), ConnectionAction::SendTCP(p.clone()), None, 0, ms(0), &mut out)
        .unwrap();
    match &out[0] {
        Effect::Queue(b) => assert_eq!(b, &written(p)),
        other => panic!("unexpected {:?}", other),
    }
    actor
        .handle_action(&mut state, &mut limiter(), ConnectionAction::SendTCPRaw(vec![1, 2]), None, 0, ms(0), &mut out)
        .unwrap();
    match &out[1] {
        Effect::Queue(b) => assert_eq!(b, &vec![0, 2, 1, 2]),
        other => panic!("unexpected {:?}", other),
    }
    let r = actor.handle_action(&mut state, &mut limiter(), ConnectionAction::SendUDPRaw(vec![5]), None, 0, ms(0), &mut out);
    assert_eq!(r, Err(ConnectionError::UdpNotRegistered));
    actor
        .handle_action(
            &mut state,
            &mut limiter(),
            ConnectionAction::RegisterUDP("9.9.9.9:1".to_string()),
            None,
            0,
            ms(0),
            &mut out,
        )
        .unwrap();
    assert_eq!(state.get_route(&"9.9.9.9:1".to_string()), Some(3));
    assert_eq!(actor.udp_addr.as_deref(), Some("9.9.9.9:1"));
    match out.last().unwrap() {
        Effect::Write(b) => assert_eq!(
            b,
            &written(AnyPacket::Framework(FrameworkMessage::RegisterUDP { connection_id: 3 }))
        ),
        other => panic!("unexpected {:?}", other),
    }
    out.clear();
    actor
        .handle_action(&mut state, &mut limiter(), ConnectionAction::SendUDPRaw(vec![5]), None, 0, ms(0), &mut out)
        .unwrap();
    match &out[0] {
        Effect::SendUdp(a, b) => {
            assert_eq!(a, "9.9.9.9:1");
            assert_eq!(b, &vec![5]);
        }
        other => panic!("unexpected {:?}", other),
    }
    // a new address replaces the old route
    actor
        .handle_action(
            &mut state,
            &mut limiter(),
            ConnectionAction::RegisterUDP("8.8.8.8:2".to_string()),
            None,
            0,
            ms(0),
            &mut out,
        )
        .unwrap();
    assert_eq!(state.get_route(&"9.9.9.9:1".to_string()), None);
    assert_eq!(state.get_route(&"8.8.8.8:2".to_string()), Some(3));
    let r = actor.handle_action(
        &mut state,
        &mut limiter(),
        ConnectionAction::Close(ConnectionCloseReason::Closed),
        None,
        0,
        ms(0),
        &mut out,
    );
    assert_eq!(r, Err(ConnectionError::Closed(ConnectionCloseReason::Closed)));
}

#[test]
fn an_unregistered_connection_takes_no_udp_address() {
    let mut actor = ConnectionActor::new(3);
    let mut state = state_with(&[]);
    let mut out = Vec::new();
    let r = actor.handle_action(
        &mut state,
        &mut limiter(),
        ConnectionAction::RegisterUDP("1.1.1.1:1".to_string()),
        None,
        0,
        ms(0),
        &mut out,
    );
    assert_eq!(r, Err(ConnectionError::NoSender));
    assert!(out.is_empty());
    assert_eq!(state.get_route(&"1.1.1.1:1".to_string()), None);
}

#[test]
fn packets_handed_over_udp_are_handled() {
    let mut actor = ConnectionActor::new(3);
    let mut state = state_with(&[3]);
    let mut out = Vec::new();
    let ping = AnyPacket::Framework(FrameworkMessage::Ping { id: 4, is_reply: false });
    actor
        .handle_action(&mut state, &mut limiter(), ConnectionAction::ProcessPacket(ping, false), None, 0, ms(0), &mut out)
        .unwrap();
    assert_eq!(out.len(), 1);
    assert!(matches!(out[0], Effect::Write(_)));
}

#[test]
fn ticks_keep_alive_and_time_out() {
    let actor = ConnectionActor::new(1);
    let mut out = Vec::new();
    assert!(actor.tick(3000, 30000, &mut out).is_ok());
    assert!(out.is_empty());
    assert!(actor.tick(3001, 0, &mut out).is_ok());
    match &out[0] {
        Effect::Write(b) => assert_eq!(b, &written(AnyPacket::Framework(FrameworkMessage::KeepAlive))),
        other => panic!("unexpected {:?}", other),
    }
    assert_eq!(actor.tick(0, 30001, &mut out), Err(ConnectionError::TimedOut));
}

#[test]
fn an_unreadable_packet_gets_the_outdated_client_popup() {
    let actor = ConnectionActor::new(1);
    let mut out = Vec::new();
    actor.handle_read_error(&mut out);
    match &out[0] {
        Effect::Write(b) => assert_eq!(
            b,
            &written(AnyPacket::App(AppPacket::Popup(player_connect::packets::PopupPacket {
                message: OUTDATED_CLIENT_TEXT.to_string()
            })))
        ),
        other => panic!("unexpected {:?}", other),
    }
    assert!(OUTDATED_CLIENT_TEXT.contains("no longer supported"));
}

#[test]
fn a_new_connection_says_its_id_then_settles_idle() {
    let mut host = ConnectionActor::new(1);
    let mut state = state_with(&[1, 2]);
    let room = create_room(&mut host, &mut state, "");
    let mut fresh = ConnectionActor::new(2);
    let mut out = Vec::new();
    assert!(!fresh.start(&state, &mut out));
    match &out[0] {
        Effect::Write(b) => assert_eq!(
            b,
            &written(AnyPacket::Framework(FrameworkMessage::RegisterTCP { connection_id: 2 }))
        ),
        other => panic!("unexpected {:?}", other),
    }
    // a member tells its host once, until the notice is delivered
    state.room_state.join(2, &room, &mut Vec::new()).unwrap();
    fresh.room = Some(ConnectionRoom::new(room.clone(), false));
    out.clear();
    assert!(fresh.settle_idle(&state, &mut out));
    assert!(matches!(out[0], Effect::Send(1, _)));
    fresh.idle_delivered(SendOutcome::Full);
    assert!(!fresh.notified_idle);
    fresh.idle_delivered(SendOutcome::Sent);
    assert!(fresh.notified_idle);
    out.clear();
    assert!(!fresh.settle_idle(&state, &mut out));
    assert!(out.is_empty());
    // the host itself counts as notified at once
    out.clear();
    assert!(!host.notify_idle(&state, &mut out));
    assert!(host.notified_idle);
    assert!(out.is_empty());
    assert!(host.is_idle());
}

#[test]
fn room_init_opens_rooms_directly_too() {
    let mut state = state_with(&[1]);
    let id = state.room_state.create_room(
        RoomInit {
            connection_id: 1,
            password: String::new(),
            stats: stats("direct"),
            protocol_version: "p".to_string(),
        },
        "fixed".to_string(),
        0,
    );
    assert_eq!(id, "fixed");
}

#[test]
fn packets_are_read_off_the_buffer_one_by_one() {
    let actor = ConnectionActor::new(1);
    let mut limiter = limiter();
    let mut out = Vec::new();
    // a keep-alive, then a raw packet
    let mut buf = vec![0, 2, 254, 2, 0, 2, 5, 6];
    match actor.take_packet(&mut buf, &mut limiter, 0, &mut out) {
        FrameRead::Packet(p) => assert!(matches!(p, AnyPacket::Framework(FrameworkMessage::KeepAlive))),
        other => panic!("unexpected {:?}", other),
    }
    assert_eq!(buf, vec![0, 2, 5, 6]);
    match actor.take_packet(&mut buf, &mut limiter, 0, &mut out) {
        FrameRead::Packet(AnyPacket::Raw(b)) => assert_eq!(b, vec![5, 6]),
        other => panic!("unexpected {:?}", other),
    }
    assert!(buf.is_empty());
    assert!(matches!(actor.take_packet(&mut buf, &mut limiter, 0, &mut out), FrameRead::Incomplete));
    assert!(out.is_empty());
}

#[test]
fn an_unreadable_frame_is_answered_and_the_next_one_read() {
    let actor = ConnectionActor::new(1);
    let mut limiter = limiter();
    let mut out = Vec::new();
    // a framework message of an unknown kind, then a raw packet
    let mut buf = vec![0, 2, 254, 9, 0, 1, 7];
    assert!(matches!(actor.take_packet(&mut buf, &mut limiter, 0, &mut out), FrameRead::Unreadable));
    assert_eq!(buf, vec![0, 1, 7]);
    assert_eq!(out.len(), 1);
    match &out[0] {
        Effect::Write(b) => assert_eq!(
            b,
            &written(AnyPacket::App(AppPacket::Popup(player_connect::packets::PopupPacket {
                message: OUTDATED_CLIENT_TEXT.to_string()
            })))
        ),
        other => panic!("unexpected {:?}", other),
    }
    assert!(matches!(actor.take_packet(&mut buf, &mut limiter, 0, &mut out), FrameRead::Packet(AnyPacket::Raw(_))));
}

#[test]
fn a_refused_packet_ends_the_reading_and_a_cut_one_is_truncated() {
    let actor = ConnectionActor::new(1);
    let mut tight = RateLimiter::new(0, SECOND);
    let mut out = Vec::new();
    let mut buf = vec![0, 1, 7];
    assert!(matches!(actor.take_packet(&mut buf, &mut tight, 0, &mut out), FrameRead::RateLimited));
    assert_eq!(buf, vec![0, 1, 7]);
    let mut limiter = limiter();
    // a ping cut short inside its id
    let mut buf = vec![0, 3, 254, 0, 1];
    assert!(matches!(actor.take_packet(&mut buf, &mut limiter, 0, &mut out), FrameRead::Truncated));
    assert!(buf.is_empty());
    assert!(out.is_empty());
}

#[test]
fn rooms_record_the_wall_clock_and_the_limiter_the_monotonic_one() {
    let mut actor = ConnectionActor::new(1);
    let mut state = state_with(&[1]);
    let mut out = Vec::new();
    let packet = AnyPacket::App(AppPacket::RoomCreationRequest(RoomCreationRequestPacket {
        version: "v1".to_string(),
        password: String::new(),
        data: "{}".to_string(),
    }));
    let mut limiter = RateLimiter::new(1, SECOND);
    actor
        .handle_packet(&mut state, &mut limiter, packet, Some(stats("r")), true, 7, 1_700_000_000_000, &mut out)
        .unwrap();
    let room_id = actor.room.as_ref().unwrap().room_id().clone();
    let room = state.room_state.get_room(&room_id).unwrap();
    assert_eq!(room.created_at, 1_700_000_000_000);
    assert_eq!(room.updated_at, 1_700_000_000_000);
    // the request was remembered at 7 ns: refused one window later, admitted
    // just after
    assert!(!limiter.allow_at(7 + SECOND));
    assert!(limiter.allow_at(8 + SECOND));
}
