use player_connect::config::Config;
use player_connect::connection::{ConnectionActor, FrameStep};
use player_connect::packets::{AnyPacket, AppPacket, FrameworkMessage, MessagePacket};
use player_connect::proxy::{new_connection_id, route_datagram, PACKET_RATE_LIMIT};
use player_connect::rate::RateLimiter;
use player_connect::state::{AppState, ConnectionAction, Effect, RoomInit};
use player_connect::models::Stats;

fn state_with(ids: &[i32]) -> AppState {
    let mut state =
        AppState::new(Config { player_connect_port: 11010, player_connect_http_port: 11011 });
    for id in ids {
        state.register_connection(*id);
    }
    state
}

fn payload(p: AnyPacket) -> Vec<u8> {
    p.to_bytes()[2..].to_vec()
}

#[test]
fn a_udp_registration_goes_to_its_connection() {
    let state = state_with(&[5]);
    let mut out = Vec::new();
    let datagram = payload(AnyPacket::Framework(FrameworkMessage::RegisterUDP { connection_id: 5 }));
    assert!(route_datagram(&state, &"1.2.3.4:9".to_string(), None, 0, datagram.clone(), &mut out));
    match &out[0] {
        Effect::Send(5, ConnectionAction::RegisterUDP(a)) => assert_eq!(a, "1.2.3.4:9"),
        other => panic!("unexpected {:?}", other),
    }
    out.clear();
    let unknown = payload(AnyPacket::Framework(FrameworkMessage::RegisterUDP { connection_id: 6 }));
    assert!(route_datagram(&state, &"1.2.3.4:9".to_string(), None, 0, unknown, &mut out));
    assert!(out.is_empty());
}

#[test]
fn other_datagrams_follow_the_route_of_their_address() {
    let mut state = state_with(&[5]);
    let mut out = Vec::new();
    let keep_alive = payload(AnyPacket::Framework(FrameworkMessage::KeepAlive));
    assert!(route_datagram(&state, &"a:1".to_string(), None, 0, keep_alive.clone(), &mut out));
    assert!(out.is_empty());
    state.register_udp("a:1".to_string(), 5);
    let mut limiter = RateLimiter::new(10, 1_000);
    assert!(route_datagram(&state, &"a:1".to_string(), Some(&mut limiter), 0, keep_alive, &mut out));
    match &out[0] {
        Effect::Send(5, ConnectionAction::ProcessPacket(AnyPacket::Framework(FrameworkMessage::KeepAlive), false)) => {}
        other => panic!("unexpected {:?}", other),
    }
    out.clear();
    assert!(route_datagram(&state, &"a:1".to_string(), Some(&mut limiter), 0, vec![1, 2], &mut out));
    assert!(matches!(&out[0], Effect::Send(5, ConnectionAction::ProcessPacket(AnyPacket::Raw(b), false)) if *b == vec![1, 2]));
    out.clear();
    let message = payload(AnyPacket::App(AppPacket::Message(MessagePacket { message: "m".to_string() })));
    assert!(route_datagram(&state, &"a:1".to_string(), Some(&mut limiter), 0, message, &mut out));
    assert_eq!(out.len(), 1);
}

#[test]
fn unreadable_datagrams_are_dropped_and_cut_ones_flagged() {
    let mut state = state_with(&[5]);
    state.register_udp("a:1".to_string(), 5);
    let mut out = Vec::new();
    let mut limiter = RateLimiter::new(10, 1_000);
    assert!(route_datagram(&state, &"a:1".to_string(), Some(&mut limiter), 0, vec![254, 9], &mut out));
    assert!(route_datagram(&state, &"a:1".to_string(), Some(&mut limiter), 0, vec![], &mut out));
    assert!(out.is_empty());
    assert!(!route_datagram(&state, &"a:1".to_string(), Some(&mut limiter), 0, vec![254, 3, 0], &mut out));
    assert!(out.is_empty());
}

#[test]
fn new_ids_are_free() {
    let mut state = state_with(&[]);
    for _ in 0..50 {
        let id = new_connection_id(&state);
        assert!(!state.has_connection_id(id));
        state.register_connection(id);
    }
}

#[test]
fn a_finished_connection_is_forgotten() {
    let mut state = state_with(&[1, 2]);
    state.room_state.create_room(
        RoomInit {
            connection_id: 1,
            password: String::new(),
            stats: Stats {
                players: vec![],
                map_name: String::new(),
                name: String::new(),
                gamemode: String::new(),
                mods: vec![],
                locale: String::new(),
                version: String::new(),
                created_at: 0,
            },
            protocol_version: String::new(),
        },
        "r".to_string(),
        0,
    );
    let mut out = Vec::new();
    state.room_state.join(2, &"r".to_string(), &mut out).unwrap();
    let mut actor = ConnectionActor::new(2);
    actor.room = Some(player_connect::connection::ConnectionRoom::new("r".to_string(), false));
    actor.udp_addr = Some("x:1".to_string());
    state.register_udp("x:1".to_string(), 2);
    out.clear();
    actor.finish(&mut state, &mut out);
    assert!(!state.has_connection_id(2));
    assert_eq!(state.get_route(&"x:1".to_string()), None);
    assert!(!state.room_state.is_in_room(&2, &"r".to_string()));
    assert_eq!(out.len(), 1);
}

#[test]
fn a_framed_packet_is_cut_back_out() {
    let actor = ConnectionActor::new(1);
    let mut limiter = RateLimiter::new(PACKET_RATE_LIMIT, 3_000_000_000);
    let packet = AnyPacket::App(AppPacket::Message(MessagePacket { message: "hello".to_string() }));
    let mut buf = packet.to_bytes();
    buf.extend_from_slice(&[0, 1]);
    match actor.next_frame(&mut buf, &mut limiter, 0) {
        FrameStep::Frame(p) => assert_eq!(p, payload(packet)),
        other => panic!("unexpected {:?}", other),
    }
    assert_eq!(buf, vec![0, 1]);
}

#[test]
fn a_datagram_the_route_limiter_refuses_is_dropped_unread() {
    let mut state = state_with(&[5]);
    state.register_udp("a:1".to_string(), 5);
    let mut limiter = RateLimiter::new(1, 1_000);
    let mut out = Vec::new();
    let keep_alive = payload(AnyPacket::Framework(FrameworkMessage::KeepAlive));
    assert!(route_datagram(&state, &"a:1".to_string(), Some(&mut limiter), 0, keep_alive.clone(), &mut out));
    assert_eq!(out.len(), 1);
    out.clear();
    assert!(route_datagram(&state, &"a:1".to_string(), Some(&mut limiter), 10, keep_alive, &mut out));
    assert!(out.is_empty());
    // a refused datagram is not even read, so a cut one does not count
    assert!(route_datagram(&state, &"a:1".to_string(), Some(&mut limiter), 20, vec![254, 3, 0], &mut out));
    assert!(out.is_empty());
}
