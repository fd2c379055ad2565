use player_connect::config::Config;
use player_connect::constant::{ConnectionCloseReason, RoomCloseReason};
use player_connect::error::AppError;
use player_connect::models::{Player, RoomView, Stats};
use player_connect::packets::{AnyPacket, AppPacket};
use player_connect::state::{
    idle_result, AppState, ConnectionAction, Effect, RoomInit, RoomState, RoomUpdate,
    SendOutcome,
};

fn stats(name: &str, created_at: u128) -> Stats {
    Stats {
        players: vec![Player { name: "p1".to_string(), locale: "en".to_string() }],
        map_name: "Ground Zero".to_string(),
        name: name.to_string(),
        gamemode: "survival".to_string(),
        mods: vec!["m1".to_string()],
        locale: "en".to_string(),
        version: "146".to_string(),
        created_at,
    }
}

fn init(host: i32, password: &str) -> RoomInit {
    RoomInit {
        connection_id: host,
        password: password.to_string(),
        stats: stats("room", 1000),
        protocol_version: "1.0".to_string(),
    }
}

fn config() -> Config {
    Config { player_connect_port: 11010, player_connect_http_port: 11011 }
}

fn sent_to(e: &Effect) -> Option<i32> {
    match e {
        Effect::Send(id, _) => Some(*id),
        _ => None,
    }
}

#[test]
fn a_created_room_has_its_host_and_no_members() {
    let mut rooms = RoomState::new();
    let id = rooms.create_room(init(7, ""), "r1".to_string(), 5000);
    assert_eq!(id, "r1");
    let room = rooms.get_room(&id).unwrap();
    assert_eq!(room.host_connection_id, 7);
    assert!(room.is_host(7));
    assert!(!room.is_host(8));
    assert!(room.password.is_none());
    assert!(room.members.is_empty());
    assert_eq!(room.created_at, 5000);
    assert_eq!(room.updated_at, 5000);
    assert_eq!(room.ping, 0);
    assert_eq!(room.protocol_version, "1.0");
    let room = {
        rooms.create_room(init(9, "pw"), "r2".to_string(), 1);
        rooms.get_room(&"r2".to_string()).unwrap()
    };
    assert_eq!(room.password.as_deref(), Some("pw"));
}

#[test]
fn create_gives_a_uuid_for_the_room() {
    let mut rooms = RoomState::new();
    let id = rooms.create(init(1, ""));
    assert_eq!(id.len(), 36);
    for (i, c) in id.chars().enumerate() {
        if i == 8 || i == 13 || i == 18 || i == 23 {
            assert_eq!(c, '-');
        } else {
            assert!(c.is_ascii_hexdigit() && !c.is_ascii_uppercase());
        }
    }
    assert_eq!(id.chars().nth(14), Some('7'));
    assert!(rooms.get_room(&id).is_some());
    let other = rooms.create(init(2, ""));
    assert_ne!(id, other);
}

#[test]
fn joining_makes_a_member_and_tells_the_host() {
    let mut rooms = RoomState::new();
    rooms.create_room(init(1, ""), "r".to_string(), 0);
    let mut out = Vec::new();
    rooms.join(2, &"r".to_string(), &mut out).unwrap();
    assert!(rooms.is_in_room(&2, &"r".to_string()));
    assert_eq!(rooms.get_sender(&"r".to_string(), 2), Some(2));
    assert_eq!(rooms.get_sender(&"r".to_string(), 3), None);
    assert_eq!(out.len(), 1);
    match &out[0] {
        Effect::Send(1, ConnectionAction::SendTCP(AnyPacket::App(AppPacket::ConnectionJoin(p)))) => {
            assert_eq!(p.connection_id, 2);
            assert_eq!(p.room_id, "r");
        }
        other => panic!("unexpected {:?}", other),
    }
    // joining twice keeps one membership
    rooms.join(2, &"r".to_string(), &mut out).unwrap();
    assert_eq!(rooms.get_room_members(&"r".to_string()), vec![2]);
}

#[test]
fn joining_an_unknown_room_fails() {
    let mut rooms = RoomState::new();
    let mut out = Vec::new();
    match rooms.join(2, &"nowhere".to_string(), &mut out) {
        Err(AppError::RoomNotFound(id)) => assert_eq!(id, "nowhere"),
        other => panic!("unexpected {:?}", other),
    }
    assert!(out.is_empty());
}

#[test]
fn leaving_ends_membership_and_tells_the_host() {
    let mut rooms = RoomState::new();
    rooms.create_room(init(1, ""), "r".to_string(), 0);
    let mut out = Vec::new();
    rooms.join(2, &"r".to_string(), &mut out).unwrap();
    rooms.join(3, &"r".to_string(), &mut out).unwrap();
    out.clear();
    rooms.leave(2, &"r".to_string(), &mut out);
    assert!(!rooms.is_in_room(&2, &"r".to_string()));
    assert!(rooms.is_in_room(&3, &"r".to_string()));
    match &out[0] {
        Effect::Send(1, ConnectionAction::SendTCP(AnyPacket::App(AppPacket::ConnectionClosed(p)))) => {
            assert_eq!(p.connection_id, 2);
            assert_eq!(p.reason, ConnectionCloseReason::Closed);
        }
        other => panic!("unexpected {:?}", other),
    }
    out.clear();
    rooms.leave(2, &"gone".to_string(), &mut out);
    assert!(out.is_empty());
}

#[test]
fn closing_tells_every_member_then_the_room_list() {
    let mut rooms = RoomState::new();
    rooms.create_room(init(1, ""), "r".to_string(), 0);
    let mut out = Vec::new();
    rooms.join(2, &"r".to_string(), &mut out).unwrap();
    rooms.join(3, &"r".to_string(), &mut out).unwrap();
    out.clear();
    rooms.close(&"r".to_string(), &mut out);
    assert!(rooms.get_room(&"r".to_string()).is_none());
    assert_eq!(out.len(), 5);
    for (k, member) in [2, 3].iter().enumerate() {
        match &out[2 * k] {
            Effect::Send(id, ConnectionAction::SendTCP(AnyPacket::App(AppPacket::RoomClosed(p)))) => {
                assert_eq!(id, member);
                assert_eq!(p.reason, RoomCloseReason::Closed);
            }
            other => panic!("unexpected {:?}", other),
        }
        match &out[2 * k + 1] {
            Effect::Send(id, ConnectionAction::Close(ConnectionCloseReason::Closed)) => {
                assert_eq!(id, member)
            }
            other => panic!("unexpected {:?}", other),
        }
    }
    match &out[4] {
        Effect::Publish(RoomUpdate::Remove(id)) => assert_eq!(id, "r"),
        other => panic!("unexpected {:?}", other),
    }
    out.clear();
    rooms.close(&"r".to_string(), &mut out);
    assert!(out.is_empty());
}

#[test]
fn broadcast_skips_the_excluded_member() {
    let mut rooms = RoomState::new();
    rooms.create_room(init(1, ""), "r".to_string(), 0);
    let mut out = Vec::new();
    for m in [2, 3, 4] {
        rooms.join(m, &"r".to_string(), &mut out).unwrap();
    }
    out.clear();
    rooms.broadcast(&"r".to_string(), ConnectionAction::SendTCPRaw(vec![1]), Some(3), &mut out);
    let targets: Vec<i32> = out.iter().filter_map(sent_to).collect();
    assert_eq!(targets, vec![2, 4]);
    out.clear();
    rooms.broadcast(&"x".to_string(), ConnectionAction::SendTCPRaw(vec![1]), None, &mut out);
    assert!(out.is_empty());
}

#[test]
fn forwarding_reaches_the_host_only() {
    let mut rooms = RoomState::new();
    rooms.create_room(init(10, ""), "r".to_string(), 0);
    let mut out = Vec::new();
    rooms.forward_to_host(&"r".to_string(), ConnectionAction::SendTCPRaw(vec![5]), &mut out);
    assert_eq!(out.iter().filter_map(sent_to).collect::<Vec<i32>>(), vec![10]);
    out.clear();
    rooms.forward_to_host(&"none".to_string(), ConnectionAction::SendTCPRaw(vec![5]), &mut out);
    assert!(out.is_empty());
}

#[test]
fn idle_notices_go_to_the_host_of_a_member() {
    let mut rooms = RoomState::new();
    rooms.create_room(init(1, ""), "r".to_string(), 0);
    let mut out = Vec::new();
    assert!(rooms.idle(1, &"r".to_string(), &mut out));
    assert!(out.is_empty());
    assert!(rooms.idle(2, &"missing".to_string(), &mut out));
    assert!(out.is_empty());
    assert!(!rooms.idle(2, &"r".to_string(), &mut out));
    match &out[0] {
        Effect::Send(1, ConnectionAction::SendTCP(AnyPacket::App(AppPacket::ConnectionIdling(p)))) => {
            assert_eq!(p.connection_id, 2)
        }
        other => panic!("unexpected {:?}", other),
    }
    assert!(idle_result(SendOutcome::Sent));
    assert!(idle_result(SendOutcome::Closed));
    assert!(!idle_result(SendOutcome::Full));
}

#[test]
fn passwords_are_checked() {
    let mut rooms = RoomState::new();
    rooms.create_room(init(1, "pw"), "locked".to_string(), 0);
    rooms.create_room(init(2, ""), "open".to_string(), 0);
    assert_eq!(rooms.password_accepts(&"locked".to_string(), &"pw".to_string()), Some(true));
    assert_eq!(rooms.password_accepts(&"locked".to_string(), &"no".to_string()), Some(false));
    assert_eq!(rooms.password_accepts(&"open".to_string(), &"any".to_string()), Some(true));
    assert_eq!(rooms.password_accepts(&"none".to_string(), &"".to_string()), None);
}

#[test]
fn stats_updates_set_the_ping() {
    let mut rooms = RoomState::new();
    rooms.create_room(init(1, ""), "r".to_string(), 0);
    let room = rooms.update_stats(&"r".to_string(), stats("new", 900), 1000).unwrap();
    assert_eq!(room.stats.name, "new");
    assert_eq!(room.updated_at, 1000);
    assert_eq!(room.ping, 100);
    // a report from the future wraps around
    let room = rooms.update_stats(&"r".to_string(), stats("later", 1005), 1000).unwrap();
    assert_eq!(room.ping, u128::MAX - 4);
    assert!(rooms.update_stats(&"x".to_string(), stats("n", 0), 1).is_none());
}

#[test]
fn the_room_list_shows_each_room() {
    let mut rooms = RoomState::new();
    rooms.create_room(init(1, "pw"), "a".to_string(), 0);
    rooms.create_room(init(2, ""), "b".to_string(), 0);
    let mut views = rooms.into_views();
    views.sort_by(|x, y| x.room_id.cmp(&y.room_id));
    assert_eq!(views.len(), 2);
    assert_eq!(views[0].room_id, "a");
    assert!(views[0].data.is_secured);
    assert!(!views[1].data.is_secured);
    assert_eq!(views[1].data.status, "UP");
    assert!(!views[1].data.is_private);
    assert_eq!(views[1].data.name, "room");
}

#[test]
fn a_room_view_copies_the_stats() {
    let mut rooms = RoomState::new();
    rooms.create_room(init(1, "pw"), "a".to_string(), 0);
    let room = rooms.update_stats(&"a".to_string(), stats("shown", 10), 30).unwrap();
    let view = RoomView::from(&room);
    assert_eq!(view.name, "shown");
    assert_eq!(view.status, "UP");
    assert!(view.is_secured);
    assert_eq!(view.players.len(), 1);
    assert_eq!(view.players[0].name, "p1");
    assert_eq!(view.map_name, "Ground Zero");
    assert_eq!(view.gamemode, "survival");
    assert_eq!(view.mods, vec!["m1".to_string()]);
    assert_eq!(view.locale, "en");
    assert_eq!(view.version, "146");
    assert_eq!(view.created_at, 10);
    assert_eq!(view.ping, 20);
    assert_eq!(view.protocol_version, "1.0");
}

#[test]
fn connections_and_routes_are_recorded() {
    let mut state = AppState::new(config());
    assert!(!state.has_connection_id(4));
    state.register_connection(4);
    assert!(state.has_connection_id(4));
    assert_eq!(state.get_sender(4), Some(4));
    assert_eq!(state.get_sender(5), None);
    state.register_udp("1.2.3.4:5".to_string(), 4);
    assert_eq!(state.get_route(&"1.2.3.4:5".to_string()), Some(4));
    state.register_udp("1.2.3.4:5".to_string(), 6);
    assert_eq!(state.get_route(&"1.2.3.4:5".to_string()), Some(6));
    state.remove_udp(&"1.2.3.4:5".to_string());
    assert_eq!(state.get_route(&"1.2.3.4:5".to_string()), None);
}

#[test]
fn a_leaving_host_closes_its_room() {
    let mut state = AppState::new(config());
    for id in [1, 2, 3] {
        state.register_connection(id);
    }
    state.room_state.create_room(init(1, ""), "r".to_string(), 0);
    let mut out = Vec::new();
    state.room_state.join(2, &"r".to_string(), &mut out).unwrap();
    state.room_state.join(3, &"r".to_string(), &mut out).unwrap();
    out.clear();
    state.remove_connection(2, Some("r".to_string()), &mut out);
    assert!(!state.has_connection_id(2));
    assert!(state.room_state.get_room(&"r".to_string()).is_some());
    assert_eq!(out.len(), 1);
    out.clear();
    state.remove_connection(1, Some("r".to_string()), &mut out);
    assert!(state.room_state.get_room(&"r".to_string()).is_none());
    // the host hears of its own leaving, the member of the closing, then the list
    assert_eq!(out.len(), 4);
    assert!(matches!(out[3], Effect::Publish(RoomUpdate::Remove(_))));
    out.clear();
    state.remove_connection(3, None, &mut out);
    assert!(out.is_empty());
    assert!(!state.has_connection_id(3));
}

#[test]
fn closing_a_new_room_leaves_the_rooms_as_they_were() {
    let mut rooms = RoomState::new();
    rooms.create_room(init(1, ""), "keep".to_string(), 0);
    rooms.create_room(init(2, ""), "new".to_string(), 0);
    let mut out = Vec::new();
    rooms.close(&"new".to_string(), &mut out);
    let views = rooms.into_views();
    assert_eq!(views.len(), 1);
    assert_eq!(views[0].room_id, "keep");
    // no member: only the room list hears of it
    assert_eq!(out.len(), 1);
}

#[test]
fn leaving_undoes_joining() {
    let mut rooms = RoomState::new();
    rooms.create_room(init(1, ""), "r".to_string(), 0);
    let mut out = Vec::new();
    rooms.join(5, &"r".to_string(), &mut out).unwrap();
    rooms.join(6, &"r".to_string(), &mut out).unwrap();
    rooms.leave(6, &"r".to_string(), &mut out);
    assert_eq!(rooms.get_room_members(&"r".to_string()), vec![5]);
}

#[test]
fn a_new_room_gets_a_version_7_uuid() {
    let mut rooms = RoomState::new();
    let first = rooms.create(init(1, ""));
    let second = rooms.create(init(2, ""));
    for id in [&first, &second] {
        let chars: Vec<char> = id.chars().collect();
        assert_eq!(chars.len(), 36);
        for k in [8, 13, 18, 23] {
            assert_eq!(chars[k], '-');
        }
        assert_eq!(chars[14], '7');
        assert!(matches!(chars[19], '8' | '9' | 'a' | 'b'));
        assert!(chars.iter().all(|c| *c == '-' || c.is_ascii_digit() || ('a'..='f').contains(c)));
    }
    assert_ne!(first, second);
    assert_eq!(rooms.get_room(&first).unwrap().host_connection_id, 1);
    assert_eq!(rooms.into_views().len(), 2);
}

#[test]
fn the_room_list_names_each_room_once() {
    let mut rooms = RoomState::new();
    for (k, id) in ["a", "b", "c"].iter().enumerate() {
        rooms.create_room(init(k as i32, ""), id.to_string(), 0);
    }
    rooms.create_room(init(9, ""), "b".to_string(), 1);
    let mut ids: Vec<String> = rooms.into_views().into_iter().map(|e| e.room_id).collect();
    ids.sort();
    assert_eq!(ids, vec!["a".to_string(), "b".to_string(), "c".to_string()]);
}

#[test]
fn room_ids_are_the_keys_and_members_stay_distinct() {
    let mut rooms = RoomState::new();
    rooms.create_room(init(1, ""), "r".to_string(), 0);
    let mut out = Vec::new();
    rooms.join(2, &"r".to_string(), &mut out).unwrap();
    rooms.join(2, &"r".to_string(), &mut out).unwrap();
    rooms.join(3, &"r".to_string(), &mut out).unwrap();
    let room = rooms.get_room(&"r".to_string()).unwrap();
    assert_eq!(room.id, "r");
    assert_eq!(room.members, vec![2, 3]);
    assert!(!room.members.contains(&room.host_connection_id));
    // the host hears nothing when its room closes
    out.clear();
    rooms.close(&"r".to_string(), &mut out);
    assert!(out.iter().all(|e| sent_to(e) != Some(1)));
}
