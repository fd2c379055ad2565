use player_connect::config::Config;
use player_connect::http::{
    push_decimal, room_page, room_port, stats_page, RoomListEvent, ROOM_NOT_FOUND_PAGE,
};
use player_connect::models::{Player, Stats};
use player_connect::state::{Room, RoomInit, RoomState, RoomUpdate};

fn stats() -> Stats {
    Stats {
        players: vec![
            Player { name: "a".to_string(), locale: "en".to_string() },
            Player { name: "b".to_string(), locale: "vi".to_string() },
        ],
        map_name: "Frozen Forest".to_string(),
        name: "Fun".to_string(),
        gamemode: "attack".to_string(),
        mods: vec![],
        locale: "en".to_string(),
        version: "146".to_string(),
        created_at: 1700000000000,
    }
}

#[test]
fn decimals_are_written_like_to_string() {
    for n in [0u128, 7, 10, 99, 100, 65535, 1700000000000, u128::MAX] {
        let mut s = String::from("x");
        push_decimal(&mut s, n);
        assert_eq!(s, format!("x{}", n));
    }
}

#[test]
fn the_port_is_told_in_decimal() {
    let config = Config { player_connect_port: 11010, player_connect_http_port: 11011 };
    assert_eq!(room_port(&config), "11010");
}

#[test]
fn an_unknown_room_has_the_not_found_page() {
    let rooms = RoomState::new();
    assert_eq!(room_page(&rooms, &"x".to_string()), "<h1>Room not found</h1>");
    assert_eq!(ROOM_NOT_FOUND_PAGE, "<h1>Room not found</h1>");
}

#[test]
fn a_room_page_shows_the_stats() {
    let page = stats_page(&stats());
    assert!(page.starts_with("<!DOCTYPE html>\n<html lang=\"en\">"));
    assert!(page.contains("<title>Room: Fun</title>"));
    assert!(page.contains(
        "<meta property=\"og:description\" content=\"Map: Frozen Forest, Gamemode: attack, Players: 2, Version: 146\" />"
    ));
    assert!(page.contains("<meta property=\"og:player_count\" content=\"2\" />"));
    assert!(page.contains("<meta property=\"og:created_at\" content=\"1700000000000\" />"));
    assert!(page.contains("<li><strong>Locale:</strong> en</li>"));
    assert!(page.ends_with("</ul>\n</body>\n</html>"));
    let mut rooms = RoomState::new();
    rooms.create_room(
        RoomInit {
            connection_id: 1,
            password: String::new(),
            stats: stats(),
            protocol_version: "1".to_string(),
        },
        "r".to_string(),
        0,
    );
    assert_eq!(room_page(&rooms, &"r".to_string()), page);
}

#[test]
fn room_list_events_carry_views_or_ids() {
    let mut rooms = RoomState::new();
    rooms.create_room(
        RoomInit {
            connection_id: 1,
            password: "p".to_string(),
            stats: stats(),
            protocol_version: "1".to_string(),
        },
        "r".to_string(),
        0,
    );
    let initial = RoomListEvent::initial(&rooms);
    assert_eq!(initial.name(), "update");
    match &initial {
        RoomListEvent::Update(events) => {
            assert_eq!(events.len(), 1);
            assert_eq!(events[0].room_id, "r");
            assert!(events[0].data.is_secured);
        }
        other => panic!("unexpected {:?}", other),
    }
    let room: Room = rooms.get_room(&"r".to_string()).unwrap();
    let update = RoomListEvent::from_update(&RoomUpdate::Update { id: "r".to_string(), data: room });
    match &update {
        RoomListEvent::Update(events) => {
            assert_eq!(events.len(), 1);
            assert_eq!(events[0].data.name, "Fun");
        }
        other => panic!("unexpected {:?}", other),
    }
    let removal = RoomListEvent::from_update(&RoomUpdate::Remove("r".to_string()));
    assert_eq!(removal.name(), "remove");
    match &removal {
        RoomListEvent::Remove(e) => assert_eq!(e.room_id, "r"),
        other => panic!("unexpected {:?}", other),
    }
}
