//! What the HTTP side computes: the page of a room, the port a client is
//! told, and the events of the room list.
use crate::config::Config;
use crate::models::{RemoveRemoveEvent, RoomUpdateEvent, RoomView, SpecStats, Stats};
use crate::state::{lists_rooms, spec_room_view, RoomState, RoomUpdate, SpecRoomUpdate};
use vstd::prelude::*;

verus! {

/// The character of a decimal digit.
pub open spec fn digit_char(d: nat) -> char {
    (d + 48) as char
}

/// The decimal text of a number, as `to_string` writes it: no leading
/// zero, and "0" for zero.
pub open spec fn decimal_text(n: nat) -> Seq<char>
    decreases n,
{
    if n < 10 {
        seq![digit_char(n)]
    } else {
        decimal_text(n / 10) + seq![digit_char(n % 10)]
    }
}

/// The text of one decimal digit.
fn digit_str(d: u128) -> (s: &'static str)
    requires
        d < 10,
    ensures
        s@ == seq![digit_char(d as nat)],
{
    proof {
        reveal_strlit("0");
        reveal_strlit("1");
        reveal_strlit("2");
        reveal_strlit("3");
        reveal_strlit("4");
        reveal_strlit("5");
        reveal_strlit("6");
        reveal_strlit("7");
        reveal_strlit("8");
        reveal_strlit("9");
    }
    if d == 0 {
        "0"
    } else if d == 1 {
        "1"
    } else if d == 2 {
        "2"
    } else if d == 3 {
        "3"
    } else if d == 4 {
        "4"
    } else if d == 5 {
        "5"
    } else if d == 6 {
        "6"
    } else if d == 7 {
        "7"
    } else if d == 8 {
        "8"
    } else {
        "9"
    }
}

/// Appends the decimal text of `n`.
pub fn push_decimal(out: &mut String, n: u128)
    ensures
        final(out)@ == old(out)@ + decimal_text(n as nat),
    decreases n,
{
    if n >= 10 {
        push_decimal(out, n / 10);
    }
    out.append(digit_str(n % 10));
    assert(final(out)@ =~= old(out)@ + decimal_text(n as nat)) by {
        if n >= 10 {
            assert(decimal_text(n as nat) == decimal_text((n / 10) as nat) + seq![digit_char((n % 10) as nat)]);
        }
    }
}

/// The page up to the room's name in its title.
pub const PAGE_HEAD: &'static str = "<!DOCTYPE html>\n<html lang=\"en\">\n<head>\n    <meta charset=\"UTF-8\">\n    <meta name=\"viewport\" content=\"width=device-width, initial-scale=1.0\">\n    <title>Room: ";

/// From the title to the room's name in the OpenGraph title.
pub const PAGE_OG_TITLE: &'static str = "</title>\n    <meta property=\"og:title\" content=\"Room: ";

/// From the OpenGraph title to the map in the description.
pub const PAGE_OG_DESCRIPTION: &'static str = "\" />\n    <meta property=\"og:description\" content=\"Map: ";

/// Before the game mode in the description.
pub const PAGE_DESCRIPTION_GAMEMODE: &'static str = ", Gamemode: ";

/// Before the player count in the description.
pub const PAGE_DESCRIPTION_PLAYERS: &'static str = ", Players: ";

/// Before the version in the description.
pub const PAGE_DESCRIPTION_VERSION: &'static str = ", Version: ";

/// From the description to the OpenGraph map name.
pub const PAGE_OG_MAP_NAME: &'static str = "\" />\n    <meta property=\"og:type\" content=\"website\" />\n    <meta property=\"og:site_name\" content=\"Mindustry PlayerConnect\" />\n    \n    <!-- Additional OpenGraph Tags for Stats -->\n    <meta property=\"og:map_name\" content=\"";

/// Before the OpenGraph game mode.
pub const PAGE_OG_GAMEMODE: &'static str = "\" />\n    <meta property=\"og:gamemode\" content=\"";

/// Before the OpenGraph player count.
pub const PAGE_OG_PLAYER_COUNT: &'static str = "\" />\n    <meta property=\"og:player_count\" content=\"";

/// Before the OpenGraph locale.
pub const PAGE_OG_LOCALE: &'static str = "\" />\n    <meta property=\"og:locale\" content=\"";

/// Before the OpenGraph version.
pub const PAGE_OG_VERSION: &'static str = "\" />\n    <meta property=\"og:version\" content=\"";

/// Before the OpenGraph creation time.
pub const PAGE_OG_CREATED_AT: &'static str = "\" />\n    <meta property=\"og:created_at\" content=\"";

/// From the head to the room's name in the heading.
pub const PAGE_BODY: &'static str = "\" />\n    \n</head>\n<body>\n    <h1>Room: ";

/// Before the map in the list.
pub const PAGE_MAP: &'static str = "</h1>\n    <ul>\n        <li><strong>Map:</strong> ";

/// Before the game mode in the list.
pub const PAGE_GAMEMODE: &'static str = "</li>\n        <li><strong>Gamemode:</strong> ";

/// Before the player count in the list.
pub const PAGE_PLAYERS: &'static str = "</li>\n        <li><strong>Players:</strong> ";

/// Before the locale in the list.
pub const PAGE_LOCALE: &'static str = "</li>\n        <li><strong>Locale:</strong> ";

/// Before the version in the list.
pub const PAGE_VERSION: &'static str = "</li>\n        <li><strong>Version:</strong> ";

/// Before the creation time in the list.
pub const PAGE_CREATED_AT: &'static str = "</li>\n        <li><strong>Created At:</strong> ";

/// The end of the page.
pub const PAGE_END: &'static str = "</li>\n    </ul>\n</body>\n</html>";

/// The page shown for an unknown room.
pub const ROOM_NOT_FOUND_PAGE: &'static str = "<h1>Room not found</h1>";

/// The page of a room with these stats: its name, map, game mode, number of
/// players, locale, version and creation time, in the head as OpenGraph
/// properties and in the body as a list.
pub open spec fn spec_stats_page(s: SpecStats) -> Seq<char> {
    PAGE_HEAD@
        + s.name
        + PAGE_OG_TITLE@
        + s.name
        + PAGE_OG_DESCRIPTION@
        + s.map_name
        + PAGE_DESCRIPTION_GAMEMODE@
        + s.gamemode
        + PAGE_DESCRIPTION_PLAYERS@
        + decimal_text(s.players.len())
        + PAGE_DESCRIPTION_VERSION@
        + s.version
        + PAGE_OG_MAP_NAME@
        + s.map_name
        + PAGE_OG_GAMEMODE@
        + s.gamemode
        + PAGE_OG_PLAYER_COUNT@
        + decimal_text(s.players.len())
        + PAGE_OG_LOCALE@
        + s.locale
        + PAGE_OG_VERSION@
        + s.version
        + PAGE_OG_CREATED_AT@
        + decimal_text(s.created_at as nat)
        + PAGE_BODY@
        + s.name
        + PAGE_MAP@
        + s.map_name
        + PAGE_GAMEMODE@
        + s.gamemode
        + PAGE_PLAYERS@
        + decimal_text(s.players.len())
        + PAGE_LOCALE@
        + s.locale
        + PAGE_VERSION@
        + s.version
        + PAGE_CREATED_AT@
        + decimal_text(s.created_at as nat)
        + PAGE_END@
}

/// The page of the room with the id, or the page for an unknown room.
pub open spec fn spec_room_page(rooms: Map<Seq<char>, crate::state::SpecRoom>, room_id: Seq<char>) -> Seq<char> {
    if rooms.contains_key(room_id) {
        spec_stats_page(rooms[room_id].stats)
    } else {
        ROOM_NOT_FOUND_PAGE@
    }
}

/// The page of a room with these stats (see `spec_stats_page`).
pub fn stats_page(stats: &Stats) -> (page: String)
    ensures
        page@ == spec_stats_page(stats@),
{
    let mut page = String::from_str(PAGE_HEAD);
    page.append(stats.name.as_str());
    page.append(PAGE_OG_TITLE);
    page.append(stats.name.as_str());
    page.append(PAGE_OG_DESCRIPTION);
    page.append(stats.map_name.as_str());
    page.append(PAGE_DESCRIPTION_GAMEMODE);
    page.append(stats.gamemode.as_str());
    page.append(PAGE_DESCRIPTION_PLAYERS);
    push_decimal(&mut page, stats.players.len() as u128);
    page.append(PAGE_DESCRIPTION_VERSION);
    page.append(stats.version.as_str());
    page.append(PAGE_OG_MAP_NAME);
    page.append(stats.map_name.as_str());
    page.append(PAGE_OG_GAMEMODE);
    page.append(stats.gamemode.as_str());
    page.append(PAGE_OG_PLAYER_COUNT);
    push_decimal(&mut page, stats.players.len() as u128);
    page.append(PAGE_OG_LOCALE);
    page.append(stats.locale.as_str());
    page.append(PAGE_OG_VERSION);
    page.append(stats.version.as_str());
    page.append(PAGE_OG_CREATED_AT);
    push_decimal(&mut page, stats.created_at);
    page.append(PAGE_BODY);
    page.append(stats.name.as_str());
    page.append(PAGE_MAP);
    page.append(stats.map_name.as_str());
    page.append(PAGE_GAMEMODE);
    page.append(stats.gamemode.as_str());
    page.append(PAGE_PLAYERS);
    push_decimal(&mut page, stats.players.len() as u128);
    page.append(PAGE_LOCALE);
    page.append(stats.locale.as_str());
    page.append(PAGE_VERSION);
    page.append(stats.version.as_str());
    page.append(PAGE_CREATED_AT);
    push_decimal(&mut page, stats.created_at);
    page.append(PAGE_END);
    page
}

/// The page of the room with the id (see `spec_room_page`).
pub fn room_page(rooms: &RoomState, room_id: &String) -> (page: String)
    ensures
        page@ == spec_room_page(rooms.rooms(), room_id@),
{
    match rooms.get_room(room_id) {
        Some(room) => stats_page(&room.stats),
        None => String::from_str(ROOM_NOT_FOUND_PAGE),
    }
}

/// The game port a client is told, in decimal.
pub fn room_port(config: &Config) -> (port: String)
    ensures
        port@ == decimal_text(config.player_connect_port as nat),
{
    let mut port = String::new();
    push_decimal(&mut port, config.player_connect_port as u128);
    assert(port@ =~= Seq::<char>::empty() + decimal_text(config.player_connect_port as nat));
    port
}

/// A room-list event as the room stream sends it.
#[derive(Debug)]
pub enum RoomListEvent {
    /// Rooms that are new or changed, sent as "update".
    Update(Vec<RoomUpdateEvent>),
    /// A room that is gone, sent as "remove".
    Remove(RemoveRemoveEvent),
}

/// The value of a room-list event: the id and view of each room updated,
/// or the id of the room removed.
pub enum SpecRoomListEvent {
    Update(Seq<(Seq<char>, crate::models::SpecRoomView)>),
    Remove(Seq<char>),
}

/// The values of a list of room updates.
pub open spec fn updates_view(events: Seq<RoomUpdateEvent>) -> Seq<(Seq<char>, crate::models::SpecRoomView)> {
    events.map_values(|e: RoomUpdateEvent| (e.room_id@, e.data@))
}

impl View for RoomListEvent {
    type V = SpecRoomListEvent;

    open spec fn view(&self) -> SpecRoomListEvent {
        match self {
            RoomListEvent::Update(events) => SpecRoomListEvent::Update(updates_view(events@)),
            RoomListEvent::Remove(e) => SpecRoomListEvent::Remove(e.room_id@),
        }
    }
}

/// The event that the stream sends for a change of the room list: a
/// changed room as a one-room update with its view, a removed room by id.
pub open spec fn spec_update_event(u: SpecRoomUpdate) -> SpecRoomListEvent {
    match u {
        SpecRoomUpdate::Update { id, data } => SpecRoomListEvent::Update(
            seq![(id, spec_room_view(data))],
        ),
        SpecRoomUpdate::Remove(id) => SpecRoomListEvent::Remove(id),
    }
}

impl RoomListEvent {
    /// The name the event is sent under.
    pub fn name(&self) -> (n: &'static str)
        ensures
            n@ == match self@ {
                SpecRoomListEvent::Update(_) => "update"@,
                SpecRoomListEvent::Remove(_) => "remove"@,
            },
    {
        match self {
            RoomListEvent::Update(_) => "update",
            RoomListEvent::Remove(_) => "remove",
        }
    }

    /// The event for a change of the room list (see `spec_update_event`).
    pub fn from_update(update: &RoomUpdate) -> (e: RoomListEvent)
        ensures
            e@ == spec_update_event(update@),
    {
        match update {
            RoomUpdate::Update { id, data } => {
                let mut events: Vec<RoomUpdateEvent> = Vec::new();
                events.push(RoomUpdateEvent { room_id: id.clone(), data: RoomView::from(data) });
                assert(updates_view(events@) =~= seq![(id@, spec_room_view(data@))]);
                RoomListEvent::Update(events)
            },
            RoomUpdate::Remove(id) => RoomListEvent::Remove(RemoveRemoveEvent { room_id: id.clone() }),
        }
    }

    /// The first event of the stream: every room, as an update.
    pub fn initial(rooms: &RoomState) -> (e: RoomListEvent)
        ensures
            e matches RoomListEvent::Update(events) && lists_rooms(events@, rooms.rooms()),
    {
        RoomListEvent::Update(rooms.into_views())
    }
}

} // verus!

verus! {

/// Whether `value` stands in the page between `open` and `close`.
pub open spec fn shows(page: Seq<char>, open: Seq<char>, value: Seq<char>, close: Seq<char>) -> bool {
    exists|i: int|
        0 <= i && i + open.len() + value.len() + close.len() <= page.len() && #[trigger] page.subrange(
            i,
            i + open.len() + value.len() + close.len(),
        ) == open + value + close
}

/// A page that ends in `lead` (which ends in `open`), then `value`, then
/// `trail` (which begins with `close`) shows the value between the two.
proof fn lemma_shows_here(
    pre: Seq<char>,
    lead: Seq<char>,
    value: Seq<char>,
    trail: Seq<char>,
    open: Seq<char>,
    close: Seq<char>,
)
    requires
        open.len() <= lead.len(),
        lead.subrange(lead.len() - open.len(), lead.len() as int) == open,
        close.len() <= trail.len(),
        trail.subrange(0, close.len() as int) == close,
    ensures
        shows(((pre + lead) + value) + trail, open, value, close),
{
    let page = ((pre + lead) + value) + trail;
    let i = pre.len() + lead.len() - open.len();
    let j = i + open.len() + value.len() + close.len();
    assert forall|k: int| 0 <= k < open.len() implies page[i + k] == open[k] by {
        assert(lead[lead.len() - open.len() + k] == open[k]);
    }
    assert forall|k: int| 0 <= k < close.len() implies page[i + open.len() + value.len() + k]
        == close[k] by {
        assert(trail[k] == close[k]);
    }
    assert(page.subrange(i, j) =~= open + value + close);
}

/// What the page shows stays shown when more follows it.
proof fn lemma_shows_kept(
    page: Seq<char>,
    more: Seq<char>,
    open: Seq<char>,
    value: Seq<char>,
    close: Seq<char>,
)
    requires
        shows(page, open, value, close),
    ensures
        shows(page + more, open, value, close),
{
    let i = choose|i: int|
        0 <= i && i + open.len() + value.len() + close.len() <= page.len()
            && #[trigger] page.subrange(i, i + open.len() + value.len() + close.len()) == open
            + value + close;
    let j = i + open.len() + value.len() + close.len();
    assert((page + more).subrange(i, j) =~= page.subrange(i, j));
}

} // verus!

verus! {

/// The body of a room's page names each field under its label: the
/// heading holds the room's name, and each item of the list holds, after
/// its label, the stats field the label names (the map, the game mode, the
/// number of players, the locale, the version and the creation time).
pub proof fn lemma_page_labels_its_fields(s: SpecStats)
    ensures
        shows(spec_stats_page(s), "<h1>Room: "@, s.name, "</h1>"@),
        shows(spec_stats_page(s), "<li><strong>Map:</strong> "@, s.map_name, "</li>"@),
        shows(spec_stats_page(s), "<li><strong>Gamemode:</strong> "@, s.gamemode, "</li>"@),
        shows(spec_stats_page(s), "<li><strong>Players:</strong> "@, decimal_text(s.players.len()), "</li>"@),
        shows(spec_stats_page(s), "<li><strong>Locale:</strong> "@, s.locale, "</li>"@),
        shows(spec_stats_page(s), "<li><strong>Version:</strong> "@, s.version, "</li>"@),
        shows(spec_stats_page(s), "<li><strong>Created At:</strong> "@, decimal_text(s.created_at as nat), "</li>"@),
{
    reveal_strlit("</h1>");
    reveal_strlit("</li>");
    reveal_strlit("<h1>Room: ");
    reveal_strlit("<li><strong>Created At:</strong> ");
    reveal_strlit("<li><strong>Gamemode:</strong> ");
    reveal_strlit("<li><strong>Locale:</strong> ");
    reveal_strlit("<li><strong>Map:</strong> ");
    reveal_strlit("<li><strong>Players:</strong> ");
    reveal_strlit("<li><strong>Version:</strong> ");
    reveal_strlit("\" />\n    \n</head>\n<body>\n    <h1>Room: ");
    reveal_strlit("</li>\n        <li><strong>Created At:</strong> ");
    reveal_strlit("</li>\n    </ul>\n</body>\n</html>");
    reveal_strlit("</li>\n        <li><strong>Gamemode:</strong> ");
    reveal_strlit("</li>\n        <li><strong>Locale:</strong> ");
    reveal_strlit("</h1>\n    <ul>\n        <li><strong>Map:</strong> ");
    reveal_strlit("</li>\n        <li><strong>Players:</strong> ");
    reveal_strlit("</li>\n        <li><strong>Version:</strong> ");
    let p0 = PAGE_HEAD@;
    let p1 = p0 + s.name;
    let p2 = p1 + PAGE_OG_TITLE@;
    let p3 = p2 + s.name;
    let p4 = p3 + PAGE_OG_DESCRIPTION@;
    let p5 = p4 + s.map_name;
    let p6 = p5 + PAGE_DESCRIPTION_GAMEMODE@;
    let p7 = p6 + s.gamemode;
    let p8 = p7 + PAGE_DESCRIPTION_PLAYERS@;
    let p9 = p8 + decimal_text(s.players.len());
    let p10 = p9 + PAGE_DESCRIPTION_VERSION@;
    let p11 = p10 + s.version;
    let p12 = p11 + PAGE_OG_MAP_NAME@;
    let p13 = p12 + s.map_name;
    let p14 = p13 + PAGE_OG_GAMEMODE@;
    let p15 = p14 + s.gamemode;
    let p16 = p15 + PAGE_OG_PLAYER_COUNT@;
    let p17 = p16 + decimal_text(s.players.len());
    let p18 = p17 + PAGE_OG_LOCALE@;
    let p19 = p18 + s.locale;
    let p20 = p19 + PAGE_OG_VERSION@;
    let p21 = p20 + s.version;
    let p22 = p21 + PAGE_OG_CREATED_AT@;
    let p23 = p22 + decimal_text(s.created_at as nat);
    let p24 = p23 + PAGE_BODY@;
    let p25 = p24 + s.name;
    let p26 = p25 + PAGE_MAP@;
    let p27 = p26 + s.map_name;
    let p28 = p27 + PAGE_GAMEMODE@;
    let p29 = p28 + s.gamemode;
    let p30 = p29 + PAGE_PLAYERS@;
    let p31 = p30 + decimal_text(s.players.len());
    let p32 = p31 + PAGE_LOCALE@;
    let p33 = p32 + s.locale;
    let p34 = p33 + PAGE_VERSION@;
    let p35 = p34 + s.version;
    let p36 = p35 + PAGE_CREATED_AT@;
    let p37 = p36 + decimal_text(s.created_at as nat);
    let p38 = p37 + PAGE_END@;
    assert(p38 == spec_stats_page(s));
    // the room's name, in the heading
    assert(PAGE_BODY@.subrange(PAGE_BODY@.len() - "<h1>Room: "@.len(), PAGE_BODY@.len() as int) =~= "<h1>Room: "@);
    assert(PAGE_MAP@.subrange(0, "</h1>"@.len() as int) =~= "</h1>"@);
    lemma_shows_here(p23, PAGE_BODY@, s.name, PAGE_MAP@, "<h1>Room: "@, "</h1>"@);
    lemma_shows_kept(p26, s.map_name, "<h1>Room: "@, s.name, "</h1>"@);
    lemma_shows_kept(p27, PAGE_GAMEMODE@, "<h1>Room: "@, s.name, "</h1>"@);
    lemma_shows_kept(p28, s.gamemode, "<h1>Room: "@, s.name, "</h1>"@);
    lemma_shows_kept(p29, PAGE_PLAYERS@, "<h1>Room: "@, s.name, "</h1>"@);
    lemma_shows_kept(p30, decimal_text(s.players.len()), "<h1>Room: "@, s.name, "</h1>"@);
    lemma_shows_kept(p31, PAGE_LOCALE@, "<h1>Room: "@, s.name, "</h1>"@);
    lemma_shows_kept(p32, s.locale, "<h1>Room: "@, s.name, "</h1>"@);
    lemma_shows_kept(p33, PAGE_VERSION@, "<h1>Room: "@, s.name, "</h1>"@);
    lemma_shows_kept(p34, s.version, "<h1>Room: "@, s.name, "</h1>"@);
    lemma_shows_kept(p35, PAGE_CREATED_AT@, "<h1>Room: "@, s.name, "</h1>"@);
    lemma_shows_kept(p36, decimal_text(s.created_at as nat), "<h1>Room: "@, s.name, "</h1>"@);
    lemma_shows_kept(p37, PAGE_END@, "<h1>Room: "@, s.name, "</h1>"@);
    // the map
    assert(PAGE_MAP@.subrange(PAGE_MAP@.len() - "<li><strong>Map:</strong> "@.len(), PAGE_MAP@.len() as int) =~= "<li><strong>Map:</strong> "@);
    assert(PAGE_GAMEMODE@.subrange(0, "</li>"@.len() as int) =~= "</li>"@);
    lemma_shows_here(p25, PAGE_MAP@, s.map_name, PAGE_GAMEMODE@, "<li><strong>Map:</strong> "@, "</li>"@);
    lemma_shows_kept(p28, s.gamemode, "<li><strong>Map:</strong> "@, s.map_name, "</li>"@);
    lemma_shows_kept(p29, PAGE_PLAYERS@, "<li><strong>Map:</strong> "@, s.map_name, "</li>"@);
    lemma_shows_kept(p30, decimal_text(s.players.len()), "<li><strong>Map:</strong> "@, s.map_name, "</li>"@);
    lemma_shows_kept(p31, PAGE_LOCALE@, "<li><strong>Map:</strong> "@, s.map_name, "</li>"@);
    lemma_shows_kept(p32, s.locale, "<li><strong>Map:</strong> "@, s.map_name, "</li>"@);
    lemma_shows_kept(p33, PAGE_VERSION@, "<li><strong>Map:</strong> "@, s.map_name, "</li>"@);
    lemma_shows_kept(p34, s.version, "<li><strong>Map:</strong> "@, s.map_name, "</li>"@);
    lemma_shows_kept(p35, PAGE_CREATED_AT@, "<li><strong>Map:</strong> "@, s.map_name, "</li>"@);
    lemma_shows_kept(p36, decimal_text(s.created_at as nat), "<li><strong>Map:</strong> "@, s.map_name, "</li>"@);
    lemma_shows_kept(p37, PAGE_END@, "<li><strong>Map:</strong> "@, s.map_name, "</li>"@);
    // the game mode
    assert(PAGE_GAMEMODE@.subrange(PAGE_GAMEMODE@.len() - "<li><strong>Gamemode:</strong> "@.len(), PAGE_GAMEMODE@.len() as int) =~= "<li><strong>Gamemode:</strong> "@);
    assert(PAGE_PLAYERS@.subrange(0, "</li>"@.len() as int) =~= "</li>"@);
    lemma_shows_here(p27, PAGE_GAMEMODE@, s.gamemode, PAGE_PLAYERS@, "<li><strong>Gamemode:</strong> "@, "</li>"@);
    lemma_shows_kept(p30, decimal_text(s.players.len()), "<li><strong>Gamemode:</strong> "@, s.gamemode, "</li>"@);
    lemma_shows_kept(p31, PAGE_LOCALE@, "<li><strong>Gamemode:</strong> "@, s.gamemode, "</li>"@);
    lemma_shows_kept(p32, s.locale, "<li><strong>Gamemode:</strong> "@, s.gamemode, "</li>"@);
    lemma_shows_kept(p33, PAGE_VERSION@, "<li><strong>Gamemode:</strong> "@, s.gamemode, "</li>"@);
    lemma_shows_kept(p34, s.version, "<li><strong>Gamemode:</strong> "@, s.gamemode, "</li>"@);
    lemma_shows_kept(p35, PAGE_CREATED_AT@, "<li><strong>Gamemode:</strong> "@, s.gamemode, "</li>"@);
    lemma_shows_kept(p36, decimal_text(s.created_at as nat), "<li><strong>Gamemode:</strong> "@, s.gamemode, "</li>"@);
    lemma_shows_kept(p37, PAGE_END@, "<li><strong>Gamemode:</strong> "@, s.gamemode, "</li>"@);
    // the number of players
    assert(PAGE_PLAYERS@.subrange(PAGE_PLAYERS@.len() - "<li><strong>Players:</strong> "@.len(), PAGE_PLAYERS@.len() as int) =~= "<li><strong>Players:</strong> "@);
    assert(PAGE_LOCALE@.subrange(0, "</li>"@.len() as int) =~= "</li>"@);
    lemma_shows_here(p29, PAGE_PLAYERS@, decimal_text(s.players.len()), PAGE_LOCALE@, "<li><strong>Players:</strong> "@, "</li>"@);
    lemma_shows_kept(p32, s.locale, "<li><strong>Players:</strong> "@, decimal_text(s.players.len()), "</li>"@);
    lemma_shows_kept(p33, PAGE_VERSION@, "<li><strong>Players:</strong> "@, decimal_text(s.players.len()), "</li>"@);
    lemma_shows_kept(p34, s.version, "<li><strong>Players:</strong> "@, decimal_text(s.players.len()), "</li>"@);
    lemma_shows_kept(p35, PAGE_CREATED_AT@, "<li><strong>Players:</strong> "@, decimal_text(s.players.len()), "</li>"@);
    lemma_shows_kept(p36, decimal_text(s.created_at as nat), "<li><strong>Players:</strong> "@, decimal_text(s.players.len()), "</li>"@);
    lemma_shows_kept(p37, PAGE_END@, "<li><strong>Players:</strong> "@, decimal_text(s.players.len()), "</li>"@);
    // the locale
    assert(PAGE_LOCALE@.subrange(PAGE_LOCALE@.len() - "<li><strong>Locale:</strong> "@.len(), PAGE_LOCALE@.len() as int) =~= "<li><strong>Locale:</strong> "@);
    assert(PAGE_VERSION@.subrange(0, "</li>"@.len() as int) =~= "</li>"@);
    lemma_shows_here(p31, PAGE_LOCALE@, s.locale, PAGE_VERSION@, "<li><strong>Locale:</strong> "@, "</li>"@);
    lemma_shows_kept(p34, s.version, "<li><strong>Locale:</strong> "@, s.locale, "</li>"@);
    lemma_shows_kept(p35, PAGE_CREATED_AT@, "<li><strong>Locale:</strong> "@, s.locale, "</li>"@);
    lemma_shows_kept(p36, decimal_text(s.created_at as nat), "<li><strong>Locale:</strong> "@, s.locale, "</li>"@);
    lemma_shows_kept(p37, PAGE_END@, "<li><strong>Locale:</strong> "@, s.locale, "</li>"@);
    // the version
    assert(PAGE_VERSION@.subrange(PAGE_VERSION@.len() - "<li><strong>Version:</strong> "@.len(), PAGE_VERSION@.len() as int) =~= "<li><strong>Version:</strong> "@);
    assert(PAGE_CREATED_AT@.subrange(0, "</li>"@.len() as int) =~= "</li>"@);
    lemma_shows_here(p33, PAGE_VERSION@, s.version, PAGE_CREATED_AT@, "<li><strong>Version:</strong> "@, "</li>"@);
    lemma_shows_kept(p36, decimal_text(s.created_at as nat), "<li><strong>Version:</strong> "@, s.version, "</li>"@);
    lemma_shows_kept(p37, PAGE_END@, "<li><strong>Version:</strong> "@, s.version, "</li>"@);
    // the creation time
    assert(PAGE_CREATED_AT@.subrange(PAGE_CREATED_AT@.len() - "<li><strong>Created At:</strong> "@.len(), PAGE_CREATED_AT@.len() as int) =~= "<li><strong>Created At:</strong> "@);
    assert(PAGE_END@.subrange(0, "</li>"@.len() as int) =~= "</li>"@);
    lemma_shows_here(p35, PAGE_CREATED_AT@, decimal_text(s.created_at as nat), PAGE_END@, "<li><strong>Created At:</strong> "@, "</li>"@);
}

} // verus!
