//! Room statistics reported by hosts and the views of rooms that the room
//! list publishes.
use vstd::prelude::*;

verus! {

/// One player of a room.
#[derive(Debug, Clone)]
pub struct Player {
    pub name: String,
    pub locale: String,
}

/// What a host reports about its room.
#[derive(Debug, Clone)]
pub struct Stats {
    pub players: Vec<Player>,
    pub map_name: String,
    pub name: String,
    pub gamemode: String,
    pub mods: Vec<String>,
    pub locale: String,
    pub version: String,
    pub created_at: u128,
}

/// A room as the room list shows it.
#[derive(Debug, Clone)]
pub struct RoomView {
    pub name: String,
    pub status: String,
    pub is_private: bool,
    pub is_secured: bool,
    pub players: Vec<Player>,
    pub map_name: String,
    pub gamemode: String,
    pub mods: Vec<String>,
    pub locale: String,
    pub version: String,
    pub created_at: u128,
    pub ping: u128,
    pub protocol_version: String,
}

/// The room-list event that a room is gone.
#[derive(Debug, Clone)]
pub struct RemoveRemoveEvent {
    pub room_id: String,
}

/// The room-list event that a room is new or changed.
#[derive(Debug, Clone)]
pub struct RoomUpdateEvent {
    pub room_id: String,
    pub data: RoomView,
}

/// The value of a player: name and locale.
pub struct SpecPlayer {
    pub name: Seq<char>,
    pub locale: Seq<char>,
}

/// The value of room stats.
pub struct SpecStats {
    pub players: Seq<SpecPlayer>,
    pub map_name: Seq<char>,
    pub name: Seq<char>,
    pub gamemode: Seq<char>,
    pub mods: Seq<Seq<char>>,
    pub locale: Seq<char>,
    pub version: Seq<char>,
    pub created_at: u128,
}

/// The value of a room view.
pub struct SpecRoomView {
    pub name: Seq<char>,
    pub status: Seq<char>,
    pub is_private: bool,
    pub is_secured: bool,
    pub players: Seq<SpecPlayer>,
    pub map_name: Seq<char>,
    pub gamemode: Seq<char>,
    pub mods: Seq<Seq<char>>,
    pub locale: Seq<char>,
    pub version: Seq<char>,
    pub created_at: u128,
    pub ping: u128,
    pub protocol_version: Seq<char>,
}

impl View for Player {
    type V = SpecPlayer;

    open spec fn view(&self) -> SpecPlayer {
        SpecPlayer { name: self.name@, locale: self.locale@ }
    }
}

/// The values of a list of players.
pub open spec fn players_view(players: Seq<Player>) -> Seq<SpecPlayer> {
    players.map_values(|p: Player| p@)
}

/// The values of a list of strings.
pub open spec fn strings_view(strings: Seq<String>) -> Seq<Seq<char>> {
    strings.map_values(|s: String| s@)
}

impl View for Stats {
    type V = SpecStats;

    open spec fn view(&self) -> SpecStats {
        SpecStats {
            players: players_view(self.players@),
            map_name: self.map_name@,
            name: self.name@,
            gamemode: self.gamemode@,
            mods: strings_view(self.mods@),
            locale: self.locale@,
            version: self.version@,
            created_at: self.created_at,
        }
    }
}

impl View for RoomView {
    type V = SpecRoomView;

    open spec fn view(&self) -> SpecRoomView {
        SpecRoomView {
            name: self.name@,
            status: self.status@,
            is_private: self.is_private,
            is_secured: self.is_secured,
            players: players_view(self.players@),
            map_name: self.map_name@,
            gamemode: self.gamemode@,
            mods: strings_view(self.mods@),
            locale: self.locale@,
            version: self.version@,
            created_at: self.created_at,
            ping: self.ping,
            protocol_version: self.protocol_version@,
        }
    }
}

impl Player {
    /// A copy of the player.
    pub fn duplicate(&self) -> (p: Player)
        ensures
            p@ == self@,
    {
        Player { name: self.name.clone(), locale: self.locale.clone() }
    }
}

/// A copy of a list of players.
pub fn copy_players(players: &Vec<Player>) -> (out: Vec<Player>)
    ensures
        players_view(out@) == players_view(players@),
{
    let mut out: Vec<Player> = Vec::new();
    let mut i: usize = 0;
    while i < players.len()
        invariant
            i <= players@.len(),
            out@.len() == i,
            forall|k: int| 0 <= k < i ==> #[trigger] out@[k]@ == players@[k]@,
        decreases players@.len() - i,
    {
        out.push(players[i].duplicate());
        i = i + 1;
    }
    assert(players_view(out@) =~= players_view(players@));
    out
}

/// A copy of a list of strings.
pub fn copy_strings(strings: &Vec<String>) -> (out: Vec<String>)
    ensures
        strings_view(out@) == strings_view(strings@),
{
    let mut out: Vec<String> = Vec::new();
    let mut i: usize = 0;
    while i < strings.len()
        invariant
            i <= strings@.len(),
            out@.len() == i,
            forall|k: int| 0 <= k < i ==> #[trigger] out@[k]@ == strings@[k]@,
        decreases strings@.len() - i,
    {
        out.push(strings[i].clone());
        i = i + 1;
    }
    assert(strings_view(out@) =~= strings_view(strings@));
    out
}

impl Stats {
    /// A copy of the stats.
    pub fn duplicate(&self) -> (s: Stats)
        ensures
            s@ == self@,
    {
        Stats {
            players: copy_players(&self.players),
            map_name: self.map_name.clone(),
            name: self.name.clone(),
            gamemode: self.gamemode.clone(),
            mods: copy_strings(&self.mods),
            locale: self.locale.clone(),
            version: self.version.clone(),
            created_at: self.created_at,
        }
    }
}

} // verus!
