//! The shared state of the server: its rooms, its connections and their
//! UDP routes.  Every operation returns, as effects, the messages it hands
//! to connections and the room-list events it publishes.
use crate::config::Config;
use crate::maps::{
    connection_ids, connection_map_contains, connection_map_insert, connection_map_remove,
    new_connection_map, new_room_map, new_route_map, room_entries, room_map_get, room_map_keys,
    room_map_insert, room_map_remove, route_entries, route_map_get, route_map_insert,
    route_map_remove,
};
use dashmap::DashMap;
use crate::constant::{ConnectionCloseReason, RoomCloseReason};
use crate::error::AppError;
use crate::models::{
    copy_players, copy_strings, RoomUpdateEvent, RoomView, SpecRoomView, SpecStats, Stats,
};
use crate::packets::{
    copy_bytes, AnyPacket, AppPacket, ConnectionClosedPacket, ConnectionIdlingPacket,
    ConnectionJoinPacket, RoomClosedPacket, SpecAnyPacket, SpecAppPacket,
};
use vstd::prelude::*;

verus! {

/// A connection's id.
pub type ConnectionId = i32;

/// A room's id.
pub type RoomId = String;

/// A room: its host, its members, and what its host last reported.
#[derive(Debug, Clone)]
pub struct Room {
    pub id: String,
    pub host_connection_id: i32,
    pub password: Option<String>,
    pub created_at: u128,
    pub updated_at: u128,
    pub members: Vec<i32>,
    pub stats: Stats,
    pub ping: u128,
    pub protocol_version: String,
}

/// The value of a room.
pub struct SpecRoom {
    pub id: Seq<char>,
    pub host_connection_id: i32,
    pub password: Option<Seq<char>>,
    pub created_at: u128,
    pub updated_at: u128,
    pub members: Seq<i32>,
    pub stats: SpecStats,
    pub ping: u128,
    pub protocol_version: Seq<char>,
}

/// The value of an optional string.
pub open spec fn opt_string_view(s: Option<String>) -> Option<Seq<char>> {
    match s {
        Some(v) => Some(v@),
        None => None,
    }
}

impl View for Room {
    type V = SpecRoom;

    open spec fn view(&self) -> SpecRoom {
        SpecRoom {
            id: self.id@,
            host_connection_id: self.host_connection_id,
            password: opt_string_view(self.password),
            created_at: self.created_at,
            updated_at: self.updated_at,
            members: self.members@,
            stats: self.stats@,
            ping: self.ping,
            protocol_version: self.protocol_version@,
        }
    }
}

/// A copy of a list of connection ids.
pub fn copy_ids(ids: &Vec<i32>) -> (out: Vec<i32>)
    ensures
        out@ == ids@,
{
    let mut out: Vec<i32> = Vec::new();
    let mut i: usize = 0;
    while i < ids.len()
        invariant
            i <= ids@.len(),
            out@ == ids@.subrange(0, i as int),
        decreases ids@.len() - i,
    {
        out.push(ids[i]);
        i = i + 1;
        assert(out@ =~= ids@.subrange(0, i as int));
    }
    assert(ids@.subrange(0, ids@.len() as int) =~= ids@);
    out
}

impl Room {
    /// Whether the connection hosts the room.
    pub fn is_host(&self, connection_id: i32) -> (b: bool)
        ensures
            b == (self.host_connection_id == connection_id),
    {
        self.host_connection_id == connection_id
    }

    /// A copy of the room.
    pub fn duplicate(&self) -> (r: Room)
        ensures
            r@ == self@,
    {
        Room {
            id: self.id.clone(),
            host_connection_id: self.host_connection_id,
            password: match &self.password {
                Some(p) => Some(p.clone()),
                None => None,
            },
            created_at: self.created_at,
            updated_at: self.updated_at,
            members: copy_ids(&self.members),
            stats: self.stats.duplicate(),
            ping: self.ping,
            protocol_version: self.protocol_version.clone(),
        }
    }
}

/// The room list's view of a room: its stats, "UP", public, secured when it
/// has a password, with its ping and protocol version.
pub open spec fn spec_room_view(room: SpecRoom) -> SpecRoomView {
    SpecRoomView {
        name: room.stats.name,
        status: "UP"@,
        is_private: false,
        is_secured: room.password is Some,
        players: room.stats.players,
        map_name: room.stats.map_name,
        gamemode: room.stats.gamemode,
        mods: room.stats.mods,
        locale: room.stats.locale,
        version: room.stats.version,
        created_at: room.stats.created_at,
        ping: room.ping,
        protocol_version: room.protocol_version,
    }
}

impl RoomView {
    /// The room list's view of a room.
    pub fn from(room: &Room) -> (v: RoomView)
        ensures
            v@ == spec_room_view(room@),
    {
        let status = String::from_str("UP");
        RoomView {
            name: room.stats.name.clone(),
            status,
            is_private: false,
            is_secured: room.password.is_some(),
            players: copy_players(&room.stats.players),
            map_name: room.stats.map_name.clone(),
            gamemode: room.stats.gamemode.clone(),
            mods: copy_strings(&room.stats.mods),
            locale: room.stats.locale.clone(),
            version: room.stats.version.clone(),
            created_at: room.stats.created_at,
            ping: room.ping,
            protocol_version: room.protocol_version.clone(),
        }
    }
}

/// What a connection is asked to do.
#[derive(Debug, Clone)]
pub enum ConnectionAction {
    /// Write a packet to the connection's TCP stream.
    SendTCP(AnyPacket),
    /// Write bytes to the connection's TCP stream.
    SendTCPRaw(Vec<u8>),
    /// Send bytes to the connection's UDP address.
    SendUDPRaw(Vec<u8>),
    /// Close the connection.
    Close(ConnectionCloseReason),
    /// The connection's UDP address (as text) became known.
    RegisterUDP(String),
    /// Handle a packet that arrived over UDP (`false`) or TCP (`true`).
    ProcessPacket(AnyPacket, bool),
}

/// The value of a connection action.
pub enum SpecConnectionAction {
    SendTCP(SpecAnyPacket),
    SendTCPRaw(Seq<u8>),
    SendUDPRaw(Seq<u8>),
    Close(ConnectionCloseReason),
    RegisterUDP(Seq<char>),
    ProcessPacket(SpecAnyPacket, bool),
}

impl View for ConnectionAction {
    type V = SpecConnectionAction;

    open spec fn view(&self) -> SpecConnectionAction {
        match self {
            ConnectionAction::SendTCP(p) => SpecConnectionAction::SendTCP(p@),
            ConnectionAction::SendTCPRaw(b) => SpecConnectionAction::SendTCPRaw(b@),
            ConnectionAction::SendUDPRaw(b) => SpecConnectionAction::SendUDPRaw(b@),
            ConnectionAction::Close(r) => SpecConnectionAction::Close(*r),
            ConnectionAction::RegisterUDP(a) => SpecConnectionAction::RegisterUDP(a@),
            ConnectionAction::ProcessPacket(p, t) => SpecConnectionAction::ProcessPacket(p@, *t),
        }
    }
}

impl ConnectionAction {
    /// A copy of the action.
    pub fn duplicate(&self) -> (a: ConnectionAction)
        ensures
            a@ == self@,
    {
        match self {
            ConnectionAction::SendTCP(p) => ConnectionAction::SendTCP(p.duplicate()),
            ConnectionAction::SendTCPRaw(b) => ConnectionAction::SendTCPRaw(copy_bytes(b)),
            ConnectionAction::SendUDPRaw(b) => ConnectionAction::SendUDPRaw(copy_bytes(b)),
            ConnectionAction::Close(r) => ConnectionAction::Close(*r),
            ConnectionAction::RegisterUDP(a) => ConnectionAction::RegisterUDP(a.clone()),
            ConnectionAction::ProcessPacket(p, t) => ConnectionAction::ProcessPacket(
                p.duplicate(),
                *t,
            ),
        }
    }
}

/// A change of the room list.
#[derive(Debug, Clone)]
pub enum RoomUpdate {
    Update { id: String, data: Room },
    Remove(String),
}

/// The value of a room-list change.
pub enum SpecRoomUpdate {
    Update { id: Seq<char>, data: SpecRoom },
    Remove(Seq<char>),
}

impl View for RoomUpdate {
    type V = SpecRoomUpdate;

    open spec fn view(&self) -> SpecRoomUpdate {
        match self {
            RoomUpdate::Update { id, data } => SpecRoomUpdate::Update { id: id@, data: data@ },
            RoomUpdate::Remove(id) => SpecRoomUpdate::Remove(id@),
        }
    }
}

/// Something the logic asks the server to do.
#[derive(Debug)]
pub enum Effect {
    /// Hand an action to the connection with this id; dropped when that
    /// connection is gone or its queue is full.
    Send(i32, ConnectionAction),
    /// Announce a change of the room list.
    Publish(RoomUpdate),
    /// Write bytes to this connection's TCP stream now.
    Write(Vec<u8>),
    /// Add bytes to this connection's TCP batch, written once the queued
    /// actions are handled.
    Queue(Vec<u8>),
    /// Send bytes to this UDP address (as text).
    SendUdp(String, Vec<u8>),
}

/// The value of an effect.
pub enum SpecEffect {
    Send(i32, SpecConnectionAction),
    Publish(SpecRoomUpdate),
    Write(Seq<u8>),
    Queue(Seq<u8>),
    SendUdp(Seq<char>, Seq<u8>),
}

impl View for Effect {
    type V = SpecEffect;

    open spec fn view(&self) -> SpecEffect {
        match self {
            Effect::Send(id, a) => SpecEffect::Send(*id, a@),
            Effect::Publish(u) => SpecEffect::Publish(u@),
            Effect::Write(b) => SpecEffect::Write(b@),
            Effect::Queue(b) => SpecEffect::Queue(b@),
            Effect::SendUdp(addr, b) => SpecEffect::SendUdp(addr@, b@),
        }
    }
}

/// The values of a list of effects.
pub open spec fn effects_view(effects: Seq<Effect>) -> Seq<SpecEffect> {
    effects.map_values(|e: Effect| e@)
}

/// Appends an effect.
pub fn emit(out: &mut Vec<Effect>, e: Effect)
    ensures
        effects_view(final(out)@) == effects_view(old(out)@).push(e@),
{
    out.push(e);
    assert(effects_view(out@) =~= effects_view(old(out)@).push(e@));
}


/// Whether a room is well formed under its key: it is stored under its
/// own id, and no connection is listed twice among its members.
pub open spec fn room_wf(room: SpecRoom, key: Seq<char>) -> bool {
    room.id == key && room.members.no_duplicates()
}

/// Whether every room of the table is well formed under its key.
pub open spec fn rooms_wf(rooms: Map<Seq<char>, SpecRoom>) -> bool {
    forall|k: Seq<char>| #[trigger] rooms.contains_key(k) ==> room_wf(rooms[k], k)
}

/// Whether no room lists its host among its members.
pub open spec fn hosts_apart(rooms: Map<Seq<char>, SpecRoom>) -> bool {
    forall|k: Seq<char>|
        #[trigger] rooms.contains_key(k) ==> !rooms[k].members.contains(rooms[k].host_connection_id)
}

/// The rooms of the server, keyed by id.
pub struct RoomState {
    rooms: DashMap<String, Room>,
}

impl RoomState {
    #[verifier::type_invariant]
    pub(crate) open spec fn inv(&self) -> bool {
        rooms_wf(self.rooms())
    }

    /// The rooms, keyed by id.
    pub closed spec fn rooms(&self) -> Map<Seq<char>, SpecRoom> {
        room_entries(self.rooms)
    }

    /// A server without rooms.
    pub fn new() -> (s: RoomState)
        ensures
            s.rooms() == Map::<Seq<char>, SpecRoom>::empty(),
            rooms_wf(s.rooms()),
    {
        let rooms = new_room_map();
        assert(room_entries(rooms) =~= Map::<Seq<char>, SpecRoom>::empty());
        RoomState { rooms }
    }

    /// Takes the room with the id out.
    fn take(&mut self, room_id: &String) -> (r: Option<Room>)
        ensures
            final(self).rooms() == old(self).rooms().remove(room_id@),
            rooms_wf(old(self).rooms()),
            match r {
                Some(room) => old(self).rooms().contains_key(room_id@) && room@ == old(
                    self,
                ).rooms()[room_id@],
                None => !old(self).rooms().contains_key(room_id@),
            },
    {
        proof {
            use_type_invariant(&*self);
        }
        let mut rooms = new_room_map();
        std::mem::swap(&mut rooms, &mut self.rooms);
        let r = room_map_remove(&mut rooms, room_id);
        self.rooms = rooms;
        r
    }

    /// Puts a room, well formed under the id, under the id, in place of any
    /// room there.
    fn put(&mut self, room_id: String, room: Room)
        requires
            room_wf(room@, room_id@),
        ensures
            final(self).rooms() == old(self).rooms().insert(room_id@, room@),
            rooms_wf(final(self).rooms()),
    {
        proof {
            use_type_invariant(&*self);
        }
        let mut rooms = new_room_map();
        std::mem::swap(&mut rooms, &mut self.rooms);
        room_map_insert(&mut rooms, room_id, room);
        self.rooms = rooms;
    }
}


/// The member list after a connection joins (a member stays once).
pub open spec fn with_member(members: Seq<i32>, c: i32) -> Seq<i32> {
    if members.contains(c) {
        members
    } else {
        members.push(c)
    }
}

/// The list without any occurrence of the id, in order.
pub open spec fn without_member(members: Seq<i32>, c: i32) -> Seq<i32>
    decreases members.len(),
{
    if members.len() == 0 {
        members
    } else {
        let rest = without_member(members.drop_last(), c);
        if members.last() == c {
            rest
        } else {
            rest.push(members.last())
        }
    }
}

pub proof fn lemma_with_member(members: Seq<i32>, c: i32)
    ensures
        forall|x: i32| #[trigger] with_member(members, c).contains(x) <==> (members.contains(x)
            || x == c),
{
    assert forall|x: i32| #[trigger] with_member(members, c).contains(x) <==> (members.contains(x)
        || x == c) by {
        if !members.contains(c) {
            let p = members.push(c);
            if p.contains(x) {
                let k = choose|k: int| 0 <= k < p.len() && p[k] == x;
                if k < members.len() {
                    assert(members[k] == x);
                }
            }
            if members.contains(x) {
                let k = choose|k: int| 0 <= k < members.len() && members[k] == x;
                assert(p[k] == x);
            }
            if x == c {
                assert(p[members.len() as int] == x);
            }
        }
    }
}

pub proof fn lemma_without_member(members: Seq<i32>, c: i32)
    ensures
        forall|x: i32| #[trigger] without_member(members, c).contains(x) <==> (members.contains(x)
            && x != c),
    decreases members.len(),
{
    if members.len() > 0 {
        lemma_without_member(members.drop_last(), c);
        assert forall|x: i32| #[trigger] members.contains(x) <==> (members.drop_last().contains(x)
            || members.last() == x) by {
            if members.contains(x) {
                let k = choose|k: int| 0 <= k < members.len() && members[k] == x;
                if k < members.len() - 1 {
                    assert(members.drop_last()[k] == x);
                }
            }
            if members.drop_last().contains(x) {
                let k = choose|k: int| 0 <= k < members.len() - 1 && members.drop_last()[k] == x;
                assert(members[k] == x);
            }
            if members.last() == x {
                assert(members[members.len() - 1] == x);
            }
        }
        let rest = without_member(members.drop_last(), c);
        if members.last() != c {
            assert forall|x: i32| #[trigger] rest.push(members.last()).contains(x) <==> (
            rest.contains(x) || x == members.last()) by {
                if rest.push(members.last()).contains(x) {
                    let k = choose|k: int|
                        0 <= k < rest.len() + 1 && rest.push(members.last())[k] == x;
                    if k < rest.len() {
                        assert(rest[k] == x);
                    }
                }
                if rest.contains(x) {
                    let k = choose|k: int| 0 <= k < rest.len() && rest[k] == x;
                    assert(rest.push(members.last())[k] == x);
                }
                if x == members.last() {
                    assert(rest.push(members.last())[rest.len() as int] == x);
                }
            }
        }
    }
}

/// Whether the list holds the id.
pub fn contains_id(ids: &Vec<i32>, c: i32) -> (b: bool)
    ensures
        b == ids@.contains(c),
{
    let mut i: usize = 0;
    while i < ids.len()
        invariant
            i <= ids@.len(),
            forall|k: int| 0 <= k < i ==> ids@[k] != c,
        decreases ids@.len() - i,
    {
        if ids[i] == c {
            assert(ids@[i as int] == c);
            return true;
        }
        i = i + 1;
    }
    false
}

/// Adds an id to a list that lacks it.
pub fn add_id(ids: &mut Vec<i32>, c: i32)
    ensures
        final(ids)@ == with_member(old(ids)@, c),
{
    if !contains_id(ids, c) {
        ids.push(c);
    }
}

/// Removes every occurrence of an id from a list.
pub fn remove_id(ids: &mut Vec<i32>, c: i32)
    ensures
        final(ids)@ == without_member(old(ids)@, c),
{
    let mut out: Vec<i32> = Vec::new();
    let mut i: usize = 0;
    while i < ids.len()
        invariant
            i <= ids@.len(),
            ids@ == old(ids)@,
            out@ == without_member(ids@.subrange(0, i as int), c),
        decreases ids@.len() - i,
    {
        let x = ids[i];
        assert(ids@.subrange(0, i + 1).drop_last() =~= ids@.subrange(0, i as int));
        if x != c {
            out.push(x);
        }
        i = i + 1;
    }
    assert(ids@.subrange(0, ids@.len() as int) =~= ids@);
    *ids = out;
}


/// Asks a connection to write an application packet.
pub open spec fn send_app(target: i32, p: SpecAppPacket) -> SpecEffect {
    SpecEffect::Send(target, SpecConnectionAction::SendTCP(SpecAnyPacket::App(p)))
}

/// What closing a room tells each member, in member order: the room closed,
/// then close.
pub open spec fn close_effects(members: Seq<i32>) -> Seq<SpecEffect>
    decreases members.len(),
{
    if members.len() == 0 {
        Seq::empty()
    } else {
        let m = members.last();
        close_effects(members.drop_last()) + seq![
            send_app(m, SpecAppPacket::RoomClosed { reason: RoomCloseReason::Closed }),
            SpecEffect::Send(m, SpecConnectionAction::Close(ConnectionCloseReason::Closed)),
        ]
    }
}

/// The action handed to each member but the excluded one, in member order.
pub open spec fn broadcast_effects(
    members: Seq<i32>,
    action: SpecConnectionAction,
    exclude: Option<i32>,
) -> Seq<SpecEffect>
    decreases members.len(),
{
    if members.len() == 0 {
        Seq::empty()
    } else {
        let m = members.last();
        let rest = broadcast_effects(members.drop_last(), action, exclude);
        if exclude == Some(m) {
            rest
        } else {
            rest.push(SpecEffect::Send(m, action))
        }
    }
}

/// A room with another member list.
pub open spec fn with_members(room: SpecRoom, members: Seq<i32>) -> SpecRoom {
    SpecRoom { members, ..room }
}

/// The rooms after the connection joins room `r`.
pub open spec fn joined(rooms: Map<Seq<char>, SpecRoom>, r: Seq<char>, c: i32) -> Map<
    Seq<char>,
    SpecRoom,
> {
    rooms.insert(r, with_members(rooms[r], with_member(rooms[r].members, c)))
}

/// The rooms after the connection leaves room `r`.
pub open spec fn departed(rooms: Map<Seq<char>, SpecRoom>, r: Seq<char>, c: i32) -> Map<
    Seq<char>,
    SpecRoom,
> {
    rooms.insert(r, with_members(rooms[r], without_member(rooms[r].members, c)))
}

/// What opening a room stores.
pub struct RoomInit {
    pub connection_id: i32,
    pub password: String,
    pub stats: Stats,
    pub protocol_version: String,
}

/// The room that `init` opens under `id` at `now_ms`: no password when the
/// given one is empty, no member, no ping.
pub open spec fn spec_new_room(
    connection_id: i32,
    password: Seq<char>,
    stats: SpecStats,
    protocol_version: Seq<char>,
    id: Seq<char>,
    now_ms: u128,
) -> SpecRoom {
    SpecRoom {
        id,
        host_connection_id: connection_id,
        password: if password.len() == 0 {
            None
        } else {
            Some(password)
        },
        created_at: now_ms,
        updated_at: now_ms,
        members: Seq::empty(),
        stats,
        ping: 0,
        protocol_version,
    }
}

/// Whether the text has the shape of a hyphenated lower-case UUID: 36
/// characters, hyphens at positions 8, 13, 18 and 23, hexadecimal digits
/// elsewhere.
pub open spec fn uuid_text(id: Seq<char>) -> bool {
    &&& id.len() == 36
    &&& forall|i: int|
        0 <= i < 36 ==> if i == 8 || i == 13 || i == 18 || i == 23 {
            #[trigger] id[i] == '-'
        } else {
            ('0' <= id[i] <= '9') || ('a' <= id[i] <= 'f')
        }
}

/// Whether the text has the shape of a version-7 UUID (RFC 9562) as
/// `Uuid::to_string` writes it: hyphenated lower-case hexadecimal, with the
/// version digit `7` at position 14 and the variant digit (`8`, `9`, `a` or
/// `b`) at position 19.
pub open spec fn uuid_v7_text(id: Seq<char>) -> bool {
    &&& uuid_text(id)
    &&& id[14] == '7'
    &&& (id[19] == '8' || id[19] == '9' || id[19] == 'a' || id[19] == 'b')
}

/// A text of that shape.
pub open spec fn uuid_v7_sample() -> Seq<char> {
    Seq::new(
        36,
        |i: int|
            if i == 8 || i == 13 || i == 18 || i == 23 {
                '-'
            } else if i == 14 {
                '7'
            } else if i == 19 {
                '8'
            } else {
                '0'
            },
    )
}

/// `uuid::Uuid::now_v7` written as text.  By the crate's source (`v7.rs`
/// sets the version to 7 and the RFC 4122 variant; `fmt.rs` writes the
/// hyphenated lower-case form) the text is a version-7 UUID (see
/// `uuid_v7_text`).  Which UUID comes is not stated: it rests on the time
/// and on chance.
#[verifier::external_body]
pub(crate) fn new_room_id() -> (id: String)
    ensures
        uuid_v7_text(id@),
{
    uuid::Uuid::now_v7().to_string()
}

impl RoomState {
    /// Adds the connection to the room and tells the host; an unknown room
    /// is an error.
    pub fn join(&mut self, connection_id: i32, room_id: &String, out: &mut Vec<Effect>) -> (r:
        Result<(), AppError>)
        ensures
            rooms_wf(final(self).rooms()),
            old(self).rooms().contains_key(room_id@) ==> {
                let room = old(self).rooms()[room_id@];
                &&& r is Ok
                &&& final(self).rooms() == joined(old(self).rooms(), room_id@, connection_id)
                &&& effects_view(final(out)@) == effects_view(old(out)@).push(
                    send_app(
                        room.host_connection_id,
                        SpecAppPacket::ConnectionJoin { connection_id, room_id: room_id@ },
                    ),
                )
            },
            !old(self).rooms().contains_key(room_id@) ==> {
                &&& r matches Err(AppError::RoomNotFound(s)) && s@ == room_id@
                &&& final(self).rooms() == old(self).rooms()
                &&& final(out)@ == old(out)@
            },
    {
        match self.take(room_id) {
            Some(mut room) => {
                proof {
                    lemma_members_stay_distinct(room.members@, connection_id);
                }
                add_id(&mut room.members, connection_id);
                let host = room.host_connection_id;
                let ghost new_room = room@;
                self.put(room_id.clone(), room);
                assert(self.rooms() =~= old(self).rooms().insert(room_id@, new_room));
                let packet = ConnectionJoinPacket { connection_id, room_id: room_id.clone() };
                emit(
                    out,
                    Effect::Send(
                        host,
                        ConnectionAction::SendTCP(AnyPacket::App(AppPacket::ConnectionJoin(packet))),
                    ),
                );
                Ok(())
            },
            None => Err(AppError::RoomNotFound(room_id.clone())),
        }
    }

    /// Removes the connection from the room, if the room exists, and tells
    /// the host that the connection closed.
    pub fn leave(&mut self, connection_id: i32, room_id: &String, out: &mut Vec<Effect>)
        ensures
            rooms_wf(final(self).rooms()),
            old(self).rooms().contains_key(room_id@) ==> {
                let room = old(self).rooms()[room_id@];
                &&& final(self).rooms() == departed(old(self).rooms(), room_id@, connection_id)
                &&& effects_view(final(out)@) == effects_view(old(out)@).push(
                    send_app(
                        room.host_connection_id,
                        SpecAppPacket::ConnectionClosed {
                            connection_id,
                            reason: ConnectionCloseReason::Closed,
                        },
                    ),
                )
            },
            !old(self).rooms().contains_key(room_id@) ==> final(self).rooms() == old(
                self,
            ).rooms() && final(out)@ == old(out)@,
    {
        if let Some(mut room) = self.take(room_id) {
            proof {
                lemma_members_stay_distinct(room.members@, connection_id);
            }
            remove_id(&mut room.members, connection_id);
            let host = room.host_connection_id;
            let ghost new_room = room@;
            self.put(room_id.clone(), room);
            assert(self.rooms() =~= old(self).rooms().insert(room_id@, new_room));
            let packet = ConnectionClosedPacket {
                connection_id,
                reason: ConnectionCloseReason::Closed,
            };
            emit(
                out,
                Effect::Send(
                    host,
                    ConnectionAction::SendTCP(AnyPacket::App(AppPacket::ConnectionClosed(packet))),
                ),
            );
        }
    }

    /// Opens a room under `id` at `now_ms`; a room with that id is replaced.
    pub fn create_room(&mut self, init: RoomInit, id: String, now_ms: u128) -> (r: String)
        ensures
            rooms_wf(final(self).rooms()),
            r@ == id@,
            final(self).rooms() == old(self).rooms().insert(
                id@,
                spec_new_room(
                    init.connection_id,
                    init.password@,
                    init.stats@,
                    init.protocol_version@,
                    id@,
                    now_ms,
                ),
            ),
    {
        let RoomInit { connection_id, password, stats, protocol_version } = init;
        let password = if password.as_str().is_empty() {
            None
        } else {
            Some(password)
        };
        let room = Room {
            id: id.clone(),
            host_connection_id: connection_id,
            password,
            created_at: now_ms,
            updated_at: now_ms,
            members: Vec::new(),
            stats,
            ping: 0,
            protocol_version,
        };
        self.put(id.clone(), room);
        id
    }

    /// Opens a room hosted by `init.connection_id` under a new version-7
    /// UUID, at the current time, and gives its id; a room that had that id
    /// is replaced.
    pub fn create(&mut self, init: RoomInit) -> (r: String)
        ensures
            rooms_wf(final(self).rooms()),
            uuid_v7_text(r@),
            exists|now_ms: u128|
                final(self).rooms() == old(self).rooms().insert(
                    r@,
                    spec_new_room(
                        init.connection_id,
                        init.password@,
                        init.stats@,
                        init.protocol_version@,
                        r@,
                        now_ms,
                    ),
                ),
    {
        let id = new_room_id();
        let now = crate::utils::current_time_millis();
        self.create_room(init, id, now)
    }

    /// Removes the room; when it existed, tells each member that the room
    /// closed and to close, then announces the removal.
    pub fn close(&mut self, room_id: &String, out: &mut Vec<Effect>)
        ensures
            rooms_wf(old(self).rooms()) && rooms_wf(final(self).rooms()),
            final(self).rooms() == old(self).rooms().remove(room_id@),
            old(self).rooms().contains_key(room_id@) ==> effects_view(final(out)@)
                == effects_view(old(out)@) + close_effects(old(self).rooms()[room_id@].members)
                + seq![SpecEffect::Publish(SpecRoomUpdate::Remove(room_id@))],
            !old(self).rooms().contains_key(room_id@) ==> final(out)@ == old(out)@,
    {
        match self.take(room_id) {
            Some(room) => {
                let ghost start = effects_view(out@);
                let mut k: usize = 0;
                while k < room.members.len()
                    invariant
                        k <= room.members@.len(),
                        effects_view(out@) == start + close_effects(
                            room.members@.subrange(0, k as int),
                        ),
                    decreases room.members@.len() - k,
                {
                    let m = room.members[k];
                    assert(room.members@.subrange(0, k + 1).drop_last() =~= room.members@.subrange(
                        0,
                        k as int,
                    ));
                    emit(
                        out,
                        Effect::Send(
                            m,
                            ConnectionAction::SendTCP(
                                AnyPacket::App(
                                    AppPacket::RoomClosed(
                                        RoomClosedPacket { reason: RoomCloseReason::Closed },
                                    ),
                                ),
                            ),
                        ),
                    );
                    emit(out, Effect::Send(m, ConnectionAction::Close(ConnectionCloseReason::Closed)));
                    k = k + 1;
                    assert(effects_view(out@) =~= start + close_effects(
                        room.members@.subrange(0, k as int),
                    ));
                }
                assert(room.members@.subrange(0, room.members@.len() as int) =~= room.members@);
                emit(out, Effect::Publish(RoomUpdate::Remove(room_id.clone())));
                assert(effects_view(out@) =~= start + close_effects(room.members@) + seq![
                    SpecEffect::Publish(SpecRoomUpdate::Remove(room_id@)),
                ]);
            },
            None => {},
        }
    }
}


/// How handing a message to a connection went.
#[derive(Debug, Clone, Copy, PartialEq, Eq)]
pub enum SendOutcome {
    Sent,
    Full,
    Closed,
}

/// Whether the idle notice counts as given once its delivery to the host went
/// as `outcome`: only a full queue means trying again later.
pub fn idle_result(outcome: SendOutcome) -> (done: bool)
    ensures
        done == !(outcome is Full),
{
    match outcome {
        SendOutcome::Full => false,
        _ => true,
    }
}

/// `a - b` modulo 2^128.
pub open spec fn wrapping_diff(a: u128, b: u128) -> u128 {
    if a >= b {
        (a - b) as u128
    } else {
        (a - b + 0x1_0000_0000_0000_0000_0000_0000_0000_0000) as u128
    }
}

/// Whether the connection is a member of the room.
pub open spec fn member_of(rooms: Map<Seq<char>, SpecRoom>, room_id: Seq<char>, c: i32) -> bool {
    rooms.contains_key(room_id) && rooms[room_id].members.contains(c)
}

/// A room whose host reported new stats at `now_ms`: the stats, the update
/// time, and the ping (now minus the time the stats were made, wrapping).
pub open spec fn with_stats(room: SpecRoom, stats: SpecStats, now_ms: u128) -> SpecRoom {
    SpecRoom {
        stats,
        updated_at: now_ms,
        ping: wrapping_diff(now_ms, stats.created_at),
        ..room
    }
}


impl RoomState {
    /// Hands a copy of the action to each member of the room but the
    /// excluded one, if the room exists.
    pub fn broadcast(
        &self,
        room_id: &String,
        action: ConnectionAction,
        exclude_id: Option<i32>,
        out: &mut Vec<Effect>,
    )
        ensures
            rooms_wf(self.rooms()),
            self.rooms().contains_key(room_id@) ==> effects_view(final(out)@) == effects_view(
                old(out)@,
            ) + broadcast_effects(self.rooms()[room_id@].members, action@, exclude_id),
            !self.rooms().contains_key(room_id@) ==> final(out)@ == old(out)@,
    {
        if let Some(room) = self.get_room(room_id) {
            let ghost start = effects_view(out@);
            let mut k: usize = 0;
            while k < room.members.len()
                invariant
                    k <= room.members@.len(),
                    effects_view(out@) == start + broadcast_effects(
                        room.members@.subrange(0, k as int),
                        action@,
                        exclude_id,
                    ),
                decreases room.members@.len() - k,
            {
                let m = room.members[k];
                assert(room.members@.subrange(0, k + 1).drop_last() =~= room.members@.subrange(
                    0,
                    k as int,
                ));
                let skip = match exclude_id {
                    Some(e) => e == m,
                    None => false,
                };
                if !skip {
                    emit(out, Effect::Send(m, action.duplicate()));
                }
                k = k + 1;
                assert(effects_view(out@) =~= start + broadcast_effects(
                    room.members@.subrange(0, k as int),
                    action@,
                    exclude_id,
                ));
            }
            assert(room.members@.subrange(0, room.members@.len() as int) =~= room.members@);
        }
    }

    /// Hands the action to the host of the room, if the room exists.
    pub fn forward_to_host(&self, room_id: &String, action: ConnectionAction, out: &mut Vec<Effect>)
        ensures
            self.rooms().contains_key(room_id@) ==> effects_view(final(out)@) == effects_view(
                old(out)@,
            ).push(SpecEffect::Send(self.rooms()[room_id@].host_connection_id, action@)),
            !self.rooms().contains_key(room_id@) ==> final(out)@ == old(out)@,
    {
        if let Some(room) = self.get_room(room_id) {
            emit(out, Effect::Send(room.host_connection_id, action));
        }
    }

    /// The members of the room; none for an unknown room.
    pub fn get_room_members(&self, room_id: &String) -> (m: Vec<i32>)
        ensures
            m@ == if self.rooms().contains_key(room_id@) {
                self.rooms()[room_id@].members
            } else {
                Seq::empty()
            },
    {
        match self.get_room(room_id) {
            Some(room) => room.members,
            None => Vec::new(),
        }
    }

    /// A copy of the room with the id.
    pub fn get_room(&self, room_id: &String) -> (r: Option<Room>)
        ensures
            rooms_wf(self.rooms()),
            match r {
                Some(room) => self.rooms().contains_key(room_id@) && room@ == self.rooms()[room_id@],
                None => !self.rooms().contains_key(room_id@),
            },
    {
        proof {
            use_type_invariant(self);
        }
        room_map_get(&self.rooms, room_id)
    }

    /// Tells the host of the room that the connection is idle.  `true` when
    /// nothing needs telling (no such room, or the connection is the host);
    /// `false` when the notice was handed to the host, whose delivery decides
    /// (see `idle_result`).
    pub fn idle(&self, connection_id: i32, room_id: &String, out: &mut Vec<Effect>) -> (settled:
        bool)
        ensures
            settled == (!self.rooms().contains_key(room_id@) || self.rooms()[room_id@].host_connection_id
                == connection_id),
            settled ==> final(out)@ == old(out)@,
            !settled ==> effects_view(final(out)@) == effects_view(old(out)@).push(
                send_app(
                    self.rooms()[room_id@].host_connection_id,
                    SpecAppPacket::ConnectionIdling { connection_id },
                ),
            ),
    {
        match self.get_room(room_id) {
            Some(room) => {
                if room.is_host(connection_id) {
                    return true;
                }
                let packet = ConnectionIdlingPacket { connection_id };
                emit(
                    out,
                    Effect::Send(
                        room.host_connection_id,
                        ConnectionAction::SendTCP(AnyPacket::App(AppPacket::ConnectionIdling(packet))),
                    ),
                );
                false
            },
            None => true,
        }
    }

    /// The member of the room with the id, if it is one: the id itself
    /// names the member's queue.
    pub fn get_sender(&self, room_id: &String, connection_id: i32) -> (r: Option<i32>)
        ensures
            r == if member_of(self.rooms(), room_id@, connection_id) {
                Some(connection_id)
            } else {
                None::<i32>
            },
    {
        if self.is_in_room(&connection_id, room_id) {
            Some(connection_id)
        } else {
            None
        }
    }

    /// Whether the connection is a member of the room.
    pub fn is_in_room(&self, connection_id: &i32, room_id: &String) -> (b: bool)
        ensures
            b == member_of(self.rooms(), room_id@, *connection_id),
    {
        match self.get_room(room_id) {
            Some(room) => contains_id(&room.members, *connection_id),
            None => false,
        }
    }

    /// Whether a connection may join the room with the password: `None` for
    /// an unknown room; `Some(false)` when the room has another password.
    pub fn password_accepts(&self, room_id: &String, password: &String) -> (r: Option<bool>)
        ensures
            match r {
                None => !self.rooms().contains_key(room_id@),
                Some(ok) => self.rooms().contains_key(room_id@) && ok == match self.rooms()[room_id@].password {
                    Some(p) => p == password@,
                    None => true,
                },
            },
    {
        match self.get_room(room_id) {
            Some(room) => match &room.password {
                Some(p) => Some(*p == *password),
                None => Some(true),
            },
            None => None,
        }
    }

    /// Stores the host's new stats, received at `now_ms`, and gives a copy of
    /// the updated room; `None` for an unknown room.
    pub fn update_stats(&mut self, room_id: &String, stats: Stats, now_ms: u128) -> (r: Option<Room>)
        ensures
            rooms_wf(old(self).rooms()) && rooms_wf(final(self).rooms()),
            match r {
                Some(room) => old(self).rooms().contains_key(room_id@)
                    && room@ == with_stats(old(self).rooms()[room_id@], stats@, now_ms)
                    && final(self).rooms() == old(self).rooms().insert(room_id@, room@),
                None => !old(self).rooms().contains_key(room_id@) && final(self).rooms() == old(
                    self,
                ).rooms(),
            },
    {
        match self.take(room_id) {
            Some(mut room) => {
                let sent_at = stats.created_at;
                room.stats = stats;
                room.updated_at = now_ms;
                room.ping = if now_ms >= sent_at {
                    now_ms - sent_at
                } else {
                    (u128::MAX - (sent_at - now_ms)) + 1
                };
                let copy = room.duplicate();
                let ghost rv = room@;
                self.put(room_id.clone(), room);
                assert(self.rooms() =~= old(self).rooms().insert(room_id@, rv));
                Some(copy)
            },
            None => None,
        }
    }
}


/// Whether some event is about the room with the id.
pub open spec fn has_event(events: Seq<RoomUpdateEvent>, id: Seq<char>) -> bool {
    exists|e: int| 0 <= e < events.len() && #[trigger] events[e].room_id@ == id
}

/// Whether each event is the view of a room under its id.
pub open spec fn lists_rooms_of(events: Seq<RoomUpdateEvent>, rooms: Map<Seq<char>, SpecRoom>) -> bool {
    forall|k: int|
        0 <= k < events.len() ==> rooms.contains_key(#[trigger] events[k].room_id@)
            && events[k].data@ == spec_room_view(rooms[events[k].room_id@])
}

/// Whether no two of the events are of one room.
pub open spec fn rooms_once(events: Seq<RoomUpdateEvent>) -> bool {
    forall|a: int, b: int|
        0 <= a < b < events.len() ==> #[trigger] events[a].room_id@ != #[trigger] events[b].room_id@
}

/// Whether the events list the rooms: each event is the view of a room
/// under its id, each room has an event, and none has two.
pub open spec fn lists_rooms(events: Seq<RoomUpdateEvent>, rooms: Map<Seq<char>, SpecRoom>) -> bool {
    &&& lists_rooms_of(events, rooms)
    &&& forall|id: Seq<char>|
        #[trigger] rooms.contains_key(id) ==> exists|k: int|
            0 <= k < events.len() && #[trigger] events[k].room_id@ == id
    &&& rooms_once(events)
}

impl RoomState {
    /// Every room as a room-list update event, in no stated order.
    pub fn into_views(&self) -> (events: Vec<RoomUpdateEvent>)
        ensures
            lists_rooms(events@, self.rooms()),
    {
        let keys = room_map_keys(&self.rooms);
        let mut events: Vec<RoomUpdateEvent> = Vec::new();
        // the index in `keys` of each event's room
        let ghost mut from: Seq<int> = Seq::empty();
        let mut i: usize = 0;
        while i < keys.len()
            invariant
                i <= keys@.len(),
                forall|k: int| 0 <= k < keys@.len() ==> self.rooms().contains_key(#[trigger] keys@[k]@),
                forall|a: int, b: int|
                    0 <= a < b < keys@.len() ==> #[trigger] keys@[a]@ != #[trigger] keys@[b]@,
                lists_rooms_of(events@, self.rooms()),
                forall|k: int| 0 <= k < i ==> has_event(events@, #[trigger] keys@[k]@),
                from.len() == events@.len(),
                forall|e: int|
                    0 <= e < events@.len() ==> 0 <= #[trigger] from[e] < i && events@[e].room_id@
                        == keys@[from[e]]@,
                forall|a: int, b: int| 0 <= a < b < from.len() ==> #[trigger] from[a] < #[trigger] from[b],
            decreases keys@.len() - i,
        {
            let key = &keys[i];
            match self.get_room(key) {
                Some(room) => {
                    let ghost before = events@;
                    events.push(RoomUpdateEvent { room_id: key.clone(), data: RoomView::from(&room) });
                    proof {
                        from = from.push(i as int);
                    }
                    assert forall|k: int| 0 <= k < i + 1 implies has_event(events@, #[trigger] keys@[k]@) by {
                        if k < i {
                            let e = choose|e: int| 0 <= e < before.len() && #[trigger] before[e].room_id@ == keys@[k]@;
                            assert(events@[e] == before[e]);
                        } else {
                            assert(events@[before.len() as int].room_id@ == keys@[k]@);
                        }
                    }
                },
                None => {},
            }
            i = i + 1;
        }
        proof {
            assert forall|id: Seq<char>| #[trigger] self.rooms().contains_key(id) implies exists|
                e: int,
            | 0 <= e < events@.len() && #[trigger] events@[e].room_id@ == id by {
                let k = choose|k: int| 0 <= k < keys@.len() && #[trigger] keys@[k]@ == id;
                assert(has_event(events@, keys@[k]@));
            }
            assert forall|a: int, b: int| 0 <= a < b < events@.len() implies #[trigger] events@[a].room_id@
                != #[trigger] events@[b].room_id@ by {
                assert(from[a] < from[b]);
                assert(keys@[from[a]]@ != keys@[from[b]]@);
            }
        }
        events
    }
}

/// The state shared by every connection: the configuration, the rooms, the
/// ids of the open connections, and the connection of each UDP address
/// that was registered.
pub struct AppState {
    pub config: Config,
    pub room_state: RoomState,
    pub connections: DashMap<i32, ()>,
    pub udp_routes: DashMap<String, i32>,
}

impl AppState {
    /// The ids of the open connections.
    pub open spec fn connections(&self) -> Set<i32> {
        connection_ids(self.connections)
    }

    /// The connection of each registered UDP address.
    pub open spec fn routes(&self) -> Map<Seq<char>, i32> {
        route_entries(self.udp_routes)
    }

    /// A server without rooms, connections or routes.
    pub fn new(config: Config) -> (s: AppState)
        ensures
            s.config == config,
            s.room_state.rooms() == Map::<Seq<char>, SpecRoom>::empty(),
            s.connections() == Set::<i32>::empty(),
            s.routes() == Map::<Seq<char>, i32>::empty(),
    {
        let s = AppState {
            config,
            room_state: RoomState::new(),
            connections: new_connection_map(),
            udp_routes: new_route_map(),
        };
        assert(s.routes() =~= Map::<Seq<char>, i32>::empty());
        s
    }

    /// Records an open connection.
    pub fn register_connection(&mut self, id: i32)
        ensures
            final(self).connections() == old(self).connections().insert(id),
            final(self).routes() == old(self).routes(),
            final(self).room_state == old(self).room_state,
            final(self).config == old(self).config,
    {
        connection_map_insert(&mut self.connections, id);
    }

    /// Whether a connection with the id is open.
    pub fn has_connection_id(&self, id: i32) -> (b: bool)
        ensures
            b == self.connections().contains(id),
    {
        connection_map_contains(&self.connections, id)
    }

    /// The open connection with the id, if any: the id itself names the
    /// connection's queue.
    pub fn get_sender(&self, id: i32) -> (r: Option<i32>)
        ensures
            r == if self.connections().contains(id) {
                Some(id)
            } else {
                None::<i32>
            },
    {
        if self.has_connection_id(id) {
            Some(id)
        } else {
            None
        }
    }

    /// Routes datagrams from the address to the connection.
    pub fn register_udp(&mut self, addr: String, id: i32)
        ensures
            final(self).routes() == old(self).routes().insert(addr@, id),
            final(self).connections() == old(self).connections(),
            final(self).room_state == old(self).room_state,
            final(self).config == old(self).config,
    {
        route_map_insert(&mut self.udp_routes, addr, id);
    }

    /// Forgets the route of the address.
    pub fn remove_udp(&mut self, addr: &String)
        ensures
            final(self).routes() == old(self).routes().remove(addr@),
            final(self).connections() == old(self).connections(),
            final(self).room_state == old(self).room_state,
            final(self).config == old(self).config,
    {
        route_map_remove(&mut self.udp_routes, addr);
    }

    /// The connection that the address routes to.
    pub fn get_route(&self, addr: &String) -> (r: Option<i32>)
        ensures
            r == if self.routes().contains_key(addr@) {
                Some(self.routes()[addr@])
            } else {
                None::<i32>
            },
    {
        route_map_get(&self.udp_routes, addr)
    }

    /// Tells the host of the room that the connection is idle (see
    /// `RoomState::idle`).
    pub fn idle(&self, connection_id: i32, room_id: &String, out: &mut Vec<Effect>) -> (settled:
        bool)
        ensures
            settled == (!self.room_state.rooms().contains_key(room_id@)
                || self.room_state.rooms()[room_id@].host_connection_id == connection_id),
            settled ==> final(out)@ == old(out)@,
            !settled ==> effects_view(final(out)@) == effects_view(old(out)@).push(
                send_app(
                    self.room_state.rooms()[room_id@].host_connection_id,
                    SpecAppPacket::ConnectionIdling { connection_id },
                ),
            ),
    {
        self.room_state.idle(connection_id, room_id, out)
    }
}


impl AppState {
    /// Forgets a closed connection; when it was in a room, it leaves the room,
    /// and a room it hosted is closed.
    pub fn remove_connection(
        &mut self,
        connection_id: i32,
        room_id: Option<String>,
        out: &mut Vec<Effect>,
    )
        ensures
            final(self).connections() == old(self).connections().remove(connection_id),
            final(self).routes() == old(self).routes(),
            final(self).config == old(self).config,
            match room_id {
                None => final(self).room_state.rooms() == old(self).room_state.rooms()
                    && final(out)@ == old(out)@,
                Some(r) => {
                    let rooms = old(self).room_state.rooms();
                    if !rooms.contains_key(r@) {
                        final(self).room_state.rooms() == rooms && final(out)@ == old(out)@
                    } else {
                        let room = rooms[r@];
                        let left = without_member(room.members, connection_id);
                        let told_host = effects_view(old(out)@).push(
                            send_app(
                                room.host_connection_id,
                                SpecAppPacket::ConnectionClosed {
                                    connection_id,
                                    reason: ConnectionCloseReason::Closed,
                                },
                            ),
                        );
                        if room.host_connection_id == connection_id {
                            &&& final(self).room_state.rooms() == rooms.remove(r@)
                            &&& effects_view(final(out)@) == told_host + close_effects(left) + seq![
                                SpecEffect::Publish(SpecRoomUpdate::Remove(r@)),
                            ]
                        } else {
                            &&& final(self).room_state.rooms() == rooms.insert(
                                r@,
                                with_members(room, left),
                            )
                            &&& effects_view(final(out)@) == told_host
                        }
                    }
                },
            },
    {
        connection_map_remove(&mut self.connections, connection_id);
        if let Some(room_id) = room_id {
            self.room_state.leave(connection_id, &room_id, out);
            let should_close = match self.room_state.get_room(&room_id) {
                Some(room) => room.is_host(connection_id),
                None => false,
            };
            if should_close {
                self.room_state.close(&room_id, out);
                assert(self.room_state.rooms() =~= old(self).room_state.rooms().remove(room_id@));
            }
        }
    }
}

/// A connection that joins a room is a member of it afterwards, every
/// member stays one, and the other rooms are untouched.
pub proof fn lemma_join_makes_member(rooms: Map<Seq<char>, SpecRoom>, r: Seq<char>, c: i32)
    requires
        rooms.contains_key(r),
    ensures
        member_of(joined(rooms, r, c), r, c),
        forall|m: i32| member_of(rooms, r, m) ==> #[trigger] member_of(joined(rooms, r, c), r, m),
        forall|o: Seq<char>| o != r ==> #[trigger] joined(rooms, r, c).get(o) == rooms.get(o),
{
    lemma_with_member(rooms[r].members, c);
}

/// A connection that leaves a room is no member of it afterwards, every
/// other member stays one, and the other rooms are untouched.
pub proof fn lemma_leave_ends_membership(rooms: Map<Seq<char>, SpecRoom>, r: Seq<char>, c: i32)
    requires
        rooms.contains_key(r),
    ensures
        !member_of(departed(rooms, r, c), r, c),
        forall|m: i32|
            m != c ==> (#[trigger] member_of(departed(rooms, r, c), r, m) <==> member_of(
                rooms,
                r,
                m,
            )),
        forall|o: Seq<char>| o != r ==> #[trigger] departed(rooms, r, c).get(o) == rooms.get(o),
{
    lemma_without_member(rooms[r].members, c);
}

proof fn lemma_without_absent(members: Seq<i32>, c: i32)
    requires
        !members.contains(c),
    ensures
        without_member(members, c) == members,
    decreases members.len(),
{
    if members.len() > 0 {
        assert(!members.drop_last().contains(c)) by {
            if members.drop_last().contains(c) {
                let k = choose|k: int| 0 <= k < members.len() - 1 && members.drop_last()[k] == c;
                assert(members[k] == c);
            }
        }
        lemma_without_absent(members.drop_last(), c);
        assert(members[members.len() - 1] != c);
        assert(members.drop_last().push(members.last()) =~= members);
    }
}

/// Leaving undoes joining: a connection that was no member of a room, and
/// joins then leaves it, leaves the rooms as they were.
pub proof fn lemma_leave_undoes_join(rooms: Map<Seq<char>, SpecRoom>, r: Seq<char>, c: i32)
    requires
        rooms.contains_key(r),
        !member_of(rooms, r, c),
    ensures
        departed(joined(rooms, r, c), r, c) == rooms,
{
    let m = rooms[r].members;
    assert(with_member(m, c) == m.push(c));
    assert(m.push(c).drop_last() =~= m);
    lemma_without_absent(m, c);
    assert(without_member(m.push(c), c) == m);
    assert(with_members(rooms[r], m) == rooms[r]);
    assert(departed(joined(rooms, r, c), r, c) =~= rooms);
}

/// Closing undoes opening: a room opened under an id no room had, then
/// closed, leaves the rooms as they were.
pub proof fn lemma_close_undoes_create(
    rooms: Map<Seq<char>, SpecRoom>,
    connection_id: i32,
    password: Seq<char>,
    stats: SpecStats,
    protocol_version: Seq<char>,
    id: Seq<char>,
    now_ms: u128,
)
    requires
        !rooms.contains_key(id),
    ensures
        rooms.insert(
            id,
            spec_new_room(connection_id, password, stats, protocol_version, id, now_ms),
        ).remove(id) == rooms,
        rooms.insert(
            id,
            spec_new_room(connection_id, password, stats, protocol_version, id, now_ms),
        )[id].host_connection_id == connection_id,
{
    assert(rooms.insert(
        id,
        spec_new_room(connection_id, password, stats, protocol_version, id, now_ms),
    ).remove(id) =~= rooms);
}

/// Joining and leaving keep a room's members distinct: a member list
/// without repeats keeps none after either.
pub proof fn lemma_members_stay_distinct(members: Seq<i32>, c: i32)
    requires
        members.no_duplicates(),
    ensures
        with_member(members, c).no_duplicates(),
        without_member(members, c).no_duplicates(),
    decreases members.len(),
{
    if !members.contains(c) {
        let p = members.push(c);
        assert forall|i: int, j: int| 0 <= i < j < p.len() implies p[i] != p[j] by {
            if j == members.len() {
                assert(members[i] == p[i]);
            }
        }
    }
    if members.len() > 0 {
        let init = members.drop_last();
        assert(init.no_duplicates());
        lemma_members_stay_distinct(init, c);
        lemma_without_member(init, c);
        let rest = without_member(init, c);
        if members.last() != c {
            assert(!init.contains(members.last())) by {
                if init.contains(members.last()) {
                    let k = choose|k: int| 0 <= k < init.len() && init[k] == members.last();
                    assert(members[k] == members[members.len() - 1]);
                }
            }
            let p = rest.push(members.last());
            assert forall|i: int, j: int| 0 <= i < j < p.len() implies p[i] != p[j] by {
                if j == rest.len() {
                    assert(rest.contains(p[i]));
                }
            }
        }
    }
}

proof fn lemma_contains_split<T>(s: Seq<T>)
    requires
        s.len() > 0,
    ensures
        forall|x: T| #[trigger] s.contains(x) <==> (s.drop_last().contains(x) || x == s.last()),
{
    assert forall|x: T| #[trigger] s.contains(x) <==> (s.drop_last().contains(x) || x == s.last()) by {
        if s.contains(x) {
            let k = choose|k: int| 0 <= k < s.len() && s[k] == x;
            if k < s.len() - 1 {
                assert(s.drop_last()[k] == x);
            }
        }
        if s.drop_last().contains(x) {
            let k = choose|k: int| 0 <= k < s.len() - 1 && s.drop_last()[k] == x;
            assert(s[k] == x);
        }
        if x == s.last() {
            assert(s[s.len() - 1] == x);
        }
    }
}

/// A broadcast reaches each member of the room but the excluded one, with
/// the action, and nobody else.
pub proof fn lemma_broadcast_reaches(
    members: Seq<i32>,
    action: SpecConnectionAction,
    exclude: Option<i32>,
)
    ensures
        forall|m: i32|
            #[trigger] broadcast_effects(members, action, exclude).contains(
                SpecEffect::Send(m, action),
            ) <==> (members.contains(m) && exclude != Some(m)),
        forall|e: SpecEffect|
            #[trigger] broadcast_effects(members, action, exclude).contains(e) ==> exists|m: i32|
                e == SpecEffect::Send(m, action) && #[trigger] members.contains(m),
    decreases members.len(),
{
    let all = broadcast_effects(members, action, exclude);
    if members.len() > 0 {
        let init = members.drop_last();
        let last = members.last();
        lemma_broadcast_reaches(init, action, exclude);
        lemma_contains_split(members);
        let rest = broadcast_effects(init, action, exclude);
        if exclude != Some(last) {
            lemma_contains_split(all);
            assert(all.drop_last() == rest);
        }
        assert forall|e: SpecEffect| #[trigger] all.contains(e) implies exists|m: i32|
            e == SpecEffect::Send(m, action) && #[trigger] members.contains(m) by {
            if rest.contains(e) {
                let m = choose|m: i32| e == SpecEffect::Send(m, action) && #[trigger] init.contains(m);
                assert(members.contains(m));
            } else {
                assert(members.contains(last));
            }
        }
    }
}

/// Closing a room tells each member, in member order, that the room
/// closed and then to close, and tells nobody else anything.
pub proof fn lemma_close_reaches(members: Seq<i32>)
    ensures
        close_effects(members).len() == members.len() + members.len(),
        forall|i: int|
            0 <= i < members.len() ==> {
                &&& #[trigger] close_effects(members)[i + i] == send_app(
                    members[i],
                    SpecAppPacket::RoomClosed { reason: RoomCloseReason::Closed },
                )
                &&& close_effects(members)[i + i + 1] == SpecEffect::Send(
                    members[i],
                    SpecConnectionAction::Close(ConnectionCloseReason::Closed),
                )
            },
    decreases members.len(),
{
    if members.len() > 0 {
        let init = members.drop_last();
        lemma_close_reaches(init);
        let rest = close_effects(init);
        let all = close_effects(members);
        assert forall|i: int| 0 <= i < members.len() implies {
            &&& #[trigger] all[i + i] == send_app(
                members[i],
                SpecAppPacket::RoomClosed { reason: RoomCloseReason::Closed },
            )
            &&& all[i + i + 1] == SpecEffect::Send(
                members[i],
                SpecConnectionAction::Close(ConnectionCloseReason::Closed),
            )
        } by {
            if i < init.len() {
                assert(init[i] == members[i]);
                assert(rest[i + i] == all[i + i]);
                assert(rest[i + i + 1] == all[i + i + 1]);
            }
        }
    }
}

/// A UDP address that is registered routes to its connection, and
/// forgetting an address that had no route undoes registering it.
pub proof fn lemma_route_round_trip(routes: Map<Seq<char>, i32>, addr: Seq<char>, id: i32)
    ensures
        routes.insert(addr, id).contains_key(addr),
        routes.insert(addr, id)[addr] == id,
        !routes.contains_key(addr) ==> routes.insert(addr, id).remove(addr) == routes,
        !routes.insert(addr, id).remove(addr).contains_key(addr),
{
    if !routes.contains_key(addr) {
        assert(routes.insert(addr, id).remove(addr) =~= routes);
    }
}

/// What keeps hosts apart from their rooms' members: a connection other
/// than the host joining, any connection leaving, a room opening (with no
/// member), a room closing, and new stats.  (A host joining its own room
/// would list it; the connections never ask for that, as a host is refused
/// every join.)
pub proof fn lemma_hosts_stay_apart(
    rooms: Map<Seq<char>, SpecRoom>,
    r: Seq<char>,
    c: i32,
    new_room: SpecRoom,
    stats: SpecStats,
    now_ms: u128,
)
    requires
        hosts_apart(rooms),
    ensures
        rooms.contains_key(r) && c != rooms[r].host_connection_id ==> hosts_apart(
            joined(rooms, r, c),
        ),
        rooms.contains_key(r) ==> hosts_apart(departed(rooms, r, c)),
        new_room.members.len() == 0 ==> hosts_apart(rooms.insert(r, new_room)),
        hosts_apart(rooms.remove(r)),
        rooms.contains_key(r) ==> hosts_apart(rooms.insert(r, with_stats(rooms[r], stats, now_ms))),
{
    if rooms.contains_key(r) {
        lemma_with_member(rooms[r].members, c);
        lemma_without_member(rooms[r].members, c);
    }
}

/// Closing a room tells nothing to a connection that is no member of it,
/// its host included when hosts stay apart.
pub proof fn lemma_close_spares_host(members: Seq<i32>, host: i32)
    requires
        !members.contains(host),
    ensures
        forall|k: int|
            0 <= k < close_effects(members).len() ==> !(#[trigger] close_effects(members)[k]
                matches SpecEffect::Send(t, _) && t == host),
{
    lemma_close_reaches(members);
    assert forall|k: int| 0 <= k < close_effects(members).len() implies !(
    #[trigger] close_effects(members)[k] matches SpecEffect::Send(t, _) && t == host) by {
        let i = k / 2;
        assert(k == i + i || k == i + i + 1) by (nonlinear_arith)
            requires
                0 <= k,
                i == k / 2,
        ;
        assert(0 <= i < members.len());
        assert(members[i] != host) by {
            if members[i] == host {
                assert(members.contains(host));
            }
        }
        let e = close_effects(members)[i + i];
        let f = close_effects(members)[i + i + 1];
    }
}

/// A broadcast to distinct members hands each of them the action once: no
/// effect repeats.
pub proof fn lemma_broadcast_once(
    members: Seq<i32>,
    action: SpecConnectionAction,
    exclude: Option<i32>,
)
    requires
        members.no_duplicates(),
    ensures
        broadcast_effects(members, action, exclude).no_duplicates(),
    decreases members.len(),
{
    if members.len() > 0 {
        let init = members.drop_last();
        let last = members.last();
        assert(init.no_duplicates());
        lemma_broadcast_once(init, action, exclude);
        lemma_broadcast_reaches(init, action, exclude);
        let rest = broadcast_effects(init, action, exclude);
        if exclude != Some(last) {
            assert(!init.contains(last)) by {
                if init.contains(last) {
                    let k = choose|k: int| 0 <= k < init.len() && init[k] == last;
                    assert(members[k] == members[members.len() - 1]);
                }
            }
            assert(!rest.contains(SpecEffect::Send(last, action)));
            let p = rest.push(SpecEffect::Send(last, action));
            assert forall|a: int, b: int| 0 <= a < b < p.len() implies p[a] != p[b] by {
                if b == rest.len() {
                    assert(rest.contains(p[a]));
                }
            }
        }
    }
}

} // verus!
