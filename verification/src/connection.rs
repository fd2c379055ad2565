//! What one connection decides: how it cuts its TCP stream into packets,
//! how it answers each packet and each action handed to it, and what the
//! server does for it meanwhile.  Every decision is returned as effects
//! that the server carries out.
use crate::codec::{len_header, ByteCursor};
use crate::constant::{ConnectionCloseReason, MessageType};
use crate::models::{SpecStats, Stats};
use crate::packets::{
    copy_bytes, RoomCreationRequestPacket, RoomJoinPacket, StatsPacket,
    spec_payload, spec_prepend_len, AnyPacket, AppPacket, ConnectionClosedPacket,
    ConnectionPacketWrapPacket, FrameworkMessage, Message2Packet, MessagePacket, PopupPacket,
    RoomLinkPacket, SpecAnyPacket, SpecAppPacket, Decoded, spec_read_any,
};
use crate::rate::RateLimiter;
use crate::state::{
    broadcast_effects, idle_result, new_room_id, uuid_v7_sample, uuid_v7_text, close_effects, SendOutcome, emit, effects_view, member_of, send_app, spec_new_room, with_member,
    with_members, with_stats, without_member, AppState, ConnectionAction, Effect, RoomInit,
    RoomUpdate, SpecConnectionAction, SpecEffect, SpecRoom, SpecRoomUpdate,
};
use vstd::prelude::*;

verus! {

/// Bytes of the length header in front of each TCP packet.
pub const PACKET_LENGTH_LENGTH: usize = 2;

/// Raw packets kept for a connection that is in no room yet.
pub const PACKET_QUEUE_LIMIT: usize = 16;

/// Milliseconds without a write after which a keep-alive is written.
pub const KEEP_ALIVE_INTERVAL_MS: u128 = 3000;

/// Milliseconds without a read after which the connection times out.
pub const CONNECTION_TIME_OUT_MS: u128 = 30000;

/// The text of the popup sent for a packet that could not be read.
pub const OUTDATED_CLIENT_TEXT: &'static str =
    "Your version of MindustryTool is no longer supported. Please update to the latest version.";

/// Why a connection ends.
#[derive(Debug, Clone, Copy, PartialEq, Eq)]
pub enum ConnectionError {
    /// The rate limiter refused a frame.
    RateLimitExceeded,
    /// The rate limiter refused a packet of a member.
    PacketSpamming,
    /// A connection that hosts no room sent a wrapped packet.
    NotRoomOwner,
    /// The connection was told to close.
    Closed(ConnectionCloseReason),
    /// The connection is not registered with the server.
    NoSender,
    /// UDP bytes were to be sent before a UDP address was known.
    UdpNotRegistered,
    /// The room to join was gone.
    RoomNotFound,
    /// A room just opened could not be found.
    RoomMissing,
    /// Nothing was read for too long.
    TimedOut,
}

/// The room a connection is in, and whether it hosts it.
#[derive(Debug)]
pub struct ConnectionRoom {
    room_id: String,
    is_host: bool,
}

/// The value of a connection's room.
pub struct SpecRoomLink {
    pub room_id: Seq<char>,
    pub is_host: bool,
}

impl View for ConnectionRoom {
    type V = SpecRoomLink;

    closed spec fn view(&self) -> SpecRoomLink {
        SpecRoomLink { room_id: self.room_id@, is_host: self.is_host }
    }
}

impl ConnectionRoom {
    /// A link to the room.
    pub fn new(room_id: String, is_host: bool) -> (r: ConnectionRoom)
        ensures
            r@ == (SpecRoomLink { room_id: room_id@, is_host }),
    {
        ConnectionRoom { room_id, is_host }
    }

    /// The id of the room.
    pub fn room_id(&self) -> (id: &String)
        ensures
            id@ == self@.room_id,
    {
        &self.room_id
    }

    /// Whether the connection hosts the room.
    pub fn is_host(&self) -> (b: bool)
        ensures
            b == self@.is_host,
    {
        self.is_host
    }
}

/// What a connection remembers between events.
#[derive(Debug)]
pub struct ConnectionActor {
    pub id: i32,
    pub packet_queue: Vec<Vec<u8>>,
    pub room: Option<ConnectionRoom>,
    pub udp_addr: Option<String>,
    pub notified_idle: bool,
}

/// The value of a connection's memory.
pub struct SpecConn {
    pub id: i32,
    pub queue: Seq<Seq<u8>>,
    pub room: Option<SpecRoomLink>,
    pub udp_addr: Option<Seq<char>>,
    pub notified_idle: bool,
}

/// The values of a list of byte buffers.
pub open spec fn buffers_view(q: Seq<Vec<u8>>) -> Seq<Seq<u8>> {
    q.map_values(|b: Vec<u8>| b@)
}

impl View for ConnectionActor {
    type V = SpecConn;

    open spec fn view(&self) -> SpecConn {
        SpecConn {
            id: self.id,
            queue: buffers_view(self.packet_queue@),
            room: match self.room {
                Some(r) => Some(r@),
                None => None,
            },
            udp_addr: match self.udp_addr {
                Some(a) => Some(a@),
                None => None,
            },
            notified_idle: self.notified_idle,
        }
    }
}

/// The shared state as the connection logic reads it.
pub struct SpecWorld {
    pub rooms: Map<Seq<char>, SpecRoom>,
    pub connections: Set<i32>,
    pub routes: Map<Seq<char>, i32>,
}

/// The value of the shared state.
pub open spec fn world(s: &AppState) -> SpecWorld {
    SpecWorld { rooms: s.room_state.rooms(), connections: s.connections(), routes: s.routes() }
}

/// Writing a packet to the connection's own TCP stream: the packet behind
/// its length header, behind the length of that.
pub open spec fn write_effect(p: SpecAnyPacket) -> SpecEffect {
    SpecEffect::Write(spec_prepend_len(spec_prepend_len(spec_payload(p))))
}

/// Writing an application packet to the connection's own TCP stream.
pub open spec fn write_app(p: SpecAppPacket) -> SpecEffect {
    write_effect(SpecAnyPacket::App(p))
}

/// Writes a packet to the connection's own TCP stream.
fn write_packet(p: AnyPacket, out: &mut Vec<Effect>)
    requires
        p@.is_writable(),
    ensures
        effects_view(final(out)@) == effects_view(old(out)@).push(write_effect(p@)),
{
    let bytes = p.to_bytes();
    let framed = AnyPacket::prepend_len(bytes);
    emit(out, Effect::Write(framed));
}

/// The next step of cutting a TCP stream into packets.
#[derive(Debug)]
pub enum FrameStep {
    /// The buffer holds no whole packet yet.
    Incomplete,
    /// The rate limiter refused the packet.
    RateLimited,
    /// A packet's bytes, without their length header.
    Frame(Vec<u8>),
}

/// What the next packet of a TCP stream is, once read.
#[derive(Debug)]
pub enum FrameRead {
    /// The buffer holds no whole packet yet.
    Incomplete,
    /// The rate limiter refused the packet: the connection ends.
    RateLimited,
    /// A packet that was read.
    Packet(AnyPacket),
    /// A packet that could not be read; the client was told that its
    /// version is no longer supported.
    Unreadable,
    /// A packet that ends inside a fixed-width field.
    Truncated,
}

/// Whether the buffer holds a length header.
pub open spec fn has_header(buf: Seq<u8>) -> bool {
    buf.len() >= PACKET_LENGTH_LENGTH
}

/// The length that the header at the front of the buffer announces.
pub open spec fn announced_len(buf: Seq<u8>) -> int {
    crate::codec::u16_be(buf[0], buf[1]) as int
}

/// Cutting undoes framing: a buffer that begins with a payload behind its
/// length header (a payload shorter than 2^16 bytes) announces the
/// payload's length, and the frame taken off it is the payload, with what
/// followed it left over.
pub proof fn lemma_frame_round_trip(payload: Seq<u8>, rest: Seq<u8>)
    requires
        payload.len() < 0x1_0000,
    ensures
        ({
            let buf = spec_prepend_len(payload) + rest;
            &&& has_header(buf)
            &&& announced_len(buf) == payload.len()
            &&& buf.subrange(2, 2 + payload.len() as int) == payload
            &&& buf.subrange(2 + payload.len() as int, buf.len() as int) == rest
        }),
{
    let buf = spec_prepend_len(payload) + rest;
    let n = payload.len() as int;
    crate::codec::lemma_u16_roundtrip((n % 0x1_0000) as u16);
    assert(buf[0] == len_header(payload.len())[0]);
    assert(buf[1] == len_header(payload.len())[1]);
    assert(buf.subrange(2, 2 + n) =~= payload);
    assert(buf.subrange(2 + n, buf.len() as int) =~= rest);
}

impl ConnectionActor {
    /// A connection that is in no room and has nothing queued.
    pub fn new(id: i32) -> (c: ConnectionActor)
        ensures
            c@ == (SpecConn {
                id,
                queue: Seq::empty(),
                room: None,
                udp_addr: None,
                notified_idle: false,
            }),
    {
        let c = ConnectionActor {
            id,
            packet_queue: Vec::new(),
            room: None,
            udp_addr: None,
            notified_idle: false,
        };
        assert(buffers_view(c.packet_queue@) =~= Seq::empty());
        c
    }

    /// Takes the next packet off the front of the TCP buffer.  Once a length
    /// header is there, every call asks the rate limiter, whether or not the
    /// whole packet has arrived.
    pub fn next_frame(&self, buf: &mut Vec<u8>, limiter: &mut RateLimiter, now: u128) -> (r:
        FrameStep)
        ensures
            !has_header(old(buf)@) ==> r is Incomplete && final(buf)@ == old(buf)@,
            !has_header(old(buf)@) ==> *final(limiter) == *old(limiter),
            has_header(old(buf)@) ==> {
                let n = announced_len(old(buf)@);
                exists|allowed: bool|
                    {
                        &&& old(limiter).spec_allow(now, &*final(limiter), allowed)
                        &&& if !allowed {
                            r is RateLimited && final(buf)@ == old(buf)@
                        } else if old(buf)@.len() < 2 + n {
                            r is Incomplete && final(buf)@ == old(buf)@
                        } else {
                            &&& r matches FrameStep::Frame(p) && p@ == old(buf)@.subrange(2, 2 + n)
                            &&& final(buf)@ == old(buf)@.subrange(2 + n, old(buf)@.len() as int)
                        }
                    }
            },
    {
        if buf.len() < PACKET_LENGTH_LENGTH {
            return FrameStep::Incomplete;
        }
        let len = (buf[0] as u16 * 256 + buf[1] as u16) as usize;
        let allowed = limiter.allow_at(now);
        if !allowed {
            return FrameStep::RateLimited;
        }
        if buf.len() < PACKET_LENGTH_LENGTH + len {
            return FrameStep::Incomplete;
        }
        let payload = vstd::slice::slice_to_vec(
            vstd::slice::slice_subrange(buf.as_slice(), 2, 2 + len),
        );
        let rest = vstd::slice::slice_to_vec(
            vstd::slice::slice_subrange(buf.as_slice(), 2 + len, buf.len()),
        );
        *buf = rest;
        FrameStep::Frame(payload)
    }

    /// Answers a packet that could not be read: a popup telling the client
    /// that its version is no longer supported.
    pub fn handle_read_error(&self, out: &mut Vec<Effect>)
        ensures
            effects_view(final(out)@) == effects_view(old(out)@).push(
                write_app(SpecAppPacket::Popup { message: OUTDATED_CLIENT_TEXT@ }),
            ),
    {
        let message = String::from_str(OUTDATED_CLIENT_TEXT);
        write_packet(AnyPacket::App(AppPacket::Popup(PopupPacket { message })), out);
    }

    /// Takes the next packet off the front of the TCP buffer and reads it:
    /// the frame as `next_frame` cuts it, then the packet in it.  A packet
    /// that cannot be read is answered as `handle_read_error` answers it.
    pub fn take_packet(
        &self,
        buf: &mut Vec<u8>,
        limiter: &mut RateLimiter,
        now: u128,
        out: &mut Vec<Effect>,
    ) -> (r: FrameRead)
        ensures
            !has_header(old(buf)@) ==> {
                &&& r is Incomplete
                &&& final(buf)@ == old(buf)@
                &&& *final(limiter) == *old(limiter)
                &&& final(out)@ == old(out)@
            },
            has_header(old(buf)@) ==> {
                let n = announced_len(old(buf)@);
                exists|allowed: bool|
                    {
                        &&& old(limiter).spec_allow(now, &*final(limiter), allowed)
                        &&& if !allowed {
                            r is RateLimited && final(buf)@ == old(buf)@ && final(out)@ == old(out)@
                        } else if old(buf)@.len() < 2 + n {
                            r is Incomplete && final(buf)@ == old(buf)@ && final(out)@ == old(out)@
                        } else {
                            &&& final(buf)@ == old(buf)@.subrange(2 + n, old(buf)@.len() as int)
                            &&& match spec_read_any(old(buf)@.subrange(2, 2 + n), 0) {
                                Decoded::Done(p, _) => r matches FrameRead::Packet(q) && q@ == p
                                    && final(out)@ == old(out)@,
                                Decoded::Failed(_) => r is Unreadable && effects_view(final(out)@)
                                    == effects_view(old(out)@).push(
                                    write_app(SpecAppPacket::Popup { message: OUTDATED_CLIENT_TEXT@ }),
                                ),
                                Decoded::Truncated => r is Truncated && final(out)@ == old(out)@,
                            }
                        }
                    }
            },
    {
        match self.next_frame(buf, limiter, now) {
            FrameStep::Incomplete => FrameRead::Incomplete,
            FrameStep::RateLimited => FrameRead::RateLimited,
            FrameStep::Frame(payload) => {
                let mut cursor = ByteCursor::new(payload);
                match AnyPacket::try_read(&mut cursor) {
                    Some(Ok(packet)) => FrameRead::Packet(packet),
                    Some(Err(_)) => {
                        self.handle_read_error(out);
                        FrameRead::Unreadable
                    },
                    None => FrameRead::Truncated,
                }
            },
        }
    }

    /// The periodic check: a keep-alive when nothing was written for too
    /// long, then a time-out when nothing was read for too long.
    pub fn tick(&self, since_write_ms: u128, since_read_ms: u128, out: &mut Vec<Effect>) -> (r:
        Result<(), ConnectionError>)
        ensures
            effects_view(final(out)@) == if since_write_ms > KEEP_ALIVE_INTERVAL_MS {
                effects_view(old(out)@).push(
                    write_effect(SpecAnyPacket::Framework(FrameworkMessage::KeepAlive)),
                )
            } else {
                effects_view(old(out)@)
            },
            r == if since_read_ms > CONNECTION_TIME_OUT_MS {
                Err::<(), ConnectionError>(ConnectionError::TimedOut)
            } else {
                Ok(())
            },
    {
        if since_write_ms > KEEP_ALIVE_INTERVAL_MS {
            write_packet(AnyPacket::Framework(FrameworkMessage::KeepAlive), out);
        }
        if since_read_ms > CONNECTION_TIME_OUT_MS {
            return Err(ConnectionError::TimedOut);
        }
        Ok(())
    }

    /// Answers a framework message: a ping that is not a reply is answered
    /// with its reply; the rest needs no answer.  A UDP registration never
    /// comes here: the UDP listener handles it.
    pub fn handle_framework(&self, packet: FrameworkMessage, out: &mut Vec<Effect>)
        requires
            !(packet is RegisterUDP),
        ensures
            effects_view(final(out)@) == match packet {
                FrameworkMessage::Ping { id, is_reply } => if !is_reply {
                    effects_view(old(out)@).push(
                        write_effect(
                            SpecAnyPacket::Framework(FrameworkMessage::Ping { id, is_reply: true }),
                        ),
                    )
                } else {
                    effects_view(old(out)@)
                },
                _ => effects_view(old(out)@),
            },
    {
        match packet {
            FrameworkMessage::Ping { id, is_reply } => {
                if !is_reply {
                    write_packet(
                        AnyPacket::Framework(FrameworkMessage::Ping { id, is_reply: true }),
                        out,
                    );
                }
            },
            _ => {},
        }
    }
}


/// What handling one event does: the connection's memory after it, the
/// rooms after it, the effects, in order, and whether the connection goes on.
pub struct SpecStep {
    pub conn: SpecConn,
    pub rooms: Map<Seq<char>, SpecRoom>,
    pub effects: Seq<SpecEffect>,
    pub result: Result<(), ConnectionError>,
}

/// A step that changes nothing and emits the effects.
pub open spec fn only(
    c: SpecConn,
    rooms: Map<Seq<char>, SpecRoom>,
    effects: Seq<SpecEffect>,
) -> SpecStep {
    SpecStep { conn: c, rooms, effects, result: Ok(()) }
}

/// Whether an event's handling went as `step` says: the connection's memory,
/// the rooms and the effects are the step's, and the open connections and
/// UDP routes stay.
pub open spec fn follows(
    step: SpecStep,
    c1: SpecConn,
    w0: SpecWorld,
    w1: SpecWorld,
    e0: Seq<SpecEffect>,
    e1: Seq<SpecEffect>,
    r: Result<(), ConnectionError>,
) -> bool {
    &&& c1 == step.conn
    &&& w1.rooms == step.rooms
    &&& w1.connections == w0.connections
    &&& w1.routes == w0.routes
    &&& e1 == e0 + step.effects
    &&& r == step.result
}

/// The rooms and effects of a connection leaving a room: it is no member
/// any more and the host hears that it closed.
pub open spec fn spec_leave(rooms: Map<Seq<char>, SpecRoom>, c: i32, r: Seq<char>) -> (
    Map<Seq<char>, SpecRoom>,
    Seq<SpecEffect>,
) {
    if rooms.contains_key(r) {
        let room = rooms[r];
        (
            rooms.insert(r, with_members(room, without_member(room.members, c))),
            seq![
                send_app(
                    room.host_connection_id,
                    SpecAppPacket::ConnectionClosed {
                        connection_id: c,
                        reason: ConnectionCloseReason::Closed,
                    },
                ),
            ],
        )
    } else {
        (rooms, Seq::empty())
    }
}

/// Handing an action to the host of a room, if the room exists.
pub open spec fn forward_effects(
    rooms: Map<Seq<char>, SpecRoom>,
    r: Seq<char>,
    a: SpecConnectionAction,
) -> Seq<SpecEffect> {
    if rooms.contains_key(r) {
        seq![SpecEffect::Send(rooms[r].host_connection_id, a)]
    } else {
        Seq::empty()
    }
}

/// Closing a room, if it exists: each member hears it, then the room list.
pub open spec fn spec_close_effects(rooms: Map<Seq<char>, SpecRoom>, r: Seq<char>) -> Seq<
    SpecEffect,
> {
    if rooms.contains_key(r) {
        close_effects(rooms[r].members) + seq![SpecEffect::Publish(SpecRoomUpdate::Remove(r))]
    } else {
        Seq::empty()
    }
}

/// The raw packets queued before joining, handed to the host, wrapped as
/// UDP packets of the connection.
pub open spec fn queue_forwards(queue: Seq<Seq<u8>>, host: i32, id: i32) -> Seq<SpecEffect> {
    Seq::new(
        queue.len(),
        |k: int|
            SpecEffect::Send(
                host,
                SpecConnectionAction::SendTCP(
                    SpecAnyPacket::App(
                        SpecAppPacket::ConnectionPacketWrap {
                            connection_id: id,
                            is_tcp: false,
                            buffer: queue[k],
                        },
                    ),
                ),
            ),
    )
}

/// A member or host reports stats: a host's are stored, with the time and
/// the ping, and the room list hears of the room.
#[verifier::opaque]
pub open spec fn spec_stats(
    c: SpecConn,
    rooms: Map<Seq<char>, SpecRoom>,
    stats: SpecStats,
    now_ms: u128,
) -> SpecStep {
    match c.room {
        Some(link) => if rooms.contains_key(link.room_id) && link.is_host {
            let room = with_stats(rooms[link.room_id], stats, now_ms);
            only(
                c,
                rooms.insert(link.room_id, room),
                seq![SpecEffect::Publish(SpecRoomUpdate::Update { id: room.id, data: room })],
            )
        } else {
            only(c, rooms, Seq::empty())
        },
        None => only(c, rooms, Seq::empty()),
    }
}

/// A connection joins a room, once it is in none: an unknown room is
/// refused with a popup and a close notice, a wrong password with a message;
/// otherwise, when the connection is registered, it joins, the host hears of
/// it, and the raw packets it queued go to the host.
pub open spec fn spec_enter(
    c: SpecConn,
    rooms: Map<Seq<char>, SpecRoom>,
    connections: Set<i32>,
    target: Seq<char>,
    password: Seq<char>,
) -> SpecStep {
    if !rooms.contains_key(target) {
        only(
            c,
            rooms,
            seq![
                write_app(SpecAppPacket::Popup { message: "Room not found"@ }),
                write_app(
                    SpecAppPacket::ConnectionClosed {
                        connection_id: c.id,
                        reason: ConnectionCloseReason::Error,
                    },
                ),
            ],
        )
    } else if rooms[target].password matches Some(p) && p != password {
        only(c, rooms, seq![write_app(SpecAppPacket::Message { message: "Wrong password"@ })])
    } else if !connections.contains(c.id) {
        only(c, rooms, Seq::empty())
    } else {
        let room = rooms[target];
        only(
            SpecConn {
                room: Some(SpecRoomLink { room_id: target, is_host: false }),
                queue: Seq::empty(),
                ..c
            },
            rooms.insert(target, with_members(room, with_member(room.members, c.id))),
            seq![
                send_app(
                    room.host_connection_id,
                    SpecAppPacket::ConnectionJoin { connection_id: c.id, room_id: target },
                ),
            ] + queue_forwards(c.queue, room.host_connection_id, c.id),
        )
    }
}

/// A request to join a room: a host is refused; otherwise the connection
/// leaves its room, then enters the new one (see `spec_enter`).
#[verifier::opaque]
pub open spec fn spec_room_join(
    c: SpecConn,
    rooms: Map<Seq<char>, SpecRoom>,
    connections: Set<i32>,
    target: Seq<char>,
    password: Seq<char>,
) -> SpecStep {
    if c.room matches Some(link) && link.is_host {
        only(
            c,
            rooms,
            seq![write_app(SpecAppPacket::Message2 { message: MessageType::AlreadyHosting })],
        )
    } else {
        let (c1, rooms1, e1) = match c.room {
            Some(link) => {
                let (r, e) = spec_leave(rooms, c.id, link.room_id);
                (SpecConn { room: None, ..c }, r, e)
            },
            None => (c, rooms, Seq::empty()),
        };
        let s = spec_enter(c1, rooms1, connections, target, password);
        SpecStep { effects: e1 + s.effects, ..s }
    }
}

/// A request to open a room: refused to a connection in a room; otherwise
/// the room opens under `new_id`, the connection hosts it, hears its id, and
/// the room list hears of it.
#[verifier::opaque]
pub open spec fn spec_room_creation(
    c: SpecConn,
    rooms: Map<Seq<char>, SpecRoom>,
    connections: Set<i32>,
    version: Seq<char>,
    password: Seq<char>,
    stats: SpecStats,
    new_id: Seq<char>,
    now_ms: u128,
) -> SpecStep {
    if c.room is Some {
        only(
            c,
            rooms,
            seq![write_app(SpecAppPacket::Message2 { message: MessageType::AlreadyHosting })],
        )
    } else if !connections.contains(c.id) {
        only(c, rooms, Seq::empty())
    } else {
        let room = spec_new_room(c.id, password, stats, version, new_id, now_ms);
        only(
            SpecConn { room: Some(SpecRoomLink { room_id: new_id, is_host: true }), ..c },
            rooms.insert(new_id, room),
            seq![
                write_app(SpecAppPacket::RoomLink { room_id: new_id }),
                SpecEffect::Publish(SpecRoomUpdate::Update { id: new_id, data: room }),
            ],
        )
    }
}

/// A request to close the connection's room: refused to a member; a host's
/// room closes and the connection is in no room any more.
#[verifier::opaque]
pub open spec fn spec_room_closure(c: SpecConn, rooms: Map<Seq<char>, SpecRoom>) -> SpecStep {
    match c.room {
        Some(link) => if !link.is_host {
            only(
                c,
                rooms,
                seq![write_app(SpecAppPacket::Message2 { message: MessageType::RoomClosureDenied })],
            )
        } else {
            only(
                SpecConn { room: None, ..c },
                rooms.remove(link.room_id),
                spec_close_effects(rooms, link.room_id),
            )
        },
        None => only(c, rooms, Seq::empty()),
    }
}

/// A host closes a connection: refused to a member; a member of the host's
/// room hears the reason and is told to close.
#[verifier::opaque]
pub open spec fn spec_connection_closed(
    c: SpecConn,
    rooms: Map<Seq<char>, SpecRoom>,
    connections: Set<i32>,
    target: i32,
    reason: ConnectionCloseReason,
) -> SpecStep {
    match c.room {
        Some(link) => if !link.is_host {
            only(
                c,
                rooms,
                seq![write_app(SpecAppPacket::Message2 { message: MessageType::ConClosureDenied })],
            )
        } else if connections.contains(target) && member_of(rooms, link.room_id, target) {
            only(
                c,
                rooms,
                seq![
                    send_app(target, SpecAppPacket::ConnectionClosed { connection_id: target, reason }),
                    SpecEffect::Send(target, SpecConnectionAction::Close(reason)),
                ],
            )
        } else {
            only(c, rooms, Seq::empty())
        },
        None => only(c, rooms, Seq::empty()),
    }
}

/// A host hands bytes to one of its connections: a member may not; bytes for
/// a connection that is gone make the host hear that it closed.
#[verifier::opaque]
pub open spec fn spec_wrap(
    c: SpecConn,
    rooms: Map<Seq<char>, SpecRoom>,
    connections: Set<i32>,
    target: i32,
    is_tcp: bool,
    buffer: Seq<u8>,
) -> SpecStep {
    match c.room {
        Some(link) => if !link.is_host {
            SpecStep {
                conn: c,
                rooms,
                effects: Seq::empty(),
                result: Err(ConnectionError::NotRoomOwner),
            }
        } else if !connections.contains(target) {
            only(
                c,
                rooms,
                forward_effects(
                    rooms,
                    link.room_id,
                    SpecConnectionAction::SendTCP(
                        SpecAnyPacket::App(
                            SpecAppPacket::ConnectionClosed {
                                connection_id: target,
                                reason: ConnectionCloseReason::Closed,
                            },
                        ),
                    ),
                ),
            )
        } else {
            only(
                c,
                rooms,
                seq![
                    SpecEffect::Send(
                        target,
                        if is_tcp {
                            SpecConnectionAction::SendTCPRaw(buffer)
                        } else {
                            SpecConnectionAction::SendUDPRaw(buffer)
                        },
                    ),
                ],
            )
        },
        None => only(c, rooms, Seq::empty()),
    }
}

/// What an application packet does (`stats` is the packet's decoded stats,
/// `new_id` the id a new room gets).
pub open spec fn spec_handle_app(
    c: SpecConn,
    w: SpecWorld,
    p: SpecAppPacket,
    stats: Option<SpecStats>,
    new_id: Seq<char>,
    now_ms: u128,
) -> SpecStep {
    match p {
        SpecAppPacket::Stats { .. } => spec_stats(c, w.rooms, stats.unwrap(), now_ms),
        SpecAppPacket::RoomJoin { room_id, password } => spec_room_join(
            c,
            w.rooms,
            w.connections,
            room_id,
            password,
        ),
        SpecAppPacket::RoomCreationRequest { version, password, .. } => spec_room_creation(
            c,
            w.rooms,
            w.connections,
            version,
            password,
            stats.unwrap(),
            new_id,
            now_ms,
        ),
        SpecAppPacket::RoomClosureRequest => spec_room_closure(c, w.rooms),
        SpecAppPacket::ConnectionClosed { connection_id, reason } => spec_connection_closed(
            c,
            w.rooms,
            w.connections,
            connection_id,
            reason,
        ),
        SpecAppPacket::ConnectionPacketWrap { connection_id, is_tcp, buffer } => spec_wrap(
            c,
            w.rooms,
            w.connections,
            connection_id,
            is_tcp,
            buffer,
        ),
        _ => only(c, w.rooms, Seq::empty()),
    }
}


impl ConnectionActor {
    /// Stores stats reported by the host of the connection's room.
    fn handle_stats(&mut self, state: &mut AppState, stats: Stats, now_ms: u128, out: &mut Vec<Effect>)
        ensures
            follows(
                spec_stats(old(self)@, world(&*old(state)).rooms, stats@, now_ms),
                final(self)@,
                world(&*old(state)),
                world(&*final(state)),
                effects_view(old(out)@),
                effects_view(final(out)@),
                Ok(()),
            ),
            final(state).config == old(state).config,
    {
        proof {
            reveal(spec_stats);
        }
        let ghost stats_v = stats@;
        if let Some(link) = &self.room {
            if link.is_host() {
                if let Some(r) = state.room_state.update_stats(link.room_id(), stats, now_ms) {
                    let id = r.id.clone();
                    let ghost rv = r@;
                    emit(out, Effect::Publish(RoomUpdate::Update { id, data: r }));
                    assert(effects_view(out@) =~= effects_view(old(out)@) + seq![
                        SpecEffect::Publish(SpecRoomUpdate::Update { id: rv.id, data: rv }),
                    ]);
                    return;
                }
            }
        }
        assert(effects_view(out@) =~= effects_view(old(out)@) + Seq::<SpecEffect>::empty());
    }

    /// Closes the room that the connection hosts.
    fn handle_room_closure(&mut self, state: &mut AppState, out: &mut Vec<Effect>)
        ensures
            follows(
                spec_room_closure(old(self)@, world(&*old(state)).rooms),
                final(self)@,
                world(&*old(state)),
                world(&*final(state)),
                effects_view(old(out)@),
                effects_view(final(out)@),
                Ok(()),
            ),
            final(state).config == old(state).config,
    {
        proof {
            reveal(spec_room_closure);
        }
        let (room_id, is_host) = match &self.room {
            Some(link) => (link.room_id().clone(), link.is_host()),
            None => {
                assert(effects_view(out@) =~= effects_view(old(out)@) + Seq::<SpecEffect>::empty());
                return;
            },
        };
        if !is_host {
            write_packet(
                AnyPacket::App(
                    AppPacket::Message2(Message2Packet { message: MessageType::RoomClosureDenied }),
                ),
                out,
            );
            assert(effects_view(out@) =~= effects_view(old(out)@) + seq![
                write_app(SpecAppPacket::Message2 { message: MessageType::RoomClosureDenied }),
            ]);
            return;
        }
        state.room_state.close(&room_id, out);
        self.room = None;
        assert(effects_view(out@) =~= effects_view(old(out)@) + spec_close_effects(
            world(&*old(state)).rooms,
            room_id@,
        ));
    }

    /// Closes a member of the room that the connection hosts.
    fn handle_connection_closed(
        &self,
        state: &AppState,
        target: i32,
        reason: ConnectionCloseReason,
        out: &mut Vec<Effect>,
    )
        ensures
            ({
                let step = spec_connection_closed(
                    self@,
                    world(state).rooms,
                    world(state).connections,
                    target,
                    reason,
                );
                &&& effects_view(final(out)@) == effects_view(old(out)@) + step.effects
                &&& step.conn == self@
                &&& step.rooms == world(state).rooms
                &&& step.result == Ok::<(), ConnectionError>(())
            }),
    {
        proof {
            reveal(spec_connection_closed);
        }
        if let Some(link) = &self.room {
            if !link.is_host() {
                write_packet(
                    AnyPacket::App(
                        AppPacket::Message2(Message2Packet { message: MessageType::ConClosureDenied }),
                    ),
                    out,
                );
                assert(effects_view(out@) =~= effects_view(old(out)@) + seq![
                    write_app(SpecAppPacket::Message2 { message: MessageType::ConClosureDenied }),
                ]);
                return;
            }
            if state.has_connection_id(target) {
                if state.room_state.is_in_room(&target, link.room_id()) {
                    emit(
                        out,
                        Effect::Send(
                            target,
                            ConnectionAction::SendTCP(
                                AnyPacket::App(
                                    AppPacket::ConnectionClosed(
                                        ConnectionClosedPacket { connection_id: target, reason },
                                    ),
                                ),
                            ),
                        ),
                    );
                    emit(out, Effect::Send(target, ConnectionAction::Close(reason)));
                    assert(effects_view(out@) =~= effects_view(old(out)@) + seq![
                        send_app(
                            target,
                            SpecAppPacket::ConnectionClosed { connection_id: target, reason },
                        ),
                        SpecEffect::Send(target, SpecConnectionAction::Close(reason)),
                    ]);
                    return;
                }
            }
        }
        assert(effects_view(out@) =~= effects_view(old(out)@) + Seq::<SpecEffect>::empty());
    }

    /// Hands the bytes that the host wrapped to their connection.
    fn handle_wrap(&self, state: &AppState, p: ConnectionPacketWrapPacket, out: &mut Vec<Effect>) -> (r:
        Result<(), ConnectionError>)
        ensures
            ({
                let step = spec_wrap(
                    self@,
                    world(state).rooms,
                    world(state).connections,
                    p.connection_id,
                    p.is_tcp,
                    p.buffer@,
                );
                &&& effects_view(final(out)@) == effects_view(old(out)@) + step.effects
                &&& r == step.result
                &&& step.conn == self@
                &&& step.rooms == world(state).rooms
            }),
    {
        proof {
            reveal(spec_wrap);
        }
        if let Some(link) = &self.room {
            if !link.is_host() {
                assert(effects_view(out@) =~= effects_view(old(out)@) + Seq::<SpecEffect>::empty());
                return Err(ConnectionError::NotRoomOwner);
            }
            let ConnectionPacketWrapPacket { connection_id, is_tcp, buffer } = p;
            if !state.has_connection_id(connection_id) {
                let packet = ConnectionClosedPacket {
                    connection_id,
                    reason: ConnectionCloseReason::Closed,
                };
                let ghost e0 = effects_view(out@);
                state.room_state.forward_to_host(
                    link.room_id(),
                    ConnectionAction::SendTCP(AnyPacket::App(AppPacket::ConnectionClosed(packet))),
                    out,
                );
                assert(effects_view(out@) =~= e0 + forward_effects(
                    world(state).rooms,
                    link@.room_id,
                    SpecConnectionAction::SendTCP(
                        SpecAnyPacket::App(
                            SpecAppPacket::ConnectionClosed {
                                connection_id,
                                reason: ConnectionCloseReason::Closed,
                            },
                        ),
                    ),
                ));
                return Ok(());
            }
            let action = if is_tcp {
                ConnectionAction::SendTCPRaw(buffer)
            } else {
                ConnectionAction::SendUDPRaw(buffer)
            };
            let ghost a = action@;
            emit(out, Effect::Send(connection_id, action));
            assert(effects_view(out@) =~= effects_view(old(out)@) + seq![
                SpecEffect::Send(connection_id, a),
            ]);
            return Ok(());
        }
        assert(effects_view(out@) =~= effects_view(old(out)@) + Seq::<SpecEffect>::empty());
        Ok(())
    }
}


impl ConnectionActor {
    /// Hands the queued raw packets, wrapped, to the host of the room.
    fn forward_queue(&mut self, state: &AppState, room_id: &String, out: &mut Vec<Effect>)
        requires
            state.room_state.rooms().contains_key(room_id@),
        ensures
            final(self)@ == (SpecConn { queue: Seq::empty(), ..old(self)@ }),
            effects_view(final(out)@) == effects_view(old(out)@) + queue_forwards(
                old(self)@.queue,
                state.room_state.rooms()[room_id@].host_connection_id,
                old(self)@.id,
            ),
    {
        let mut queue: Vec<Vec<u8>> = Vec::new();
        std::mem::swap(&mut queue, &mut self.packet_queue);
        let ghost qv = buffers_view(queue@);
        let ghost host = state.room_state.rooms()[room_id@].host_connection_id;
        let ghost e0 = effects_view(out@);
        let mut k: usize = 0;
        while k < queue.len()
            invariant
                k <= queue@.len(),
                qv == buffers_view(queue@),
                state.room_state.rooms().contains_key(room_id@),
                host == state.room_state.rooms()[room_id@].host_connection_id,
                effects_view(out@) == e0 + queue_forwards(qv.subrange(0, k as int), host, self.id),
            decreases queue@.len() - k,
        {
            let packet = ConnectionPacketWrapPacket {
                connection_id: self.id,
                is_tcp: false,
                buffer: copy_bytes(&queue[k]),
            };
            state.room_state.forward_to_host(
                room_id,
                ConnectionAction::SendTCP(AnyPacket::App(AppPacket::ConnectionPacketWrap(packet))),
                out,
            );
            k = k + 1;
            assert(effects_view(out@) =~= e0 + queue_forwards(
                qv.subrange(0, k as int),
                host,
                self.id,
            ));
        }
        assert(qv.subrange(0, qv.len() as int) =~= qv);
        assert(buffers_view(self.packet_queue@) =~= Seq::empty());
    }

    /// Enters a room, being in none.
    fn enter_room(&mut self, state: &mut AppState, p: RoomJoinPacket, out: &mut Vec<Effect>) -> (r:
        Result<(), ConnectionError>)
        ensures
            follows(
                spec_enter(
                    old(self)@,
                    world(&*old(state)).rooms,
                    world(&*old(state)).connections,
                    p.room_id@,
                    p.password@,
                ),
                final(self)@,
                world(&*old(state)),
                world(&*final(state)),
                effects_view(old(out)@),
                effects_view(final(out)@),
                r,
            ),
            final(state).config == old(state).config,
    {
        let ghost c0 = self@;
        let ghost e1 = effects_view(out@);
        let check = state.room_state.password_accepts(&p.room_id, &p.password);
        let (can_join, wrong_password) = match check {
            None => (false, false),
            Some(true) => (true, false),
            Some(false) => (false, true),
        };
        if wrong_password {
            let message = String::from_str("Wrong password");
            write_packet(AnyPacket::App(AppPacket::Message(MessagePacket { message })), out);
            assert(effects_view(out@) =~= e1 + seq![
                write_app(SpecAppPacket::Message { message: "Wrong password"@ }),
            ]);
            return Ok(());
        }
        if !can_join {
            let message = String::from_str("Room not found");
            write_packet(AnyPacket::App(AppPacket::Popup(PopupPacket { message })), out);
            write_packet(
                AnyPacket::App(
                    AppPacket::ConnectionClosed(
                        ConnectionClosedPacket {
                            connection_id: self.id,
                            reason: ConnectionCloseReason::Error,
                        },
                    ),
                ),
                out,
            );
            assert(effects_view(out@) =~= e1 + seq![
                write_app(SpecAppPacket::Popup { message: "Room not found"@ }),
                write_app(
                    SpecAppPacket::ConnectionClosed {
                        connection_id: c0.id,
                        reason: ConnectionCloseReason::Error,
                    },
                ),
            ]);
            return Ok(());
        }
        if !state.has_connection_id(self.id) {
            assert(effects_view(out@) =~= e1 + Seq::<SpecEffect>::empty());
            return Ok(());
        }
        match state.room_state.join(self.id, &p.room_id, out) {
            Ok(()) => {},
            Err(_) => {
                return Err(ConnectionError::RoomNotFound);
            },
        }
        let ghost e2 = effects_view(out@);
        self.room = Some(ConnectionRoom::new(p.room_id.clone(), false));
        self.forward_queue(state, &p.room_id, out);
        assert(effects_view(out@) =~= e1 + (seq![
            send_app(
                world(&*old(state)).rooms[p.room_id@].host_connection_id,
                SpecAppPacket::ConnectionJoin { connection_id: c0.id, room_id: p.room_id@ },
            ),
        ] + queue_forwards(
            c0.queue,
            world(&*old(state)).rooms[p.room_id@].host_connection_id,
            c0.id,
        )));
        Ok(())
    }

    /// Leaves the connection's room to join another one.
    #[verifier::rlimit(40)]
    fn handle_room_join(&mut self, state: &mut AppState, p: RoomJoinPacket, out: &mut Vec<Effect>) -> (r:
        Result<(), ConnectionError>)
        ensures
            follows(
                spec_room_join(
                    old(self)@,
                    world(&*old(state)).rooms,
                    world(&*old(state)).connections,
                    p.room_id@,
                    p.password@,
                ),
                final(self)@,
                world(&*old(state)),
                world(&*final(state)),
                effects_view(old(out)@),
                effects_view(final(out)@),
                r,
            ),
            final(state).config == old(state).config,
    {
        proof {
            reveal(spec_room_join);
        }
        let ghost c0 = self@;
        let ghost w0 = world(&*state);
        let ghost e0 = effects_view(out@);
        let ghost target = p.room_id@;
        let ghost password = p.password@;
        let mut leaves: Option<String> = None;
        if let Some(link) = &self.room {
            if link.is_host() {
                write_packet(
                    AnyPacket::App(
                        AppPacket::Message2(Message2Packet { message: MessageType::AlreadyHosting }),
                    ),
                    out,
                );
                assert(effects_view(out@) =~= e0 + seq![
                    write_app(SpecAppPacket::Message2 { message: MessageType::AlreadyHosting }),
                ]);
                return Ok(());
            }
            leaves = Some(link.room_id().clone());
        }
        let ghost c1 = SpecConn { room: None, ..c0 };
        let ghost (rooms1, e1s) = match c0.room {
            Some(link) => spec_leave(w0.rooms, c0.id, link.room_id),
            None => (w0.rooms, Seq::<SpecEffect>::empty()),
        };
        match leaves {
            Some(current) => {
                state.room_state.leave(self.id, &current, out);
                self.room = None;
            },
            None => {},
        }
        assert(self@ == c1);
        assert(state.room_state.rooms() == rooms1);
        assert(effects_view(out@) =~= e0 + e1s);
        let ghost e1 = effects_view(out@);
        let r = self.enter_room(state, p, out);
        let ghost st = spec_enter(c1, rooms1, w0.connections, target, password);
        assert(effects_view(out@) =~= e0 + (e1s + st.effects));
        r
    }
}


/// The value of optional stats.
pub open spec fn opt_stats_view(s: Option<Stats>) -> Option<SpecStats> {
    match s {
        Some(v) => Some(v@),
        None => None,
    }
}

impl ConnectionActor {
    /// Opens a room hosted by the connection, with `stats`, at `now_ms`.
    fn handle_room_creation(
        &mut self,
        state: &mut AppState,
        version: String,
        password: String,
        stats: Stats,
        now_ms: u128,
        out: &mut Vec<Effect>,
    ) -> (r: Result<(), ConnectionError>)
        ensures
            exists|new_id: Seq<char>|
                uuid_v7_text(new_id) && #[trigger] follows(
                    spec_room_creation(
                        old(self)@,
                        world(&*old(state)).rooms,
                        world(&*old(state)).connections,
                        version@,
                        password@,
                        stats@,
                        new_id,
                        now_ms,
                    ),
                    final(self)@,
                    world(&*old(state)),
                    world(&*final(state)),
                    effects_view(old(out)@),
                    effects_view(final(out)@),
                    r,
                ),
            final(state).config == old(state).config,
    {
        proof {
            reveal(spec_room_creation);
        }
        let ghost e0 = effects_view(out@);
        let ghost any_id = uuid_v7_sample();
        if self.room.is_some() {
            write_packet(
                AnyPacket::App(
                    AppPacket::Message2(Message2Packet { message: MessageType::AlreadyHosting }),
                ),
                out,
            );
            assert(effects_view(out@) =~= e0 + seq![
                write_app(SpecAppPacket::Message2 { message: MessageType::AlreadyHosting }),
            ]);
            assert(uuid_v7_text(any_id));
            assert(follows(
                spec_room_creation(
                    old(self)@,
                    world(&*old(state)).rooms,
                    world(&*old(state)).connections,
                    version@,
                    password@,
                    stats@,
                    any_id,
                    now_ms,
                ),
                self@,
                world(&*old(state)),
                world(&*state),
                e0,
                effects_view(out@),
                Ok(()),
            ));
            return Ok(());
        }
        if !state.has_connection_id(self.id) {
            assert(effects_view(out@) =~= e0 + Seq::<SpecEffect>::empty());
            assert(uuid_v7_text(any_id));
            assert(follows(
                spec_room_creation(
                    old(self)@,
                    world(&*old(state)).rooms,
                    world(&*old(state)).connections,
                    version@,
                    password@,
                    stats@,
                    any_id,
                    now_ms,
                ),
                self@,
                world(&*old(state)),
                world(&*state),
                e0,
                effects_view(out@),
                Ok(()),
            ));
            return Ok(());
        }
        let ghost stats_v = stats@;
        let new_id = new_room_id();
        let ghost id_v = new_id@;
        let room_id = state.room_state.create_room(
            RoomInit { connection_id: self.id, password, stats, protocol_version: version },
            new_id,
            now_ms,
        );
        self.room = Some(ConnectionRoom::new(room_id.clone(), true));
        write_packet(AnyPacket::App(AppPacket::RoomLink(RoomLinkPacket { room_id: room_id.clone() })), out);
        match state.room_state.get_room(&room_id) {
            Some(room) => {
                let id = room.id.clone();
                emit(out, Effect::Publish(RoomUpdate::Update { id, data: room }));
            },
            None => {
                return Err(ConnectionError::RoomMissing);
            },
        }
        let ghost room_v = spec_new_room(old(self)@.id, password@, stats_v, version@, id_v, now_ms);
        assert(effects_view(out@) =~= e0 + seq![
            write_app(SpecAppPacket::RoomLink { room_id: id_v }),
            SpecEffect::Publish(SpecRoomUpdate::Update { id: id_v, data: room_v }),
        ]);
        assert(uuid_v7_text(id_v));
        assert(follows(
            spec_room_creation(
                old(self)@,
                world(&*old(state)).rooms,
                world(&*old(state)).connections,
                version@,
                password@,
                stats_v,
                id_v,
                now_ms,
            ),
            self@,
            world(&*old(state)),
            world(&*state),
            e0,
            effects_view(out@),
            Ok(()),
        ));
        Ok(())
    }
}


impl ConnectionActor {
    /// Answers an application packet; `stats` holds the packet's stats,
    /// decoded, for the packets that carry some, and `now_ms` is the time.
    pub fn handle_app(
        &mut self,
        state: &mut AppState,
        packet: AppPacket,
        stats: Option<Stats>,
        now_ms: u128,
        out: &mut Vec<Effect>,
    ) -> (r: Result<(), ConnectionError>)
        requires
            (packet@ is Stats || packet@ is RoomCreationRequest) ==> stats is Some,
        ensures
            crate::state::rooms_wf(world(&*old(state)).rooms),
            exists|new_id: Seq<char>|
                uuid_v7_text(new_id) && #[trigger] follows(
                    spec_handle_app(
                        old(self)@,
                        world(&*old(state)),
                        packet@,
                        opt_stats_view(stats),
                        new_id,
                        now_ms,
                    ),
                    final(self)@,
                    world(&*old(state)),
                    world(&*final(state)),
                    effects_view(old(out)@),
                    effects_view(final(out)@),
                    r,
                ),
            final(state).config == old(state).config,
    {
        proof {
            use_type_invariant(&state.room_state);
        }
        let ghost any_id = uuid_v7_sample();
        let ghost sv = opt_stats_view(stats);
        let ghost pv = packet@;
        let ghost e0 = effects_view(out@);
        assert(uuid_v7_text(any_id));
        match packet {
            AppPacket::Stats(_) => {
                let st = match stats {
                    Some(st) => st,
                    None => {
                        return Ok(());
                    },
                };
                self.handle_stats(state, st, now_ms, out);
                assert(follows(
                    spec_handle_app(old(self)@, world(&*old(state)), pv, sv, any_id, now_ms),
                    self@,
                    world(&*old(state)),
                    world(&*state),
                    e0,
                    effects_view(out@),
                    Ok(()),
                ));
                Ok(())
            },
            AppPacket::RoomJoin(p) => {
                let r = self.handle_room_join(state, p, out);
                assert(follows(
                    spec_handle_app(old(self)@, world(&*old(state)), pv, sv, any_id, now_ms),
                    self@,
                    world(&*old(state)),
                    world(&*state),
                    e0,
                    effects_view(out@),
                    r,
                ));
                r
            },
            AppPacket::RoomCreationRequest(p) => {
                let st = match stats {
                    Some(st) => st,
                    None => {
                        return Ok(());
                    },
                };
                let RoomCreationRequestPacket { version, password, data: _ } = p;
                let ghost vv = version@;
                let ghost pw = password@;
                let ghost stv = st@;
                let r = self.handle_room_creation(state, version, password, st, now_ms, out);
                let ghost id = choose|new_id: Seq<char>|
                    uuid_v7_text(new_id) && #[trigger] follows(
                        spec_room_creation(
                            old(self)@,
                            world(&*old(state)).rooms,
                            world(&*old(state)).connections,
                            vv,
                            pw,
                            stv,
                            new_id,
                            now_ms,
                        ),
                        self@,
                        world(&*old(state)),
                        world(&*state),
                        e0,
                        effects_view(out@),
                        r,
                    );
                assert(follows(
                    spec_handle_app(old(self)@, world(&*old(state)), pv, sv, id, now_ms),
                    self@,
                    world(&*old(state)),
                    world(&*state),
                    e0,
                    effects_view(out@),
                    r,
                ));
                r
            },
            AppPacket::RoomClosureRequest(_) => {
                self.handle_room_closure(state, out);
                assert(follows(
                    spec_handle_app(old(self)@, world(&*old(state)), pv, sv, any_id, now_ms),
                    self@,
                    world(&*old(state)),
                    world(&*state),
                    e0,
                    effects_view(out@),
                    Ok(()),
                ));
                Ok(())
            },
            AppPacket::ConnectionClosed(p) => {
                self.handle_connection_closed(state, p.connection_id, p.reason, out);
                assert(follows(
                    spec_handle_app(old(self)@, world(&*old(state)), pv, sv, any_id, now_ms),
                    self@,
                    world(&*old(state)),
                    world(&*state),
                    e0,
                    effects_view(out@),
                    Ok(()),
                ));
                Ok(())
            },
            AppPacket::ConnectionPacketWrap(p) => {
                let r = self.handle_wrap(state, p, out);
                assert(follows(
                    spec_handle_app(old(self)@, world(&*old(state)), pv, sv, any_id, now_ms),
                    self@,
                    world(&*old(state)),
                    world(&*state),
                    e0,
                    effects_view(out@),
                    r,
                ));
                r
            },
            _ => {
                assert(effects_view(out@) =~= e0 + Seq::<SpecEffect>::empty());
                assert(follows(
                    spec_handle_app(old(self)@, world(&*old(state)), pv, sv, any_id, now_ms),
                    self@,
                    world(&*old(state)),
                    world(&*state),
                    e0,
                    effects_view(out@),
                    Ok(()),
                ));
                Ok(())
            },
        }
    }
}


/// Whether a packet asks the rate limiter: a packet of the application or
/// raw bytes from a connection that hosts no room.
pub open spec fn consults_limiter(c: SpecConn, p: SpecAnyPacket) -> bool {
    !(p is Framework) && !(c.room matches Some(link) && link.is_host)
}

/// A member caught spamming: its room hears of it, it hears that it is
/// closed, and it ends.
pub open spec fn spec_spam(c: SpecConn, rooms: Map<Seq<char>, SpecRoom>) -> SpecStep {
    let told_room = match c.room {
        Some(link) => if rooms.contains_key(link.room_id) {
            broadcast_effects(
                rooms[link.room_id].members,
                SpecConnectionAction::SendTCP(
                    SpecAnyPacket::App(SpecAppPacket::Message2 { message: MessageType::PacketSpamming }),
                ),
                None,
            )
        } else {
            Seq::empty()
        },
        None => Seq::empty(),
    };
    SpecStep {
        conn: c,
        rooms,
        effects: told_room + seq![
            write_app(
                SpecAppPacket::ConnectionClosed {
                    connection_id: c.id,
                    reason: ConnectionCloseReason::Closed,
                },
            ),
        ],
        result: Err(ConnectionError::PacketSpamming),
    }
}

/// What a packet does (`allowed`: whether the rate limiter admits it, when
/// it is asked).  Raw bytes go, wrapped, to the host of the connection's
/// room, or wait in its queue (at most 16) while it is in none.
pub open spec fn spec_handle_packet(
    c: SpecConn,
    w: SpecWorld,
    allowed: bool,
    p: SpecAnyPacket,
    stats: Option<SpecStats>,
    is_tcp: bool,
    new_id: Seq<char>,
    now_ms: u128,
) -> SpecStep {
    if consults_limiter(c, p) && !allowed {
        spec_spam(c, w.rooms)
    } else {
        match p {
            SpecAnyPacket::Framework(m) => only(
                c,
                w.rooms,
                match m {
                    FrameworkMessage::Ping { id, is_reply } => if !is_reply {
                        seq![
                            write_effect(
                                SpecAnyPacket::Framework(FrameworkMessage::Ping { id, is_reply: true }),
                            ),
                        ]
                    } else {
                        Seq::empty()
                    },
                    _ => Seq::empty(),
                },
            ),
            SpecAnyPacket::App(a) => spec_handle_app(c, w, a, stats, new_id, now_ms),
            SpecAnyPacket::Raw(b) => match c.room {
                Some(link) => only(
                    c,
                    w.rooms,
                    forward_effects(
                        w.rooms,
                        link.room_id,
                        SpecConnectionAction::SendTCP(
                            SpecAnyPacket::App(
                                SpecAppPacket::ConnectionPacketWrap {
                                    connection_id: c.id,
                                    is_tcp,
                                    buffer: b,
                                },
                            ),
                        ),
                    ),
                ),
                None => if c.queue.len() < PACKET_QUEUE_LIMIT {
                    only(SpecConn { queue: c.queue.push(b), ..c }, w.rooms, Seq::empty())
                } else {
                    only(c, w.rooms, Seq::empty())
                },
            },
        }
    }
}

/// Hosts and framework messages are never rate limited: for them, what a
/// packet does is the same whatever the rate limiter would say.
pub proof fn lemma_hosts_not_limited(
    c: SpecConn,
    w: SpecWorld,
    p: SpecAnyPacket,
    stats: Option<SpecStats>,
    is_tcp: bool,
    new_id: Seq<char>,
    now_ms: u128,
)
    requires
        (c.room matches Some(link) && link.is_host) || p is Framework,
    ensures
        spec_handle_packet(c, w, true, p, stats, is_tcp, new_id, now_ms) == spec_handle_packet(
            c,
            w,
            false,
            p,
            stats,
            is_tcp,
            new_id,
            now_ms,
        ),
{
}

/// What every packet keeps: the connection's id, its UDP address and its
/// idle notice stay, and at most 16 raw packets wait in its queue.
pub proof fn lemma_packet_keeps_connection(
    c: SpecConn,
    w: SpecWorld,
    allowed: bool,
    p: SpecAnyPacket,
    stats: Option<SpecStats>,
    is_tcp: bool,
    new_id: Seq<char>,
    now_ms: u128,
)
    requires
        c.queue.len() <= PACKET_QUEUE_LIMIT,
    ensures
        ({
            let s = spec_handle_packet(c, w, allowed, p, stats, is_tcp, new_id, now_ms);
            &&& s.conn.id == c.id
            &&& s.conn.udp_addr == c.udp_addr
            &&& s.conn.notified_idle == c.notified_idle
            &&& s.conn.queue.len() <= PACKET_QUEUE_LIMIT
        }),
{
    reveal(spec_stats);
    reveal(spec_room_join);
    reveal(spec_room_creation);
    reveal(spec_room_closure);
    reveal(spec_connection_closed);
    reveal(spec_wrap);
}

/// Whether the packet may be handled: UDP registrations are the UDP
/// listener's, and packets with stats come with them decoded.
pub open spec fn packet_ready(p: SpecAnyPacket, stats: Option<Stats>) -> bool {
    &&& !(p matches SpecAnyPacket::Framework(m) && m is RegisterUDP)
    &&& (p matches SpecAnyPacket::App(a) && (a is Stats || a is RoomCreationRequest)) ==> stats is Some
}

/// Whether a connection that held `c` in world `w` answered packet `p`
/// properly, going to `c2`, `w2` and the effects `e1` after `e0` with result
/// `r`: the step that `spec_handle_packet` describes, for some room id of the
/// shape that new rooms get.
pub open spec fn packet_handled(
    c: SpecConn,
    w: SpecWorld,
    admitted: bool,
    p: SpecAnyPacket,
    stats: Option<SpecStats>,
    is_tcp: bool,
    now_ms: u128,
    c2: SpecConn,
    w2: SpecWorld,
    e0: Seq<SpecEffect>,
    e1: Seq<SpecEffect>,
    r: Result<(), ConnectionError>,
) -> bool {
    exists|new_id: Seq<char>|
        uuid_v7_text(new_id) && #[trigger] follows(
            spec_handle_packet(c, w, admitted, p, stats, is_tcp, new_id, now_ms),
            c2,
            w,
            w2,
            e0,
            e1,
            r,
        )
}

impl ConnectionActor {
    /// Answers a packet that arrived over TCP (`is_tcp`) or UDP;
    /// `stats` holds its decoded stats when it carries some.  `now` is the
    /// monotonic time in nanoseconds, which the rate limiter counts in, and
    /// `now_ms` the wall-clock time in milliseconds, which rooms record.
    pub fn handle_packet(
        &mut self,
        state: &mut AppState,
        limiter: &mut RateLimiter,
        packet: AnyPacket,
        stats: Option<Stats>,
        is_tcp: bool,
        now: u128,
        now_ms: u128,
        out: &mut Vec<Effect>,
    ) -> (r: Result<(), ConnectionError>)
        requires
            packet_ready(packet@, stats),
        ensures
            crate::state::rooms_wf(world(&*old(state)).rooms),
            if consults_limiter(old(self)@, packet@) {
                old(limiter).spec_allow(now, &*final(limiter), old(limiter).admits(now))
            } else {
                *final(limiter) == *old(limiter)
            },
            packet_handled(
                old(self)@,
                world(&*old(state)),
                old(limiter).admits(now),
                packet@,
                opt_stats_view(stats),
                is_tcp,
                now_ms,
                final(self)@,
                world(&*final(state)),
                effects_view(old(out)@),
                effects_view(final(out)@),
                r,
            ),
            final(state).config == old(state).config,
    {
        proof {
            use_type_invariant(&state.room_state);
        }
        let ghost any_id = uuid_v7_sample();
        let ghost sv = opt_stats_view(stats);
        let ghost pv = packet@;
        let ghost e0 = effects_view(out@);
        let ghost admitted = limiter.admits(now);
        assert(uuid_v7_text(any_id));
        let is_framework = match &packet {
            AnyPacket::Framework(_) => true,
            _ => false,
        };
        if !is_framework {
            let is_host = match &self.room {
                Some(link) => link.is_host(),
                None => false,
            };
            if !is_host && !limiter.allow_at(now) {
                if let Some(link) = &self.room {
                    state.room_state.broadcast(
                        link.room_id(),
                        ConnectionAction::SendTCP(
                            AnyPacket::App(
                                AppPacket::Message2(
                                    Message2Packet { message: MessageType::PacketSpamming },
                                ),
                            ),
                        ),
                        None,
                        out,
                    );
                }
                let ghost e1 = effects_view(out@);
                write_packet(
                    AnyPacket::App(
                        AppPacket::ConnectionClosed(
                            ConnectionClosedPacket {
                                connection_id: self.id,
                                reason: ConnectionCloseReason::Closed,
                            },
                        ),
                    ),
                    out,
                );
                assert(effects_view(out@) =~= e0 + spec_spam(old(self)@, world(&*old(state)).rooms).effects);
                assert(follows(
                    spec_handle_packet(old(self)@, world(&*old(state)), admitted, pv, sv, is_tcp, any_id, now_ms),
                    self@,
                    world(&*old(state)),
                    world(&*state),
                    e0,
                    effects_view(out@),
                    Err(ConnectionError::PacketSpamming),
                ));
                return Err(ConnectionError::PacketSpamming);
            }
        }
        match packet {
            AnyPacket::Framework(f) => {
                self.handle_framework(f, out);
                assert(effects_view(out@) =~= e0 + spec_handle_packet(
                    old(self)@, world(&*old(state)), admitted, pv, sv, is_tcp, any_id, now_ms,
                ).effects);
                assert(follows(
                    spec_handle_packet(old(self)@, world(&*old(state)), admitted, pv, sv, is_tcp, any_id, now_ms),
                    self@,
                    world(&*old(state)),
                    world(&*state),
                    e0,
                    effects_view(out@),
                    Ok(()),
                ));
                Ok(())
            },
            AnyPacket::App(a) => {
                let r = self.handle_app(state, a, stats, now_ms, out);
                let ghost id = choose|new_id: Seq<char>|
                    uuid_v7_text(new_id) && #[trigger] follows(
                        spec_handle_app(old(self)@, world(&*old(state)), pv->App_0, sv, new_id, now_ms),
                        self@,
                        world(&*old(state)),
                        world(&*state),
                        e0,
                        effects_view(out@),
                        r,
                    );
                assert(follows(
                    spec_handle_packet(old(self)@, world(&*old(state)), admitted, pv, sv, is_tcp, id, now_ms),
                    self@,
                    world(&*old(state)),
                    world(&*state),
                    e0,
                    effects_view(out@),
                    r,
                ));
                r
            },
            AnyPacket::Raw(bytes) => {
                if let Some(link) = &self.room {
                    let wrap = ConnectionPacketWrapPacket { connection_id: self.id, is_tcp, buffer: bytes };
                    state.room_state.forward_to_host(
                        link.room_id(),
                        ConnectionAction::SendTCP(AnyPacket::App(AppPacket::ConnectionPacketWrap(wrap))),
                        out,
                    );
                } else if self.packet_queue.len() < PACKET_QUEUE_LIMIT {
                    self.packet_queue.push(bytes);
                    assert(buffers_view(self.packet_queue@) =~= old(self)@.queue.push(pv->Raw_0));
                }
                assert(effects_view(out@) =~= e0 + spec_handle_packet(
                    old(self)@, world(&*old(state)), admitted, pv, sv, is_tcp, any_id, now_ms,
                ).effects);
                assert(follows(
                    spec_handle_packet(old(self)@, world(&*old(state)), admitted, pv, sv, is_tcp, any_id, now_ms),
                    self@,
                    world(&*old(state)),
                    world(&*state),
                    e0,
                    effects_view(out@),
                    Ok(()),
                ));
                Ok(())
            },
        }
    }
}


/// What an action handed to the connection does: packets and bytes for its
/// TCP stream join the batch, each behind its length header; UDP bytes go
/// to its UDP address; a close ends it; a UDP address replaces the old one
/// in the routes; a packet from the UDP listener is handled as a packet.
pub open spec fn spec_action_effects(c: SpecConn, a: SpecConnectionAction) -> Seq<SpecEffect> {
    match a {
        SpecConnectionAction::SendTCP(p) => seq![
            SpecEffect::Queue(spec_prepend_len(spec_prepend_len(spec_payload(p)))),
        ],
        SpecConnectionAction::SendTCPRaw(b) => seq![SpecEffect::Queue(spec_prepend_len(b))],
        SpecConnectionAction::SendUDPRaw(b) => match c.udp_addr {
            Some(addr) => seq![SpecEffect::SendUdp(addr, b)],
            None => Seq::empty(),
        },
        _ => Seq::empty(),
    }
}

/// Whether an action may be handled: a packet to write is one the server
/// writes, and a packet to handle is ready (see `packet_ready`).
pub open spec fn action_ready(a: SpecConnectionAction, stats: Option<Stats>) -> bool {
    &&& (a matches SpecConnectionAction::SendTCP(p) ==> p.is_writable())
    &&& (a matches SpecConnectionAction::ProcessPacket(p, _) ==> packet_ready(p, stats))
}

/// Telling the host that the connection is idle: nothing for a connection
/// in no room; when the room is gone or the connection hosts it, the notice
/// counts as given at once; otherwise the host is handed the notice, and its
/// delivery decides (`true`: awaiting it, see `idle_delivered`).
pub open spec fn spec_notify_idle(c: SpecConn, rooms: Map<Seq<char>, SpecRoom>) -> (
    SpecConn,
    Seq<SpecEffect>,
    bool,
) {
    match c.room {
        None => (c, Seq::empty(), false),
        Some(link) => if !rooms.contains_key(link.room_id) || rooms[link.room_id].host_connection_id
            == c.id {
            (SpecConn { notified_idle: true, ..c }, Seq::empty(), false)
        } else {
            (
                c,
                seq![
                    send_app(
                        rooms[link.room_id].host_connection_id,
                        SpecAppPacket::ConnectionIdling { connection_id: c.id },
                    ),
                ],
                true,
            )
        },
    }
}

impl ConnectionActor {
    /// Carries out an action handed to the connection; `stats` holds the
    /// decoded stats of a packet to handle, and `now` (monotonic, in
    /// nanoseconds) and `now_ms` (wall clock, in milliseconds) are the time
    /// as `handle_packet` takes it.
    pub fn handle_action(
        &mut self,
        state: &mut AppState,
        limiter: &mut RateLimiter,
        action: ConnectionAction,
        stats: Option<Stats>,
        now: u128,
        now_ms: u128,
        out: &mut Vec<Effect>,
    ) -> (r: Result<(), ConnectionError>)
        requires
            action_ready(action@, stats),
        ensures
            final(state).config == old(state).config,
            match action@ {
                SpecConnectionAction::ProcessPacket(p, is_tcp) => {
                    &&& if consults_limiter(old(self)@, p) {
                        old(limiter).spec_allow(now, &*final(limiter), old(limiter).admits(now))
                    } else {
                        *final(limiter) == *old(limiter)
                    }
                    &&& packet_handled(
                        old(self)@,
                        world(&*old(state)),
                        old(limiter).admits(now),
                        p,
                        opt_stats_view(stats),
                        is_tcp,
                        now_ms,
                        final(self)@,
                        world(&*final(state)),
                        effects_view(old(out)@),
                        effects_view(final(out)@),
                        r,
                    )
                },
                SpecConnectionAction::RegisterUDP(addr) => {
                    let c = old(self)@;
                    let w = world(&*old(state));
                    let routes = match c.udp_addr {
                        Some(prev) => w.routes.remove(prev),
                        None => w.routes,
                    };
                    &&& *final(limiter) == *old(limiter)
                    &&& final(state).room_state.rooms() == w.rooms
                    &&& final(state).connections() == w.connections
                    &&& if w.connections.contains(c.id) {
                        &&& final(self)@ == (SpecConn { udp_addr: Some(addr), ..c })
                        &&& final(state).routes() == routes.insert(addr, c.id)
                        &&& effects_view(final(out)@) == effects_view(old(out)@).push(
                            write_effect(
                                SpecAnyPacket::Framework(
                                    FrameworkMessage::RegisterUDP { connection_id: c.id },
                                ),
                            ),
                        )
                        &&& r is Ok
                    } else {
                        &&& final(self)@ == c
                        &&& final(state).routes() == routes
                        &&& final(out)@ == old(out)@
                        &&& r == Err::<(), ConnectionError>(ConnectionError::NoSender)
                    }
                },
                _ => {
                    &&& *final(limiter) == *old(limiter)
                    &&& final(self)@ == old(self)@
                    &&& world(&*final(state)) == world(&*old(state))
                    &&& effects_view(final(out)@) == effects_view(old(out)@) + spec_action_effects(
                        old(self)@,
                        action@,
                    )
                    &&& r == match action@ {
                        SpecConnectionAction::Close(reason) => Err(ConnectionError::Closed(reason)),
                        SpecConnectionAction::SendUDPRaw(_) => if old(self)@.udp_addr is Some {
                            Ok(())
                        } else {
                            Err(ConnectionError::UdpNotRegistered)
                        },
                        _ => Ok(()),
                    }
                },
            },
    {
        let ghost e0 = effects_view(out@);
        let ghost av = action@;
        match action {
            ConnectionAction::SendTCP(p) => {
                assert(av == SpecConnectionAction::SendTCP(p@));
                let bytes = p.to_bytes();
                emit(out, Effect::Queue(AnyPacket::prepend_len(bytes)));
                assert(effects_view(out@) =~= e0 + spec_action_effects(old(self)@, av));
                Ok(())
            },
            ConnectionAction::SendTCPRaw(b) => {
                assert(av == SpecConnectionAction::SendTCPRaw(b@));
                emit(out, Effect::Queue(AnyPacket::prepend_len(b)));
                assert(effects_view(out@) =~= e0 + spec_action_effects(old(self)@, av));
                Ok(())
            },
            ConnectionAction::SendUDPRaw(b) => {
                assert(av == SpecConnectionAction::SendUDPRaw(b@));
                match &self.udp_addr {
                    Some(addr) => {
                        emit(out, Effect::SendUdp(addr.clone(), b));
                        assert(effects_view(out@) =~= e0 + spec_action_effects(old(self)@, av));
                        Ok(())
                    },
                    None => {
                        assert(effects_view(out@) =~= e0 + spec_action_effects(old(self)@, av));
                        Err(ConnectionError::UdpNotRegistered)
                    },
                }
            },
            ConnectionAction::Close(reason) => {
                assert(av == SpecConnectionAction::Close(reason));
                assert(effects_view(out@) =~= e0 + spec_action_effects(old(self)@, av));
                Err(ConnectionError::Closed(reason))
            },
            ConnectionAction::RegisterUDP(addr) => {
                if let Some(prev) = &self.udp_addr {
                    state.remove_udp(prev);
                }
                if !state.has_connection_id(self.id) {
                    return Err(ConnectionError::NoSender);
                }
                self.udp_addr = Some(addr.clone());
                state.register_udp(addr, self.id);
                write_packet(
                    AnyPacket::Framework(FrameworkMessage::RegisterUDP { connection_id: self.id }),
                    out,
                );
                Ok(())
            },
            ConnectionAction::ProcessPacket(p, is_tcp) => {
                assert(av == SpecConnectionAction::ProcessPacket(p@, is_tcp));
                self.handle_packet(state, limiter, p, stats, is_tcp, now, now_ms, out)
            },
        }
    }

    /// Always: the connection has nothing pending that would keep it busy.
    pub fn is_idle(&self) -> (b: bool)
        ensures
            b,
    {
        true
    }

    /// Tells the host of the connection's room that the connection is idle
    /// (see `spec_notify_idle`).
    pub fn notify_idle(&mut self, state: &AppState, out: &mut Vec<Effect>) -> (awaiting: bool)
        ensures
            ({
                let (c, e, a) = spec_notify_idle(old(self)@, state.room_state.rooms());
                &&& final(self)@ == c
                &&& effects_view(final(out)@) == effects_view(old(out)@) + e
                &&& awaiting == a
            }),
    {
        let ghost e0 = effects_view(out@);
        let settled = match &self.room {
            None => {
                assert(effects_view(out@) =~= e0 + Seq::empty());
                return false;
            },
            Some(link) => state.idle(self.id, link.room_id(), out),
        };
        if settled {
            self.notified_idle = true;
            assert(effects_view(out@) =~= e0 + Seq::empty());
        } else {
            assert(effects_view(out@) =~= e0 + spec_notify_idle(old(self)@, state.room_state.rooms()).1);
        }
        !settled
    }

    /// Once a batch of actions is handled: a connection that has not told
    /// its room's host that it is idle does so (see `spec_notify_idle`).
    pub fn settle_idle(&mut self, state: &AppState, out: &mut Vec<Effect>) -> (awaiting: bool)
        ensures
            old(self)@.notified_idle ==> final(self)@ == old(self)@ && final(out)@ == old(out)@
                && !awaiting,
            !old(self)@.notified_idle ==> ({
                let (c, e, a) = spec_notify_idle(old(self)@, state.room_state.rooms());
                &&& final(self)@ == c
                &&& effects_view(final(out)@) == effects_view(old(out)@) + e
                &&& awaiting == a
            }),
    {
        if self.is_idle() && !self.notified_idle {
            self.notify_idle(state, out)
        } else {
            false
        }
    }

    /// Records how the idle notice handed to the host went: it counts as
    /// given unless the host's queue was full.
    pub fn idle_delivered(&mut self, outcome: SendOutcome)
        ensures
            final(self)@ == (SpecConn {
                notified_idle: old(self)@.notified_idle || !(outcome is Full),
                ..old(self)@
            }),
    {
        if idle_result(outcome) {
            self.notified_idle = true;
        }
    }

    /// What a new connection does first: it writes its id to the client,
    /// then tells the host of its room, if any, that it is idle.
    pub fn start(&mut self, state: &AppState, out: &mut Vec<Effect>) -> (awaiting: bool)
        ensures
            ({
                let (c, e, a) = spec_notify_idle(old(self)@, state.room_state.rooms());
                &&& final(self)@ == c
                &&& effects_view(final(out)@) == effects_view(old(out)@).push(
                    write_effect(
                        SpecAnyPacket::Framework(
                            FrameworkMessage::RegisterTCP { connection_id: old(self)@.id },
                        ),
                    ),
                ) + e
                &&& awaiting == a
            }),
    {
        write_packet(
            AnyPacket::Framework(FrameworkMessage::RegisterTCP { connection_id: self.id }),
            out,
        );
        self.notify_idle(state, out)
    }
}

} // verus!

verus! {

/// A member that asks to join a room leaves its own first, whatever the
/// join then gives: the host of its old room is the first to hear, that the
/// member closed, and the member is no member of its old room any more
/// (unless it asked to join that same room), while the other members stay.
/// Where the new room takes it, it becomes a member there, linked as a
/// guest, and that room's host hears that it joined, right after.
pub proof fn lemma_join_leaves_the_old_room(
    c: SpecConn,
    w: SpecWorld,
    target: Seq<char>,
    password: Seq<char>,
    stats: Option<SpecStats>,
    new_id: Seq<char>,
    now_ms: u128,
)
    requires
        c.room matches Some(link) && !link.is_host && w.rooms.contains_key(link.room_id),
    ensures
        ({
            let old_id = c.room->0.room_id;
            let s = spec_handle_app(
                c,
                w,
                SpecAppPacket::RoomJoin { room_id: target, password },
                stats,
                new_id,
                now_ms,
            );
            &&& s.effects.len() >= 1
            &&& s.effects[0] == send_app(
                w.rooms[old_id].host_connection_id,
                SpecAppPacket::ConnectionClosed {
                    connection_id: c.id,
                    reason: ConnectionCloseReason::Closed,
                },
            )
            &&& s.rooms.contains_key(old_id)
            &&& target != old_id ==> !member_of(s.rooms, old_id, c.id)
            &&& forall|m: i32|
                m != c.id ==> (#[trigger] member_of(s.rooms, old_id, m) <==> member_of(
                    w.rooms,
                    old_id,
                    m,
                ))
            &&& (target != old_id && w.rooms.contains_key(target) && w.connections.contains(c.id)
                && !(w.rooms[target].password matches Some(p) && p != password)) ==> {
                &&& member_of(s.rooms, target, c.id)
                &&& s.conn.room == Some(SpecRoomLink { room_id: target, is_host: false })
                &&& s.effects.len() >= 2
                &&& s.effects[1] == send_app(
                    w.rooms[target].host_connection_id,
                    SpecAppPacket::ConnectionJoin { connection_id: c.id, room_id: target },
                )
            }
        }),
{
    let old_id = c.room->0.room_id;
    let s = spec_handle_app(
        c,
        w,
        SpecAppPacket::RoomJoin { room_id: target, password },
        stats,
        new_id,
        now_ms,
    );
    let leave = spec_leave(w.rooms, c.id, old_id);
    let rooms1 = crate::state::departed(w.rooms, old_id, c.id);
    let c1 = SpecConn { room: None, ..c };
    let entered = spec_enter(c1, rooms1, w.connections, target, password);
    let closed = send_app(
        w.rooms[old_id].host_connection_id,
        SpecAppPacket::ConnectionClosed { connection_id: c.id, reason: ConnectionCloseReason::Closed },
    );
    assert(leave.0 == rooms1 && leave.1 == seq![closed]);
    assert(s == spec_room_join(c, w.rooms, w.connections, target, password));
    assert(s.rooms == entered.rooms && s.conn == entered.conn && s.effects == seq![closed]
        + entered.effects) by {
        reveal(spec_room_join);
    }
    assert(s.effects[0] == closed);
    crate::state::lemma_leave_ends_membership(w.rooms, old_id, c.id);
    lemma_enter_membership(c1, rooms1, w.connections, target, password);
    let after = entered.rooms;
    assert(after.contains_key(old_id));
    if target != old_id {
        assert(after.get(old_id) == rooms1.get(old_id));
        assert(after[old_id] == rooms1[old_id]);
    }
    assert forall|m: i32| m != c.id implies (#[trigger] member_of(after, old_id, m) <==> member_of(
        w.rooms,
        old_id,
        m,
    )) by {
        assert(member_of(rooms1, old_id, m) == member_of(w.rooms, old_id, m));
    }
    if target != old_id && w.rooms.contains_key(target) && w.connections.contains(c.id) && !(
    w.rooms[target].password matches Some(p) && p != password) {
        assert(rooms1[target] == w.rooms[target]);
        assert(entered.effects[0] == send_app(
            w.rooms[target].host_connection_id,
            SpecAppPacket::ConnectionJoin { connection_id: c.id, room_id: target },
        ));
        assert(s.effects[1] == entered.effects[0]);
    }
}

/// Entering a room, from none, keeps every room and changes no room but the
/// one entered, where the connection, when it is taken in, becomes a member and
/// every member stays one.
proof fn lemma_enter_membership(
    c: SpecConn,
    rooms: Map<Seq<char>, SpecRoom>,
    connections: Set<i32>,
    target: Seq<char>,
    password: Seq<char>,
)
    requires
        c.room is None,
    ensures
        ({
            let s = spec_enter(c, rooms, connections, target, password);
            &&& forall|o: Seq<char>| o != target ==> #[trigger] s.rooms.get(o) == rooms.get(o)
            &&& rooms.dom().subset_of(s.rooms.dom())
            &&& forall|m: i32|
                m != c.id ==> (#[trigger] member_of(s.rooms, target, m) <==> member_of(
                    rooms,
                    target,
                    m,
                ))
            &&& s.conn.room == Some(SpecRoomLink { room_id: target, is_host: false }) ==> member_of(
                s.rooms,
                target,
                c.id,
            )
            &&& (rooms.contains_key(target) && connections.contains(c.id) && !(
            rooms[target].password matches Some(p) && p != password)) ==> s.conn.room == Some(
                SpecRoomLink { room_id: target, is_host: false },
            )
        }),
{
    let s = spec_enter(c, rooms, connections, target, password);
    if rooms.contains_key(target) && connections.contains(c.id) && !(
    rooms[target].password matches Some(p) && p != password) {
        let room = rooms[target];
        let r1 = with_members(room, with_member(room.members, c.id));
        assert(s.rooms == rooms.insert(target, r1));
        assert(s.conn.room == Some(SpecRoomLink { room_id: target, is_host: false }));
        crate::state::lemma_with_member(room.members, c.id);
        assert(s.rooms[target].members == with_member(room.members, c.id));
    } else {
        assert(s.rooms == rooms);
        assert(s.conn == c);
    }
}

/// A host's wrapped bytes for an open connection go to that connection and
/// nowhere else: as raw TCP bytes when the wrap says TCP, as raw UDP bytes
/// when it does not.  The rooms and the host's connection stay as they were.
pub proof fn lemma_wrap_reaches_its_target(
    c: SpecConn,
    w: SpecWorld,
    target: i32,
    is_tcp: bool,
    buffer: Seq<u8>,
    stats: Option<SpecStats>,
    new_id: Seq<char>,
    now_ms: u128,
)
    requires
        c.room matches Some(link) && link.is_host,
        w.connections.contains(target),
    ensures
        ({
            let s = spec_handle_app(
                c,
                w,
                SpecAppPacket::ConnectionPacketWrap { connection_id: target, is_tcp, buffer },
                stats,
                new_id,
                now_ms,
            );
            &&& s.result is Ok
            &&& s.conn == c
            &&& s.rooms == w.rooms
            &&& s.effects.len() == 1
            &&& is_tcp ==> s.effects[0] == SpecEffect::Send(
                target,
                SpecConnectionAction::SendTCPRaw(buffer),
            )
            &&& !is_tcp ==> s.effects[0] == SpecEffect::Send(
                target,
                SpecConnectionAction::SendUDPRaw(buffer),
            )
        }),
{
    reveal(spec_wrap);
}

/// A connection already in a room, as its host or as a member, opens no
/// room: the rooms and the connection stay as they were, and all it hears is
/// that it is already hosting.
pub proof fn lemma_no_room_from_a_room(
    c: SpecConn,
    w: SpecWorld,
    version: Seq<char>,
    password: Seq<char>,
    data: Seq<char>,
    stats: Option<SpecStats>,
    new_id: Seq<char>,
    now_ms: u128,
)
    requires
        c.room is Some,
    ensures
        ({
            let s = spec_handle_app(
                c,
                w,
                SpecAppPacket::RoomCreationRequest { version, password, data },
                stats,
                new_id,
                now_ms,
            );
            &&& s.result is Ok
            &&& s.conn == c
            &&& s.rooms == w.rooms
            &&& s.effects == seq![
                write_app(SpecAppPacket::Message2 { message: MessageType::AlreadyHosting }),
            ]
        }),
{
    reveal(spec_room_creation);
}

} // verus!
