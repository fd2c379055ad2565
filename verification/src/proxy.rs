//! What the proxy decides around its connections: which id a new
//! connection gets, where a datagram from the UDP socket goes, and what is
//! forgotten when a connection ends.
use crate::codec::ByteCursor;
use crate::connection::ConnectionActor;
use crate::rate::RateLimiter;
use crate::packets::{spec_read_any, AnyPacket, Decoded, FrameworkMessage, SpecAnyPacket};
use crate::state::{
    effects_view, emit, AppState, ConnectionAction, Effect, SpecConnectionAction, SpecEffect,
};
use vstd::prelude::*;

verus! {

/// Packets a connection may send within one rate-limit window.
pub const PACKET_RATE_LIMIT: usize = 1000;

/// The rate-limit window, in nanoseconds.
pub const PACKET_RATE_LIMIT_WINDOW_NANOS: u128 = 3_000_000_000;

/// Actions a connection's queue holds before handing it more fails.
pub const CHANNEL_CAPACITY: usize = 1024;

/// Bytes read from the UDP socket at once.
pub const UDP_BUFFER_SIZE: usize = 4096;

/// `rand::random::<i32>()`: an id drawn at random.  Nothing is stated of
/// it: it rests on chance.
#[verifier::external_body]
fn random_connection_id() -> i32 {
    rand::random::<i32>()
}

/// Draws random ids until one that no open connection has comes up, as
/// long as some id is free (with every id taken, no id could come).  Draws
/// may repeat by chance; after `u64::MAX` draws that all hit open
/// connections, the smallest free id is taken.
pub fn new_connection_id(state: &AppState) -> (id: i32)
    requires
        exists|c: i32| !state.connections().contains(c),
    ensures
        !state.connections().contains(id),
{
    let mut draws: u64 = 0;
    while draws < u64::MAX
        decreases u64::MAX - draws,
    {
        let id = random_connection_id();
        if !state.has_connection_id(id) {
            return id;
        }
        draws = draws + 1;
    }
    let mut c: i32 = i32::MIN;
    while c < i32::MAX
        invariant
            forall|d: i32| d < c ==> state.connections().contains(d),
        decreases i32::MAX - c,
    {
        if !state.has_connection_id(c) {
            return c;
        }
        c = c + 1;
    }
    if !state.has_connection_id(c) {
        return c;
    }
    assert(forall|d: i32| state.connections().contains(d));
    c
}

/// What a datagram read from the UDP socket asks for, once it passed the
/// rate limiter of the connection its address routes to: `None` where it
/// ends inside a fixed-width field; otherwise the effects, none for an
/// unreadable datagram.  A UDP registration asks the named connection, if
/// it is open, to take the address; any other packet goes, as received over
/// UDP, to the connection the address routes to, if any.
pub open spec fn spec_datagram(
    connections: Set<i32>,
    routes: Map<Seq<char>, i32>,
    addr: Seq<char>,
    d: Seq<u8>,
) -> Option<Seq<SpecEffect>> {
    match spec_read_any(d, 0) {
        Decoded::Truncated => None,
        Decoded::Failed(_) => Some(Seq::empty()),
        Decoded::Done(p, _) => Some(
            match p {
                SpecAnyPacket::Framework(FrameworkMessage::RegisterUDP { connection_id }) => {
                    if connections.contains(connection_id) {
                        seq![
                            SpecEffect::Send(
                                connection_id,
                                SpecConnectionAction::RegisterUDP(addr),
                            ),
                        ]
                    } else {
                        Seq::empty()
                    }
                },
                _ => if routes.contains_key(addr) {
                    seq![
                        SpecEffect::Send(
                            routes[addr],
                            SpecConnectionAction::ProcessPacket(p, false),
                        ),
                    ]
                } else {
                    Seq::empty()
                },
            },
        ),
    }
}

/// Whether handling a datagram went as `spec_datagram` says, from the
/// effects `e0` to `e1`.
pub open spec fn datagram_handled(
    connections: Set<i32>,
    routes: Map<Seq<char>, i32>,
    addr: Seq<char>,
    d: Seq<u8>,
    readable: bool,
    e0: Seq<SpecEffect>,
    e1: Seq<SpecEffect>,
) -> bool {
    match spec_datagram(connections, routes, addr, d) {
        None => !readable && e1 == e0,
        Some(effects) => readable && e1 == e0 + effects,
    }
}

/// Handles a datagram from `addr` at `now` (monotonic, in nanoseconds).
/// An address with a route comes with the rate limiter of the connection it
/// routes to, which is asked first: a datagram it refuses is dropped unread, with no effect.
/// Otherwise see `spec_datagram`; `false`, with no effect, where the
/// datagram ends inside a fixed-width field.
pub fn route_datagram(
    state: &AppState,
    addr: &String,
    limiter: Option<&mut RateLimiter>,
    now: u128,
    datagram: Vec<u8>,
    out: &mut Vec<Effect>,
) -> (readable: bool)
    requires
        (limiter is Some) == state.routes().contains_key(addr@),
    ensures
        match limiter {
            Some(l) => {
                &&& (*l).spec_allow(now, &*final(l), (*l).admits(now))
                &&& if (*l).admits(now) {
                    datagram_handled(
                        state.connections(),
                        state.routes(),
                        addr@,
                        datagram@,
                        readable,
                        effects_view(old(out)@),
                        effects_view(final(out)@),
                    )
                } else {
                    readable && final(out)@ == old(out)@
                }
            },
            None => datagram_handled(
                state.connections(),
                state.routes(),
                addr@,
                datagram@,
                readable,
                effects_view(old(out)@),
                effects_view(final(out)@),
            ),
        },
{
    match limiter {
        Some(l) => {
            if !l.allow_at(now) {
                return true;
            }
        },
        None => {},
    }
    read_datagram(state, addr, datagram, out)
}

/// Reads a datagram that may be handled (see `spec_datagram`).
fn read_datagram(state: &AppState, addr: &String, datagram: Vec<u8>, out: &mut Vec<Effect>) -> (readable: bool)
    ensures
        datagram_handled(
            state.connections(),
            state.routes(),
            addr@,
            datagram@,
            readable,
            effects_view(old(out)@),
            effects_view(final(out)@),
        ),
{
    let ghost e0 = effects_view(out@);
    let mut cursor = ByteCursor::new(datagram);
    match AnyPacket::try_read(&mut cursor) {
        None => false,
        Some(Err(_)) => {
            assert(effects_view(out@) =~= e0 + Seq::empty());
            true
        },
        Some(Ok(packet)) => {
            let register = match &packet {
                AnyPacket::Framework(FrameworkMessage::RegisterUDP { connection_id }) => Some(
                    *connection_id,
                ),
                _ => None,
            };
            match register {
                Some(connection_id) => {
                    if state.has_connection_id(connection_id) {
                        emit(out, Effect::Send(connection_id, ConnectionAction::RegisterUDP(addr.clone())));
                        assert(effects_view(out@) =~= e0 + seq![
                            SpecEffect::Send(connection_id, SpecConnectionAction::RegisterUDP(addr@)),
                        ]);
                    } else {
                        assert(effects_view(out@) =~= e0 + Seq::empty());
                    }
                },
                None => {
                    match state.get_route(addr) {
                        Some(target) => {
                            let ghost pv = packet@;
                            emit(out, Effect::Send(target, ConnectionAction::ProcessPacket(packet, false)));
                            assert(effects_view(out@) =~= e0 + seq![
                                SpecEffect::Send(target, SpecConnectionAction::ProcessPacket(pv, false)),
                            ]);
                        },
                        None => {
                            assert(effects_view(out@) =~= e0 + Seq::empty());
                        },
                    }
                },
            }
            true
        },
    }
}

impl ConnectionActor {
    /// What the server forgets once the connection ended: the connection
    /// (see `AppState::remove_connection`, with the connection's room), then
    /// the route of its UDP address, if it registered one.
    pub fn finish(self, state: &mut AppState, out: &mut Vec<Effect>)
        ensures
            final(state).connections() == old(state).connections().remove(self@.id),
            final(state).routes() == match self@.udp_addr {
                Some(a) => old(state).routes().remove(a),
                None => old(state).routes(),
            },
            final(state).config == old(state).config,
            ({
                let rooms = old(state).room_state.rooms();
                match self@.room {
                    None => final(state).room_state.rooms() == rooms && final(out)@ == old(out)@,
                    Some(link) => if !rooms.contains_key(link.room_id) {
                        final(state).room_state.rooms() == rooms && final(out)@ == old(out)@
                    } else {
                        let room = rooms[link.room_id];
                        let left = crate::state::without_member(room.members, self@.id);
                        let told_host = effects_view(old(out)@).push(
                            crate::state::send_app(
                                room.host_connection_id,
                                crate::packets::SpecAppPacket::ConnectionClosed {
                                    connection_id: self@.id,
                                    reason: crate::constant::ConnectionCloseReason::Closed,
                                },
                            ),
                        );
                        if room.host_connection_id == self@.id {
                            &&& final(state).room_state.rooms() == rooms.remove(link.room_id)
                            &&& effects_view(final(out)@) == told_host
                                + crate::state::close_effects(left) + seq![
                                SpecEffect::Publish(
                                    crate::state::SpecRoomUpdate::Remove(link.room_id),
                                ),
                            ]
                        } else {
                            &&& final(state).room_state.rooms() == rooms.insert(
                                link.room_id,
                                crate::state::with_members(room, left),
                            )
                            &&& effects_view(final(out)@) == told_host
                        }
                    },
                }
            }),
    {
        let room_id = match &self.room {
            Some(link) => Some(link.room_id().clone()),
            None => None,
        };
        state.remove_connection(self.id, room_id, out);
        if let Some(addr) = &self.udp_addr {
            state.remove_udp(addr);
        }
    }
}

} // verus!
