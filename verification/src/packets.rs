//! The packets exchanged with game clients and room hosts, how they are read
//! from a payload and how they are written.
use crate::codec::{lemma_i32_roundtrip, lemma_u16_roundtrip, u16_be, i32_be, i32_be_bytes, len_header, put_i32, put_slice, put_u8, read_string, string_at, string_bytes, write_string, ByteCursor};
use crate::constant::{ConnectionCloseReason, MessageType, RoomCloseReason};
use crate::error::PacketError;
use vstd::prelude::*;
use vstd::utf8::encode_utf8;

verus! {

broadcast use vstd::utf8::group_utf8_lib;

/// First byte of an application packet (`-4` as a signed byte).
pub const APP_PACKET_ID: u8 = 252;

/// First byte of a framework packet (`-2` as a signed byte).
pub const FRAMEWORK_PACKET_ID: u8 = 254;

/// Any packet: a framework message, an application packet, or bytes that the
/// server passes on unread.
#[derive(Debug, Clone)]
pub enum AnyPacket {
    Framework(FrameworkMessage),
    App(AppPacket),
    Raw(Vec<u8>),
}

/// Messages of the network framework itself.
#[derive(Debug, Clone, Copy, PartialEq, Eq)]
pub enum FrameworkMessage {
    Ping { id: i32, is_reply: bool },
    DiscoverHost,
    KeepAlive,
    RegisterUDP { connection_id: i32 },
    RegisterTCP { connection_id: i32 },
}

/// Application packets of the room protocol.
#[derive(Debug, Clone)]
pub enum AppPacket {
    ConnectionPacketWrap(ConnectionPacketWrapPacket),
    ConnectionClosed(ConnectionClosedPacket),
    ConnectionJoin(ConnectionJoinPacket),
    ConnectionIdling(ConnectionIdlingPacket),
    RoomLink(RoomLinkPacket),
    RoomJoin(RoomJoinPacket),
    RoomClosureRequest(RoomClosureRequestPacket),
    RoomClosed(RoomClosedPacket),
    RoomCreationRequest(RoomCreationRequestPacket),
    Message(MessagePacket),
    Popup(PopupPacket),
    Message2(Message2Packet),
    Stats(StatsPacket),
}

/// Bytes of a connection, relayed between it and the host of its room.
#[derive(Debug, Clone)]
pub struct ConnectionPacketWrapPacket {
    pub connection_id: i32,
    pub is_tcp: bool,
    pub buffer: Vec<u8>,
}

/// A connection closed, or is to be closed, for the reason.
#[derive(Debug, Clone)]
pub struct ConnectionClosedPacket {
    pub connection_id: i32,
    pub reason: ConnectionCloseReason,
}

/// A connection joined the room.
#[derive(Debug, Clone)]
pub struct ConnectionJoinPacket {
    pub connection_id: i32,
    pub room_id: String,
}

/// A connection is idle.
#[derive(Debug, Clone)]
pub struct ConnectionIdlingPacket {
    pub connection_id: i32,
}

/// The id of the room just opened.
#[derive(Debug, Clone)]
pub struct RoomLinkPacket {
    pub room_id: String,
}

/// A request to join a room, with its password.
#[derive(Debug, Clone)]
pub struct RoomJoinPacket {
    pub room_id: String,
    pub password: String,
}

/// A request to close the room of the connection.
#[derive(Debug, Clone)]
pub struct RoomClosureRequestPacket;

/// The room closed for the reason.
#[derive(Debug, Clone)]
pub struct RoomClosedPacket {
    pub reason: RoomCloseReason,
}

/// A request to open a room; `data` is the room's stats as JSON text.
#[derive(Debug, Clone)]
pub struct RoomCreationRequestPacket {
    pub version: String,
    pub password: String,
    pub data: String,
}

/// A text message for the client.
#[derive(Debug, Clone)]
pub struct MessagePacket {
    pub message: String,
}

/// A text the client shows in a popup.
#[derive(Debug, Clone)]
pub struct PopupPacket {
    pub message: String,
}

/// A predefined message for the client.
#[derive(Debug, Clone)]
pub struct Message2Packet {
    pub message: MessageType,
}

/// New stats of a room; `data` is the stats as JSON text.
#[derive(Debug, Clone)]
pub struct StatsPacket {
    pub room_id: String,
    pub data: String,
}

/// The value of an application packet: strings as characters, buffers as bytes.
pub enum SpecAppPacket {
    ConnectionPacketWrap { connection_id: i32, is_tcp: bool, buffer: Seq<u8> },
    ConnectionClosed { connection_id: i32, reason: ConnectionCloseReason },
    ConnectionJoin { connection_id: i32, room_id: Seq<char> },
    ConnectionIdling { connection_id: i32 },
    RoomLink { room_id: Seq<char> },
    RoomJoin { room_id: Seq<char>, password: Seq<char> },
    RoomClosureRequest,
    RoomClosed { reason: RoomCloseReason },
    RoomCreationRequest { version: Seq<char>, password: Seq<char>, data: Seq<char> },
    Message { message: Seq<char> },
    Popup { message: Seq<char> },
    Message2 { message: MessageType },
    Stats { room_id: Seq<char>, data: Seq<char> },
}

/// The value of any packet.
pub enum SpecAnyPacket {
    Framework(FrameworkMessage),
    App(SpecAppPacket),
    Raw(Seq<u8>),
}

impl View for AppPacket {
    type V = SpecAppPacket;

    open spec fn view(&self) -> SpecAppPacket {
        match self {
            AppPacket::ConnectionPacketWrap(p) => SpecAppPacket::ConnectionPacketWrap {
                connection_id: p.connection_id,
                is_tcp: p.is_tcp,
                buffer: p.buffer@,
            },
            AppPacket::ConnectionClosed(p) => SpecAppPacket::ConnectionClosed {
                connection_id: p.connection_id,
                reason: p.reason,
            },
            AppPacket::ConnectionJoin(p) => SpecAppPacket::ConnectionJoin {
                connection_id: p.connection_id,
                room_id: p.room_id@,
            },
            AppPacket::ConnectionIdling(p) => SpecAppPacket::ConnectionIdling {
                connection_id: p.connection_id,
            },
            AppPacket::RoomLink(p) => SpecAppPacket::RoomLink { room_id: p.room_id@ },
            AppPacket::RoomJoin(p) => SpecAppPacket::RoomJoin {
                room_id: p.room_id@,
                password: p.password@,
            },
            AppPacket::RoomClosureRequest(_) => SpecAppPacket::RoomClosureRequest,
            AppPacket::RoomClosed(p) => SpecAppPacket::RoomClosed { reason: p.reason },
            AppPacket::RoomCreationRequest(p) => SpecAppPacket::RoomCreationRequest {
                version: p.version@,
                password: p.password@,
                data: p.data@,
            },
            AppPacket::Message(p) => SpecAppPacket::Message { message: p.message@ },
            AppPacket::Popup(p) => SpecAppPacket::Popup { message: p.message@ },
            AppPacket::Message2(p) => SpecAppPacket::Message2 { message: p.message },
            AppPacket::Stats(p) => SpecAppPacket::Stats { room_id: p.room_id@, data: p.data@ },
        }
    }
}

impl View for AnyPacket {
    type V = SpecAnyPacket;

    open spec fn view(&self) -> SpecAnyPacket {
        match self {
            AnyPacket::Framework(m) => SpecAnyPacket::Framework(*m),
            AnyPacket::App(a) => SpecAnyPacket::App(a@),
            AnyPacket::Raw(b) => SpecAnyPacket::Raw(b@),
        }
    }
}

/// The outcome of reading a value at a position: the value and the position
/// after it, the reason the bytes were refused, or the end of the payload
/// inside a fixed-width field.
pub enum Decoded<T> {
    Done(T, int),
    Failed(PacketError),
    Truncated,
}

/// The `i32` whose big-endian bytes start at position `i`.
pub open spec fn i32_at(d: Seq<u8>, i: int) -> i32 {
    i32_be(d[i], d[i + 1], d[i + 2], d[i + 3])
}

/// What reading a framework message at position `i` gives (`i` is just past
/// the framework packet id).
pub open spec fn spec_read_framework(d: Seq<u8>, i: int) -> Decoded<FrameworkMessage> {
    if d.len() - i < 1 {
        Decoded::Truncated
    } else {
        let fid = d[i];
        if fid == 0 {
            if d.len() - i < 6 {
                Decoded::Truncated
            } else {
                Decoded::Done(
                    FrameworkMessage::Ping { id: i32_at(d, i + 1), is_reply: d[i + 5] != 0 },
                    i + 6,
                )
            }
        } else if fid == 1 {
            Decoded::Done(FrameworkMessage::DiscoverHost, i + 1)
        } else if fid == 2 {
            Decoded::Done(FrameworkMessage::KeepAlive, i + 1)
        } else if fid == 3 {
            if d.len() - i < 5 {
                Decoded::Truncated
            } else {
                Decoded::Done(FrameworkMessage::RegisterUDP { connection_id: i32_at(d, i + 1) }, i + 5)
            }
        } else if fid == 4 {
            if d.len() - i < 5 {
                Decoded::Truncated
            } else {
                Decoded::Done(FrameworkMessage::RegisterTCP { connection_id: i32_at(d, i + 1) }, i + 5)
            }
        } else {
            Decoded::Failed(PacketError::UnknownFrameworkId(fid))
        }
    }
}

/// What reading one string at `i` and building a packet from it gives.
pub open spec fn decoded_string1(
    d: Seq<u8>,
    i: int,
    f: spec_fn(Seq<char>) -> SpecAppPacket,
) -> Decoded<SpecAppPacket> {
    match string_at(d, i) {
        Ok((s, n)) => Decoded::Done(f(s), n),
        Err(e) => Decoded::Failed(e),
    }
}

/// What reading two strings from `i` on and building a packet from them gives.
pub open spec fn decoded_string2(
    d: Seq<u8>,
    i: int,
    f: spec_fn(Seq<char>, Seq<char>) -> SpecAppPacket,
) -> Decoded<SpecAppPacket> {
    match string_at(d, i) {
        Ok((s1, n1)) => match string_at(d, n1) {
            Ok((s2, n2)) => Decoded::Done(f(s1, s2), n2),
            Err(e) => Decoded::Failed(e),
        },
        Err(e) => Decoded::Failed(e),
    }
}

/// What reading an application packet at position `i` gives (`i` is just
/// past the application packet id).  A connection packet wrap keeps, as its
/// buffer, every byte from its connection id on.
pub open spec fn spec_read_app(d: Seq<u8>, i: int) -> Decoded<SpecAppPacket> {
    if d.len() - i < 1 {
        Decoded::Truncated
    } else {
        let pid = d[i];
        let j = i + 1;
        if pid == 0 {
            if d.len() - j < 5 {
                Decoded::Truncated
            } else {
                Decoded::Done(
                    SpecAppPacket::ConnectionPacketWrap {
                        connection_id: i32_at(d, j),
                        is_tcp: d[j + 4] != 0,
                        buffer: d.subrange(j, d.len() as int),
                    },
                    d.len() as int,
                )
            }
        } else if pid == 1 {
            if d.len() - j < 5 {
                Decoded::Truncated
            } else {
                match ConnectionCloseReason::spec_decode(d[j + 4]) {
                    Ok(reason) => Decoded::Done(
                        SpecAppPacket::ConnectionClosed { connection_id: i32_at(d, j), reason },
                        j + 5,
                    ),
                    Err(e) => Decoded::Failed(e),
                }
            }
        } else if pid == 2 {
            if d.len() - j < 4 {
                Decoded::Truncated
            } else {
                let c = i32_at(d, j);
                decoded_string1(
                    d,
                    j + 4,
                    |s: Seq<char>| SpecAppPacket::ConnectionJoin { connection_id: c, room_id: s },
                )
            }
        } else if pid == 3 {
            if d.len() - j < 4 {
                Decoded::Truncated
            } else {
                Decoded::Done(SpecAppPacket::ConnectionIdling { connection_id: i32_at(d, j) }, j + 4)
            }
        } else if pid == 4 {
            match string_at(d, j) {
                Ok((version, n1)) => match string_at(d, n1) {
                    Ok((password, n2)) => match string_at(d, n2) {
                        Ok((data, n3)) => Decoded::Done(
                            SpecAppPacket::RoomCreationRequest { version, password, data },
                            n3,
                        ),
                        Err(e) => Decoded::Failed(e),
                    },
                    Err(e) => Decoded::Failed(e),
                },
                Err(e) => Decoded::Failed(e),
            }
        } else if pid == 5 {
            Decoded::Done(SpecAppPacket::RoomClosureRequest, j)
        } else if pid == 6 {
            if d.len() - j < 1 {
                Decoded::Truncated
            } else {
                match RoomCloseReason::spec_decode(d[j]) {
                    Ok(reason) => Decoded::Done(SpecAppPacket::RoomClosed { reason }, j + 1),
                    Err(e) => Decoded::Failed(e),
                }
            }
        } else if pid == 7 {
            decoded_string1(d, j, |s: Seq<char>| SpecAppPacket::RoomLink { room_id: s })
        } else if pid == 8 {
            decoded_string2(
                d,
                j,
                |a: Seq<char>, b: Seq<char>| SpecAppPacket::RoomJoin { room_id: a, password: b },
            )
        } else if pid == 9 {
            decoded_string1(d, j, |s: Seq<char>| SpecAppPacket::Message { message: s })
        } else if pid == 10 {
            if d.len() - j < 1 {
                Decoded::Truncated
            } else {
                match MessageType::spec_decode(d[j]) {
                    Ok(message) => Decoded::Done(SpecAppPacket::Message2 { message }, j + 1),
                    Err(e) => Decoded::Failed(e),
                }
            }
        } else if pid == 11 {
            decoded_string1(d, j, |s: Seq<char>| SpecAppPacket::Popup { message: s })
        } else if pid == 12 {
            decoded_string2(
                d,
                j,
                |a: Seq<char>, b: Seq<char>| SpecAppPacket::Stats { room_id: a, data: b },
            )
        } else {
            Decoded::Failed(PacketError::UnknownAppId(pid))
        }
    }
}

/// What reading any packet at position `i` gives: an empty payload is an
/// error; a first byte other than the two packet ids makes the whole rest a
/// raw packet.
pub open spec fn spec_read_any(d: Seq<u8>, i: int) -> Decoded<SpecAnyPacket> {
    if d.len() - i < 1 {
        Decoded::Failed(PacketError::EmptyPacket)
    } else if d[i] == FRAMEWORK_PACKET_ID {
        match spec_read_framework(d, i + 1) {
            Decoded::Done(m, n) => Decoded::Done(SpecAnyPacket::Framework(m), n),
            Decoded::Failed(e) => Decoded::Failed(e),
            Decoded::Truncated => Decoded::Truncated,
        }
    } else if d[i] == APP_PACKET_ID {
        match spec_read_app(d, i + 1) {
            Decoded::Done(a, n) => Decoded::Done(SpecAnyPacket::App(a), n),
            Decoded::Failed(e) => Decoded::Failed(e),
            Decoded::Truncated => Decoded::Truncated,
        }
    } else {
        Decoded::Done(SpecAnyPacket::Raw(d.subrange(i, d.len() as int)), d.len() as int)
    }
}


impl FrameworkMessage {
    /// Reads a framework message whose id byte has been read; `None` where
    /// the payload ends inside a fixed-width field.
    pub fn try_read(buf: &mut ByteCursor) -> (r: Option<Result<FrameworkMessage, PacketError>>)
        ensures
            final(buf).data() == old(buf).data(),
            match spec_read_framework(old(buf).data(), old(buf).pos()) {
                Decoded::Done(v, n) => r == Some(Ok::<FrameworkMessage, PacketError>(v))
                    && final(buf).pos() == n,
                Decoded::Failed(e) => r == Some(Err::<FrameworkMessage, PacketError>(e)),
                Decoded::Truncated => r is None,
            },
    {
        let remaining = buf.remaining();
        if remaining < 1 {
            return None;
        }
        let fid = buf.get_u8();
        match fid {
            0 => {
                if remaining < 6 {
                    return None;
                }
                let id = buf.get_i32();
                let is_reply = buf.get_u8() != 0;
                Some(Ok(FrameworkMessage::Ping { id, is_reply }))
            },
            1 => Some(Ok(FrameworkMessage::DiscoverHost)),
            2 => Some(Ok(FrameworkMessage::KeepAlive)),
            3 => {
                if remaining < 5 {
                    return None;
                }
                Some(Ok(FrameworkMessage::RegisterUDP { connection_id: buf.get_i32() }))
            },
            4 => {
                if remaining < 5 {
                    return None;
                }
                Some(Ok(FrameworkMessage::RegisterTCP { connection_id: buf.get_i32() }))
            },
            _ => Some(Err(PacketError::UnknownFrameworkId(fid))),
        }
    }

    /// Reads a framework message whose id byte has been read.
    pub fn read(buf: &mut ByteCursor) -> (r: Result<FrameworkMessage, PacketError>)
        requires
            !(spec_read_framework(old(buf).data(), old(buf).pos()) is Truncated),
        ensures
            final(buf).data() == old(buf).data(),
            match spec_read_framework(old(buf).data(), old(buf).pos()) {
                Decoded::Done(v, n) => r == Ok::<FrameworkMessage, PacketError>(v)
                    && final(buf).pos() == n,
                Decoded::Failed(e) => r == Err::<FrameworkMessage, PacketError>(e),
                Decoded::Truncated => false,
            },
    {
        match FrameworkMessage::try_read(buf) {
            Some(r) => r,
            None => Err(PacketError::EmptyPacket),
        }
    }
}


/// The ensures shared by the application packet readers.
pub open spec fn app_read_outcome(
    d: Seq<u8>,
    i: int,
    r: Option<Result<AppPacket, PacketError>>,
    final_pos: int,
) -> bool {
    match spec_read_app(d, i) {
        Decoded::Done(v, n) => r matches Some(Ok(p)) && p@ == v && final_pos == n,
        Decoded::Failed(e) => r matches Some(Err(e2)) && e2 == e,
        Decoded::Truncated => r is None,
    }
}

impl AppPacket {
    /// Reads an application packet whose id byte has been read; `None` where
    /// the payload ends inside a fixed-width field.
    pub fn try_read(buf: &mut ByteCursor) -> (r: Option<Result<AppPacket, PacketError>>)
        ensures
            final(buf).data() == old(buf).data(),
            app_read_outcome(old(buf).data(), old(buf).pos(), r, final(buf).pos()),
    {
        let ghost d = buf.data();
        let remaining = buf.remaining();
        if remaining < 1 {
            return None;
        }
        let pid = buf.get_u8();
        let remaining = buf.remaining();
        match pid {
            0 => {
                if remaining < 5 {
                    return None;
                }
                let start = buf.position();
                let connection_id = buf.get_i32();
                let is_tcp = buf.get_u8() != 0;
                buf.set_position(start);
                let buffer = buf.take_rest();
                Some(Ok(AppPacket::ConnectionPacketWrap(ConnectionPacketWrapPacket {
                    connection_id,
                    is_tcp,
                    buffer,
                })))
            },
            1 => {
                if remaining < 5 {
                    return None;
                }
                let connection_id = buf.get_i32();
                let code = buf.get_u8();
                match ConnectionCloseReason::try_from(code) {
                    Ok(reason) => Some(Ok(AppPacket::ConnectionClosed(ConnectionClosedPacket {
                        connection_id,
                        reason,
                    }))),
                    Err(e) => Some(Err(e)),
                }
            },
            2 => {
                if remaining < 4 {
                    return None;
                }
                let connection_id = buf.get_i32();
                match read_string(buf) {
                    Ok(room_id) => Some(Ok(AppPacket::ConnectionJoin(ConnectionJoinPacket {
                        connection_id,
                        room_id,
                    }))),
                    Err(e) => Some(Err(e)),
                }
            },
            3 => {
                if remaining < 4 {
                    return None;
                }
                let connection_id = buf.get_i32();
                Some(Ok(AppPacket::ConnectionIdling(ConnectionIdlingPacket { connection_id })))
            },
            4 => {
                let version = match read_string(buf) {
                    Ok(s) => s,
                    Err(e) => return Some(Err(e)),
                };
                let password = match read_string(buf) {
                    Ok(s) => s,
                    Err(e) => return Some(Err(e)),
                };
                let data = match read_string(buf) {
                    Ok(s) => s,
                    Err(e) => return Some(Err(e)),
                };
                Some(Ok(AppPacket::RoomCreationRequest(RoomCreationRequestPacket {
                    version,
                    password,
                    data,
                })))
            },
            5 => Some(Ok(AppPacket::RoomClosureRequest(RoomClosureRequestPacket))),
            6 => {
                if remaining < 1 {
                    return None;
                }
                let code = buf.get_u8();
                match RoomCloseReason::try_from(code) {
                    Ok(reason) => Some(Ok(AppPacket::RoomClosed(RoomClosedPacket { reason }))),
                    Err(e) => Some(Err(e)),
                }
            },
            7 => match read_string(buf) {
                Ok(room_id) => Some(Ok(AppPacket::RoomLink(RoomLinkPacket { room_id }))),
                Err(e) => Some(Err(e)),
            },
            8 => {
                let room_id = match read_string(buf) {
                    Ok(s) => s,
                    Err(e) => return Some(Err(e)),
                };
                let password = match read_string(buf) {
                    Ok(s) => s,
                    Err(e) => return Some(Err(e)),
                };
                Some(Ok(AppPacket::RoomJoin(RoomJoinPacket { room_id, password })))
            },
            9 => match read_string(buf) {
                Ok(message) => Some(Ok(AppPacket::Message(MessagePacket { message }))),
                Err(e) => Some(Err(e)),
            },
            10 => {
                if remaining < 1 {
                    return None;
                }
                let code = buf.get_u8();
                match MessageType::try_from(code) {
                    Ok(message) => Some(Ok(AppPacket::Message2(Message2Packet { message }))),
                    Err(e) => Some(Err(e)),
                }
            },
            11 => match read_string(buf) {
                Ok(message) => Some(Ok(AppPacket::Popup(PopupPacket { message }))),
                Err(e) => Some(Err(e)),
            },
            12 => {
                let room_id = match read_string(buf) {
                    Ok(s) => s,
                    Err(e) => return Some(Err(e)),
                };
                let data = match read_string(buf) {
                    Ok(s) => s,
                    Err(e) => return Some(Err(e)),
                };
                Some(Ok(AppPacket::Stats(StatsPacket { room_id, data })))
            },
            _ => Some(Err(PacketError::UnknownAppId(pid))),
        }
    }

    /// Reads an application packet whose id byte has been read.
    pub fn read(buf: &mut ByteCursor) -> (r: Result<AppPacket, PacketError>)
        requires
            !(spec_read_app(old(buf).data(), old(buf).pos()) is Truncated),
        ensures
            final(buf).data() == old(buf).data(),
            app_read_outcome(old(buf).data(), old(buf).pos(), Some(r), final(buf).pos()),
    {
        match AppPacket::try_read(buf) {
            Some(r) => r,
            None => Err(PacketError::EmptyPacket),
        }
    }
}


/// The ensures shared by the packet readers.
pub open spec fn any_read_outcome(
    d: Seq<u8>,
    i: int,
    r: Option<Result<AnyPacket, PacketError>>,
    final_pos: int,
) -> bool {
    match spec_read_any(d, i) {
        Decoded::Done(v, n) => r matches Some(Ok(p)) && p@ == v && final_pos == n,
        Decoded::Failed(e) => r matches Some(Err(e2)) && e2 == e,
        Decoded::Truncated => r is None,
    }
}

impl AnyPacket {
    /// Reads a packet; `None` where the payload ends inside a fixed-width
    /// field.
    pub fn try_read(buf: &mut ByteCursor) -> (r: Option<Result<AnyPacket, PacketError>>)
        ensures
            final(buf).data() == old(buf).data(),
            any_read_outcome(old(buf).data(), old(buf).pos(), r, final(buf).pos()),
    {
        if buf.remaining() < 1 {
            return Some(Err(PacketError::EmptyPacket));
        }
        let start = buf.position();
        let id = buf.get_u8();
        if id == FRAMEWORK_PACKET_ID {
            match FrameworkMessage::try_read(buf) {
                Some(Ok(m)) => Some(Ok(AnyPacket::Framework(m))),
                Some(Err(e)) => Some(Err(e)),
                None => None,
            }
        } else if id == APP_PACKET_ID {
            match AppPacket::try_read(buf) {
                Some(Ok(a)) => Some(Ok(AnyPacket::App(a))),
                Some(Err(e)) => Some(Err(e)),
                None => None,
            }
        } else {
            buf.set_position(start);
            let bytes = buf.take_rest();
            Some(Ok(AnyPacket::Raw(bytes)))
        }
    }

    /// Reads a packet.
    pub fn read(buf: &mut ByteCursor) -> (r: Result<AnyPacket, PacketError>)
        requires
            !(spec_read_any(old(buf).data(), old(buf).pos()) is Truncated),
        ensures
            final(buf).data() == old(buf).data(),
            any_read_outcome(old(buf).data(), old(buf).pos(), Some(r), final(buf).pos()),
    {
        match AnyPacket::try_read(buf) {
            Some(r) => r,
            None => Err(PacketError::EmptyPacket),
        }
    }
}


/// The bytes of a framework message as written.
pub open spec fn spec_framework_bytes(m: FrameworkMessage) -> Seq<u8> {
    seq![FRAMEWORK_PACKET_ID] + match m {
        FrameworkMessage::Ping { id, is_reply } => seq![0u8] + i32_be_bytes(id) + seq![
            if is_reply {
                1u8
            } else {
                0u8
            },
        ],
        FrameworkMessage::DiscoverHost => seq![1u8],
        FrameworkMessage::KeepAlive => seq![2u8],
        FrameworkMessage::RegisterUDP { connection_id } => seq![3u8] + i32_be_bytes(
            connection_id,
        ),
        FrameworkMessage::RegisterTCP { connection_id } => seq![4u8] + i32_be_bytes(
            connection_id,
        ),
    }
}

impl SpecAppPacket {
    /// Packets only clients send; the server never writes them.
    pub open spec fn is_client_only(self) -> bool {
        self is RoomCreationRequest || self is Stats
    }
}

/// The bytes of an application packet as written (client-only packets are
/// never written).
pub open spec fn spec_app_bytes(p: SpecAppPacket) -> Seq<u8> {
    seq![APP_PACKET_ID] + match p {
        SpecAppPacket::ConnectionPacketWrap { connection_id, is_tcp, buffer } => seq![0u8]
            + i32_be_bytes(connection_id) + seq![
            if is_tcp {
                1u8
            } else {
                0u8
            },
        ] + buffer,
        SpecAppPacket::ConnectionClosed { connection_id, reason } => seq![1u8] + i32_be_bytes(
            connection_id,
        ) + seq![reason.spec_code()],
        SpecAppPacket::ConnectionJoin { connection_id, room_id } => seq![2u8] + i32_be_bytes(
            connection_id,
        ) + string_bytes(room_id),
        SpecAppPacket::ConnectionIdling { connection_id } => seq![3u8] + i32_be_bytes(
            connection_id,
        ),
        SpecAppPacket::RoomCreationRequest { .. } => Seq::empty(),
        SpecAppPacket::RoomClosureRequest => seq![5u8],
        SpecAppPacket::RoomClosed { reason } => seq![6u8, reason.spec_code()],
        SpecAppPacket::RoomLink { room_id } => seq![7u8] + string_bytes(room_id),
        SpecAppPacket::RoomJoin { room_id, password } => seq![8u8] + string_bytes(room_id)
            + string_bytes(password),
        SpecAppPacket::Message { message } => seq![9u8] + string_bytes(message),
        SpecAppPacket::Message2 { message } => seq![10u8, message.spec_code()],
        SpecAppPacket::Popup { message } => seq![11u8] + string_bytes(message),
        SpecAppPacket::Stats { .. } => Seq::empty(),
    }
}

/// The payload of a packet as written, without its length header.
pub open spec fn spec_payload(p: SpecAnyPacket) -> Seq<u8> {
    match p {
        SpecAnyPacket::Framework(m) => spec_framework_bytes(m),
        SpecAnyPacket::App(a) => spec_app_bytes(a),
        SpecAnyPacket::Raw(d) => d,
    }
}

/// A payload behind its `u16` length header (the length cut to 16 bits).
pub open spec fn spec_prepend_len(payload: Seq<u8>) -> Seq<u8> {
    len_header(payload.len()) + payload
}

impl SpecAnyPacket {
    /// Whether the server can write the packet (clients alone send room
    /// creation requests and stats).
    pub open spec fn is_writable(self) -> bool {
        !(self matches SpecAnyPacket::App(a) && a.is_client_only())
    }
}

/// Appends the bytes `b ? 1 : 0`.
fn put_flag(buf: &mut Vec<u8>, b: bool)
    ensures
        final(buf)@ == old(buf)@.push(
            if b {
                1u8
            } else {
                0u8
            },
        ),
{
    put_u8(buf, if b { 1 } else { 0 });
}

impl FrameworkMessage {
    /// Appends the message's bytes.
    pub fn write(&self, buf: &mut Vec<u8>)
        ensures
            final(buf)@ == old(buf)@ + spec_framework_bytes(*self),
    {
        put_u8(buf, FRAMEWORK_PACKET_ID);
        match self {
            FrameworkMessage::Ping { id, is_reply } => {
                put_u8(buf, 0);
                put_i32(buf, *id);
                put_flag(buf, *is_reply);
            },
            FrameworkMessage::DiscoverHost => put_u8(buf, 1),
            FrameworkMessage::KeepAlive => put_u8(buf, 2),
            FrameworkMessage::RegisterUDP { connection_id } => {
                put_u8(buf, 3);
                put_i32(buf, *connection_id);
            },
            FrameworkMessage::RegisterTCP { connection_id } => {
                put_u8(buf, 4);
                put_i32(buf, *connection_id);
            },
        }
        assert(buf@ =~= old(buf)@ + spec_framework_bytes(*self));
    }
}

impl AppPacket {
    /// Appends the packet's bytes; clients alone send room creation requests
    /// and stats, so those are never written.
    pub fn write(&self, buf: &mut Vec<u8>)
        requires
            !self@.is_client_only(),
        ensures
            final(buf)@ == old(buf)@ + spec_app_bytes(self@),
    {
        put_u8(buf, APP_PACKET_ID);
        match self {
            AppPacket::ConnectionPacketWrap(p) => {
                put_u8(buf, 0);
                put_i32(buf, p.connection_id);
                put_flag(buf, p.is_tcp);
                put_slice(buf, p.buffer.as_slice());
            },
            AppPacket::ConnectionClosed(p) => {
                put_u8(buf, 1);
                put_i32(buf, p.connection_id);
                put_u8(buf, p.reason.code());
            },
            AppPacket::ConnectionJoin(p) => {
                put_u8(buf, 2);
                put_i32(buf, p.connection_id);
                write_string(buf, p.room_id.as_str());
            },
            AppPacket::ConnectionIdling(p) => {
                put_u8(buf, 3);
                put_i32(buf, p.connection_id);
            },
            AppPacket::RoomCreationRequest(_) => {},
            AppPacket::RoomClosureRequest(_) => {
                put_u8(buf, 5);
            },
            AppPacket::RoomClosed(p) => {
                put_u8(buf, 6);
                put_u8(buf, p.reason.code());
            },
            AppPacket::RoomLink(p) => {
                put_u8(buf, 7);
                write_string(buf, p.room_id.as_str());
            },
            AppPacket::RoomJoin(p) => {
                put_u8(buf, 8);
                write_string(buf, p.room_id.as_str());
                write_string(buf, p.password.as_str());
            },
            AppPacket::Message(p) => {
                put_u8(buf, 9);
                write_string(buf, p.message.as_str());
            },
            AppPacket::Message2(p) => {
                put_u8(buf, 10);
                put_u8(buf, p.message.code());
            },
            AppPacket::Popup(p) => {
                put_u8(buf, 11);
                write_string(buf, p.message.as_str());
            },
            AppPacket::Stats(_) => {},
        }
        assert(buf@ =~= old(buf)@ + spec_app_bytes(self@));
    }
}

impl AnyPacket {
    /// The packet's bytes behind their `u16` length header.
    pub fn to_bytes(&self) -> (out: Vec<u8>)
        requires
            self@.is_writable(),
        ensures
            out@ == spec_prepend_len(spec_payload(self@)),
    {
        let mut payload: Vec<u8> = Vec::new();
        match self {
            AnyPacket::Framework(m) => m.write(&mut payload),
            AnyPacket::App(a) => a.write(&mut payload),
            AnyPacket::Raw(data) => put_slice(&mut payload, data.as_slice()),
        }
        assert(payload@ =~= spec_payload(self@));
        AnyPacket::prepend_len(payload)
    }

    /// Puts the `u16` length header (the length cut to 16 bits) in front of a
    /// payload.
    pub fn prepend_len(payload: Vec<u8>) -> (out: Vec<u8>)
        ensures
            out@ == spec_prepend_len(payload@),
    {
        let mut header: Vec<u8> = Vec::new();
        crate::codec::put_u16(&mut header, (payload.len() % 0x1_0000) as u16);
        put_slice(&mut header, payload.as_slice());
        header
    }
}


/// Whether a string's UTF-8 bytes fit the `u16` length header.
pub open spec fn str_fits(s: Seq<char>) -> bool {
    encode_utf8(s).len() < 0x1_0000
}

impl SpecAppPacket {
    /// Whether every string of the packet fits its `u16` length header.
    pub open spec fn strings_fit(self) -> bool {
        match self {
            SpecAppPacket::ConnectionJoin { room_id, .. } => str_fits(room_id),
            SpecAppPacket::RoomLink { room_id } => str_fits(room_id),
            SpecAppPacket::RoomJoin { room_id, password } => str_fits(room_id) && str_fits(
                password,
            ),
            SpecAppPacket::Message { message } => str_fits(message),
            SpecAppPacket::Popup { message } => str_fits(message),
            SpecAppPacket::RoomCreationRequest { version, password, data } => str_fits(version)
                && str_fits(password) && str_fits(data),
            SpecAppPacket::Stats { room_id, data } => str_fits(room_id) && str_fits(data),
            _ => true,
        }
    }
}

impl SpecAnyPacket {
    /// The packets that reading gives back exactly as written: the server
    /// writes them, their strings fit their length headers, a raw packet does
    /// not begin with a packet id, and the packet is no connection packet wrap
    /// (whose reading keeps the wrap's header inside its buffer).
    pub open spec fn reads_back(self) -> bool {
        match self {
            SpecAnyPacket::Framework(_) => true,
            SpecAnyPacket::App(a) => !a.is_client_only() && !(a is ConnectionPacketWrap)
                && a.strings_fit(),
            SpecAnyPacket::Raw(d) => d.len() > 0 && d[0] != FRAMEWORK_PACKET_ID && d[0]
                != APP_PACKET_ID,
        }
    }
}

proof fn lemma_i32_at(d: Seq<u8>, i: int, v: i32)
    requires
        0 <= i,
        i + 4 <= d.len(),
        d.subrange(i, i + 4) == i32_be_bytes(v),
    ensures
        i32_at(d, i) == v,
{
    assert(d[i] == d.subrange(i, i + 4)[0]);
    assert(d[i + 1] == d.subrange(i, i + 4)[1]);
    assert(d[i + 2] == d.subrange(i, i + 4)[2]);
    assert(d[i + 3] == d.subrange(i, i + 4)[3]);
    lemma_i32_roundtrip(v);
}

proof fn lemma_string_at(d: Seq<u8>, i: int, s: Seq<char>)
    requires
        0 <= i,
        i + string_bytes(s).len() <= d.len(),
        d.subrange(i, i + string_bytes(s).len()) == string_bytes(s),
        str_fits(s),
    ensures
        string_at(d, i) == Ok::<(Seq<char>, int), PacketError>(
            (s, i + string_bytes(s).len()),
        ),
{
    let b = encode_utf8(s);
    let sb = string_bytes(s);
    let h = (b.len() % 0x1_0000) as u16;
    assert(d[i] == sb[0]);
    assert(d[i + 1] == sb[1]);
    lemma_u16_roundtrip(h);
    assert(u16_be(d[i], d[i + 1]) == b.len());
    assert(d.subrange(i + 2, i + 2 + b.len()) =~= b) by {
        assert forall|k: int| 0 <= k < b.len() implies d.subrange(i + 2, i + 2 + b.len())[k]
            == b[k] by {
            assert(d[i + 2 + k] == sb[2 + k]);
        }
    }
}

proof fn lemma_read_back_framework(m: FrameworkMessage)
    ensures
        spec_read_framework(spec_framework_bytes(m), 1) == Decoded::Done(
            m,
            spec_framework_bytes(m).len() as int,
        ),
{
    let d = spec_framework_bytes(m);
    match m {
        FrameworkMessage::Ping { id, .. } => {
            assert(d.subrange(2, 6) =~= i32_be_bytes(id));
            lemma_i32_at(d, 2, id);
        },
        FrameworkMessage::RegisterUDP { connection_id } => {
            assert(d.subrange(2, 6) =~= i32_be_bytes(connection_id));
            lemma_i32_at(d, 2, connection_id);
        },
        FrameworkMessage::RegisterTCP { connection_id } => {
            assert(d.subrange(2, 6) =~= i32_be_bytes(connection_id));
            lemma_i32_at(d, 2, connection_id);
        },
        _ => {},
    }
}

proof fn lemma_read_back_fixed(a: SpecAppPacket)
    requires
        a is ConnectionClosed || a is ConnectionIdling || a is RoomClosureRequest
            || a is RoomClosed || a is Message2,
    ensures
        spec_read_app(spec_app_bytes(a), 1) == Decoded::Done(a, spec_app_bytes(a).len() as int),
{
    let d = spec_app_bytes(a);
    match a {
        SpecAppPacket::ConnectionClosed { connection_id, reason } => {
            assert(d.subrange(2, 6) =~= i32_be_bytes(connection_id));
            lemma_i32_at(d, 2, connection_id);
        },
        SpecAppPacket::ConnectionIdling { connection_id } => {
            assert(d.subrange(2, 6) =~= i32_be_bytes(connection_id));
            lemma_i32_at(d, 2, connection_id);
        },
        _ => {},
    }
}

proof fn lemma_read_back_join(a: SpecAppPacket)
    requires
        a is ConnectionJoin,
        a.strings_fit(),
    ensures
        spec_read_app(spec_app_bytes(a), 1) == Decoded::Done(a, spec_app_bytes(a).len() as int),
{
    let d = spec_app_bytes(a);
    if let SpecAppPacket::ConnectionJoin { connection_id, room_id } = a {
        assert(d.subrange(2, 6) =~= i32_be_bytes(connection_id));
        lemma_i32_at(d, 2, connection_id);
        assert(d.subrange(6, d.len() as int) =~= string_bytes(room_id));
        lemma_string_at(d, 6, room_id);
    }
}

proof fn lemma_read_back_one_string(a: SpecAppPacket)
    requires
        a is RoomLink || a is Message || a is Popup,
        a.strings_fit(),
    ensures
        spec_read_app(spec_app_bytes(a), 1) == Decoded::Done(a, spec_app_bytes(a).len() as int),
{
    let d = spec_app_bytes(a);
    let s = match a {
        SpecAppPacket::RoomLink { room_id } => room_id,
        SpecAppPacket::Message { message } => message,
        SpecAppPacket::Popup { message } => message,
        _ => Seq::empty(),
    };
    assert(d.subrange(2, d.len() as int) =~= string_bytes(s));
    lemma_string_at(d, 2, s);
}

proof fn lemma_read_back_room_join(a: SpecAppPacket)
    requires
        a is RoomJoin,
        a.strings_fit(),
    ensures
        spec_read_app(spec_app_bytes(a), 1) == Decoded::Done(a, spec_app_bytes(a).len() as int),
{
    let d = spec_app_bytes(a);
    if let SpecAppPacket::RoomJoin { room_id, password } = a {
        let n: int = 2 + string_bytes(room_id).len() as int;
        assert(d.subrange(2, n) =~= string_bytes(room_id));
        assert(d.subrange(n, d.len() as int) =~= string_bytes(password));
        lemma_string_at(d, 2, room_id);
        lemma_string_at(d, n, password);
    }
}

/// Reading a written packet gives back the packet that was written, and
/// consumes every written byte, for each packet that `reads_back` admits.
pub proof fn lemma_read_back(p: SpecAnyPacket)
    requires
        p.reads_back(),
    ensures
        spec_read_any(spec_payload(p), 0) == Decoded::Done(p, spec_payload(p).len() as int),
{
    let d = spec_payload(p);
    match p {
        SpecAnyPacket::Framework(m) => {
            lemma_read_back_framework(m);
        },
        SpecAnyPacket::App(a) => {
            if a is ConnectionJoin {
                lemma_read_back_join(a);
            } else if a is RoomJoin {
                lemma_read_back_room_join(a);
            } else if a is RoomLink || a is Message || a is Popup {
                lemma_read_back_one_string(a);
            } else {
                lemma_read_back_fixed(a);
            }
        },
        SpecAnyPacket::Raw(r) => {
            assert(d.subrange(0, d.len() as int) =~= r);
        },
    }
}


/// Reading a written connection packet wrap gives back its connection id
/// and flag, and, as its buffer, every written byte from the connection id
/// on: the id's four bytes and the flag's byte before the wrapped bytes.
pub proof fn lemma_read_back_wrap(connection_id: i32, is_tcp: bool, buffer: Seq<u8>)
    ensures
        ({
            let w = SpecAnyPacket::App(
                SpecAppPacket::ConnectionPacketWrap { connection_id, is_tcp, buffer },
            );
            let flag: u8 = if is_tcp {
                1
            } else {
                0
            };
            spec_read_any(spec_payload(w), 0) == Decoded::Done(
                SpecAnyPacket::App(
                    SpecAppPacket::ConnectionPacketWrap {
                        connection_id,
                        is_tcp,
                        buffer: i32_be_bytes(connection_id) + seq![flag] + buffer,
                    },
                ),
                spec_payload(w).len() as int,
            )
        }),
{
    let a = SpecAppPacket::ConnectionPacketWrap { connection_id, is_tcp, buffer };
    let d = spec_app_bytes(a);
    let flag: u8 = if is_tcp {
        1
    } else {
        0
    };
    assert(d.subrange(2, 6) =~= i32_be_bytes(connection_id));
    lemma_i32_at(d, 2, connection_id);
    assert(d[6] == flag);
    assert(d.subrange(2, d.len() as int) =~= i32_be_bytes(connection_id) + seq![flag] + buffer);
}

/// A copy of a byte buffer.
pub fn copy_bytes(b: &Vec<u8>) -> (out: Vec<u8>)
    ensures
        out@ == b@,
{
    let mut out: Vec<u8> = Vec::new();
    put_slice(&mut out, b.as_slice());
    assert(out@ =~= b@);
    out
}

impl AppPacket {
    /// A copy of the packet.
    pub fn duplicate(&self) -> (p: AppPacket)
        ensures
            p@ == self@,
    {
        match self {
            AppPacket::ConnectionPacketWrap(p) => AppPacket::ConnectionPacketWrap(
                ConnectionPacketWrapPacket {
                    connection_id: p.connection_id,
                    is_tcp: p.is_tcp,
                    buffer: copy_bytes(&p.buffer),
                },
            ),
            AppPacket::ConnectionClosed(p) => AppPacket::ConnectionClosed(
                ConnectionClosedPacket { connection_id: p.connection_id, reason: p.reason },
            ),
            AppPacket::ConnectionJoin(p) => AppPacket::ConnectionJoin(
                ConnectionJoinPacket { connection_id: p.connection_id, room_id: p.room_id.clone() },
            ),
            AppPacket::ConnectionIdling(p) => AppPacket::ConnectionIdling(
                ConnectionIdlingPacket { connection_id: p.connection_id },
            ),
            AppPacket::RoomLink(p) => AppPacket::RoomLink(
                RoomLinkPacket { room_id: p.room_id.clone() },
            ),
            AppPacket::RoomJoin(p) => AppPacket::RoomJoin(
                RoomJoinPacket { room_id: p.room_id.clone(), password: p.password.clone() },
            ),
            AppPacket::RoomClosureRequest(_) => AppPacket::RoomClosureRequest(
                RoomClosureRequestPacket,
            ),
            AppPacket::RoomClosed(p) => AppPacket::RoomClosed(RoomClosedPacket { reason: p.reason }),
            AppPacket::RoomCreationRequest(p) => AppPacket::RoomCreationRequest(
                RoomCreationRequestPacket {
                    version: p.version.clone(),
                    password: p.password.clone(),
                    data: p.data.clone(),
                },
            ),
            AppPacket::Message(p) => AppPacket::Message(MessagePacket { message: p.message.clone() }),
            AppPacket::Popup(p) => AppPacket::Popup(PopupPacket { message: p.message.clone() }),
            AppPacket::Message2(p) => AppPacket::Message2(Message2Packet { message: p.message }),
            AppPacket::Stats(p) => AppPacket::Stats(
                StatsPacket { room_id: p.room_id.clone(), data: p.data.clone() },
            ),
        }
    }
}

impl AnyPacket {
    /// A copy of the packet.
    pub fn duplicate(&self) -> (p: AnyPacket)
        ensures
            p@ == self@,
    {
        match self {
            AnyPacket::Framework(m) => AnyPacket::Framework(*m),
            AnyPacket::App(a) => AnyPacket::App(a.duplicate()),
            AnyPacket::Raw(b) => AnyPacket::Raw(copy_bytes(b)),
        }
    }
}

} // verus!
