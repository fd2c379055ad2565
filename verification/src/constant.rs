use crate::error::PacketError;
use vstd::prelude::*;

verus! {

/// Why a room was closed; its wire code is its position.
#[derive(Debug, Clone, Copy, PartialEq, Eq)]
pub enum RoomCloseReason {
    Closed,
    ObsoleteClient,
    OutdatedVersion,
    ServerClosed,
}

/// Why a connection was closed; its wire code is its position.
#[derive(Debug, Clone, Copy, PartialEq, Eq)]
pub enum ConnectionCloseReason {
    Closed,
    Timeout,
    Error,
    PacketSpam,
}

/// A message the server shows to a client; its wire code is its position.
#[derive(Debug, Clone, Copy, PartialEq, Eq)]
pub enum MessageType {
    ServerClosing,
    PacketSpamming,
    AlreadyHosting,
    RoomClosureDenied,
    ConClosureDenied,
}

impl RoomCloseReason {
    /// The wire code of the reason.
    pub open spec fn spec_code(self) -> u8 {
        match self {
            RoomCloseReason::Closed => 0,
            RoomCloseReason::ObsoleteClient => 1,
            RoomCloseReason::OutdatedVersion => 2,
            RoomCloseReason::ServerClosed => 3,
        }
    }

    /// The reason with the given wire code, or the error for an unknown code.
    pub open spec fn spec_decode(value: u8) -> Result<RoomCloseReason, PacketError> {
        if value == 0 {
            Ok(RoomCloseReason::Closed)
        } else if value == 1 {
            Ok(RoomCloseReason::ObsoleteClient)
        } else if value == 2 {
            Ok(RoomCloseReason::OutdatedVersion)
        } else if value == 3 {
            Ok(RoomCloseReason::ServerClosed)
        } else {
            Err(PacketError::InvalidRoomCloseReason(value))
        }
    }

    /// Wire code of the reason.
    pub fn code(&self) -> (c: u8)
        ensures
            c == self.spec_code(),
    {
        match self {
            RoomCloseReason::Closed => 0,
            RoomCloseReason::ObsoleteClient => 1,
            RoomCloseReason::OutdatedVersion => 2,
            RoomCloseReason::ServerClosed => 3,
        }
    }
}

impl ConnectionCloseReason {
    /// The wire code of the reason.
    pub open spec fn spec_code(self) -> u8 {
        match self {
            ConnectionCloseReason::Closed => 0,
            ConnectionCloseReason::Timeout => 1,
            ConnectionCloseReason::Error => 2,
            ConnectionCloseReason::PacketSpam => 3,
        }
    }

    /// The reason with the given wire code, or the error for an unknown code.
    pub open spec fn spec_decode(value: u8) -> Result<ConnectionCloseReason, PacketError> {
        if value == 0 {
            Ok(ConnectionCloseReason::Closed)
        } else if value == 1 {
            Ok(ConnectionCloseReason::Timeout)
        } else if value == 2 {
            Ok(ConnectionCloseReason::Error)
        } else if value == 3 {
            Ok(ConnectionCloseReason::PacketSpam)
        } else {
            Err(PacketError::InvalidConnectionCloseReason(value))
        }
    }

    /// Wire code of the reason.
    pub fn code(&self) -> (c: u8)
        ensures
            c == self.spec_code(),
    {
        match self {
            ConnectionCloseReason::Closed => 0,
            ConnectionCloseReason::Timeout => 1,
            ConnectionCloseReason::Error => 2,
            ConnectionCloseReason::PacketSpam => 3,
        }
    }
}

impl MessageType {
    /// The wire code of the message type.
    pub open spec fn spec_code(self) -> u8 {
        match self {
            MessageType::ServerClosing => 0,
            MessageType::PacketSpamming => 1,
            MessageType::AlreadyHosting => 2,
            MessageType::RoomClosureDenied => 3,
            MessageType::ConClosureDenied => 4,
        }
    }

    /// The message type with the given wire code, or the error for an unknown code.
    pub open spec fn spec_decode(value: u8) -> Result<MessageType, PacketError> {
        if value == 0 {
            Ok(MessageType::ServerClosing)
        } else if value == 1 {
            Ok(MessageType::PacketSpamming)
        } else if value == 2 {
            Ok(MessageType::AlreadyHosting)
        } else if value == 3 {
            Ok(MessageType::RoomClosureDenied)
        } else if value == 4 {
            Ok(MessageType::ConClosureDenied)
        } else {
            Err(PacketError::InvalidMessageType(value))
        }
    }

    /// Wire code of the message type.
    pub fn code(&self) -> (c: u8)
        ensures
            c == self.spec_code(),
    {
        match self {
            MessageType::ServerClosing => 0,
            MessageType::PacketSpamming => 1,
            MessageType::AlreadyHosting => 2,
            MessageType::RoomClosureDenied => 3,
            MessageType::ConClosureDenied => 4,
        }
    }
}

impl TryFrom<u8> for RoomCloseReason {
    type Error = PacketError;

    fn try_from(value: u8) -> (r: Result<Self, PacketError>) {
        match value {
            0 => Ok(RoomCloseReason::Closed),
            1 => Ok(RoomCloseReason::ObsoleteClient),
            2 => Ok(RoomCloseReason::OutdatedVersion),
            3 => Ok(RoomCloseReason::ServerClosed),
            _ => Err(PacketError::InvalidRoomCloseReason(value)),
        }
    }
}

impl vstd::std_specs::convert::TryFromSpecImpl<u8> for RoomCloseReason {
    open spec fn obeys_try_from_spec() -> bool {
        true
    }

    open spec fn try_from_spec(v: u8) -> Result<Self, PacketError> {
        RoomCloseReason::spec_decode(v)
    }
}

impl TryFrom<u8> for ConnectionCloseReason {
    type Error = PacketError;

    fn try_from(value: u8) -> (r: Result<Self, PacketError>) {
        match value {
            0 => Ok(ConnectionCloseReason::Closed),
            1 => Ok(ConnectionCloseReason::Timeout),
            2 => Ok(ConnectionCloseReason::Error),
            3 => Ok(ConnectionCloseReason::PacketSpam),
            _ => Err(PacketError::InvalidConnectionCloseReason(value)),
        }
    }
}

impl vstd::std_specs::convert::TryFromSpecImpl<u8> for ConnectionCloseReason {
    open spec fn obeys_try_from_spec() -> bool {
        true
    }

    open spec fn try_from_spec(v: u8) -> Result<Self, PacketError> {
        ConnectionCloseReason::spec_decode(v)
    }
}

impl TryFrom<u8> for MessageType {
    type Error = PacketError;

    fn try_from(value: u8) -> (r: Result<Self, PacketError>) {
        match value {
            0 => Ok(MessageType::ServerClosing),
            1 => Ok(MessageType::PacketSpamming),
            2 => Ok(MessageType::AlreadyHosting),
            3 => Ok(MessageType::RoomClosureDenied),
            4 => Ok(MessageType::ConClosureDenied),
            _ => Err(PacketError::InvalidMessageType(value)),
        }
    }
}

impl vstd::std_specs::convert::TryFromSpecImpl<u8> for MessageType {
    open spec fn obeys_try_from_spec() -> bool {
        true
    }

    open spec fn try_from_spec(v: u8) -> Result<Self, PacketError> {
        MessageType::spec_decode(v)
    }
}

/// Decoding undoes encoding, for the three coded enums: the reason or
/// message with a code decodes from it, and a code that decodes gives back
/// that code.
pub proof fn lemma_codes_round_trip(
    room: RoomCloseReason,
    conn: ConnectionCloseReason,
    message: MessageType,
    v: u8,
)
    ensures
        RoomCloseReason::spec_decode(room.spec_code()) == Ok::<RoomCloseReason, PacketError>(room),
        ConnectionCloseReason::spec_decode(conn.spec_code()) == Ok::<
            ConnectionCloseReason,
            PacketError,
        >(conn),
        MessageType::spec_decode(message.spec_code()) == Ok::<MessageType, PacketError>(message),
        RoomCloseReason::spec_decode(v) matches Ok(r) ==> r.spec_code() == v,
        ConnectionCloseReason::spec_decode(v) matches Ok(r) ==> r.spec_code() == v,
        MessageType::spec_decode(v) matches Ok(m) ==> m.spec_code() == v,
{
}

} // verus!
