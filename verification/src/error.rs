use vstd::prelude::*;

verus! {

/// Errors of the server's room and connection logic.
#[derive(Debug)]
pub enum AppError {
    Io(String),
    PacketParsing(String),
    RoomNotFound(String),
    AuthFailed(String),
    PacketSpamming,
    LockPoison,
    InvalidState(String),
    Unknown(String),
}

/// Why a packet could not be decoded from its bytes.
#[derive(Debug, Clone, Copy, PartialEq, Eq)]
pub enum PacketError {
    /// The packet had no byte at all.
    EmptyPacket,
    /// A framework packet carried an identifier outside `0..=4`.
    UnknownFrameworkId(u8),
    /// An application packet carried an identifier outside `0..=12`.
    UnknownAppId(u8),
    /// Fewer than two bytes were left where a string length was expected.
    MissingStringLength(usize),
    /// The string announced more bytes than were left.
    MissingStringContent(usize, usize),
    /// The string bytes were not valid UTF-8.
    InvalidUtf8,
    /// A room close reason code outside `0..=3`.
    InvalidRoomCloseReason(u8),
    /// A connection close reason code outside `0..=3`.
    InvalidConnectionCloseReason(u8),
    /// A message type code outside `0..=4`.
    InvalidMessageType(u8),
}

} // verus!
