//! Core of a Minecraft-compatible protocol client: wire primitives,
//! length-prefixed framing with optional zlib compression and AES-128/CFB8
//! encryption, a versioned packet-id registry, the entity-metadata codec,
//! and the connection state machine.

use vstd::prelude::*;

pub mod crypto;
pub mod framing;
pub mod metadata;
pub mod packets;
pub mod position;
pub mod session;
pub mod status;
pub mod uuid;
pub mod versions;
pub mod wire;

verus! {

/// Protocol version spoken by default (Minecraft 1.12.2).
pub const SUPPORTED_PROTOCOL: i32 = 340;

/// Everything that can go wrong on a connection. All of these are fatal
/// for the connection that raised them.
#[derive(Debug, Clone)]
pub enum Error {
    /// A malformed varint, a length that disagrees with the frame,
    /// residual bytes after a packet, or a failed decompression.
    MalformedFrame,
    /// A packet id unknown for the current state and direction, or a
    /// field that cannot be decoded.
    BadPacket,
    /// Clean server-initiated termination; carries the JSON text of the
    /// rich-text reason verbatim.
    Disconnect(String),
    /// A socket error, reported by the caller that owns the socket.
    Io,
    /// The session service answered with a failure or was unreachable.
    Auth,
    /// A status response or text component failed to parse as JSON.
    Json,
}

impl Error {
    /// A short diagnostic for display; `Disconnect` reasons are rendered
    /// from their component by the caller instead.
    pub fn kind_message(&self) -> (r: &'static str)
        ensures
            r@ == (match *self {
                Error::MalformedFrame => "malformed frame"@,
                Error::BadPacket => "bad packet"@,
                Error::Disconnect(_) => "disconnected"@,
                Error::Io => "io error"@,
                Error::Auth => "authentication failed"@,
                Error::Json => "json parse error"@,
            }),
    {
        match *self {
            Error::MalformedFrame => "malformed frame",
            Error::BadPacket => "bad packet",
            Error::Disconnect(_) => "disconnected",
            Error::Io => "io error",
            Error::Auth => "authentication failed",
            Error::Json => "json parse error",
        }
    }
}

/// Whether a packet travels toward the server or toward the client.
#[derive(Clone, Copy, PartialEq, Eq, Structural, Debug)]
pub enum Direction {
    Serverbound,
    Clientbound,
}

impl Direction {
    /// The direction packets travel when they are read by a peer that
    /// writes in `self`'s direction.
    pub fn opposite(&self) -> (r: Direction)
        ensures
            r == (match *self {
                Direction::Serverbound => Direction::Clientbound,
                Direction::Clientbound => Direction::Serverbound,
            }),
    {
        match *self {
            Direction::Serverbound => Direction::Clientbound,
            Direction::Clientbound => Direction::Serverbound,
        }
    }
}

/// The protocol's sub-protocols; the current state selects which packet
/// an id points to.
#[derive(Clone, Copy, PartialEq, Eq, Structural, Debug)]
pub enum State {
    Handshaking,
    Play,
    Status,
    Login,
}

} // verus!
