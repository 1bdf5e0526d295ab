//! The typed packets of the handshake, status and login exchanges, with
//! their wire codecs. Play-state packets are translated by id (see
//! [`crate::versions`]) but carry no decoder here; their payloads pass
//! through the framing layer opaquely.

use vstd::prelude::*;
use vstd::utf8::encode_utf8;
use crate::Error;
use crate::{State, Direction};
use crate::versions::{spec_translate, try_translate_packet_id};
use crate::wire::{Reader, VarInt, LenPrefixedBytes, varuint_bytes, varuint_decode, string_bytes,
    string_decode, lpb_bytes, lpb_decode, spec_u16_be, spec_u64_be, spec_u16_at, spec_u64_at,
    write_u16_be, write_u64_be, write_varuint64, write_string, write_len_prefixed_bytes,
    lemma_varuint_bytes_len, lemma_varuint_decode_encode, lemma_string_roundtrip,
    lemma_lpb_roundtrip, lemma_i32_u32_id, lemma_i64_u64_id, lemma_u16_at_be, lemma_u64_at_be};

verus! {

broadcast use vstd::std_specs::control_flow::group_control_flow_axioms;

/// Opens every exchange: the protocol version, the address dialed, and
/// which sub-protocol comes next (1 status, 2 login).
#[derive(Debug)]
pub struct Handshake {
    pub protocol_version: VarInt,
    pub host: String,
    pub port: u16,
    pub next: VarInt,
}

/// Asks the server for its status document.
#[derive(Debug)]
pub struct StatusRequest {
    pub empty: (),
}

/// Carries a token the server echoes back, for round-trip timing.
#[derive(Debug)]
pub struct StatusPing {
    pub ping: i64,
}

/// The status document, as JSON text.
#[derive(Debug)]
pub struct StatusResponse {
    pub status: String,
}

/// The echo of a [`StatusPing`] token.
#[derive(Debug)]
pub struct StatusPong {
    pub ping: i64,
}

/// Starts the login exchange with the profile name.
#[derive(Debug)]
pub struct LoginStart {
    pub username: String,
}

/// The server's half of the encryption negotiation: its id, its DER
/// public key, and a nonce to prove possession of the shared secret.
#[derive(Debug)]
pub struct EncryptionRequest {
    pub server_id: String,
    pub public_key: LenPrefixedBytes<VarInt>,
    pub verify_token: LenPrefixedBytes<VarInt>,
}

/// The client's answer: the shared secret and the nonce, each encrypted
/// to the server's public key.
#[derive(Debug)]
pub struct EncryptionResponse {
    pub shared_secret: LenPrefixedBytes<VarInt>,
    pub verify_token: LenPrefixedBytes<VarInt>,
}

/// Ends the login exchange; the connection moves to the play state.
#[derive(Debug)]
pub struct LoginSuccess {
    pub uuid: String,
    pub username: String,
}

/// Sets the compression threshold; allowed only during login.
#[derive(Debug)]
pub struct SetInitialCompression {
    pub threshold: VarInt,
}

/// A clean server-initiated termination, with a rich-text reason as
/// JSON.
#[derive(Debug)]
pub struct LoginDisconnect {
    pub reason: String,
}

/// Every packet this crate decodes, tagged by kind.
#[derive(Debug)]
pub enum Packet {
    Handshake(Handshake),
    StatusRequest(StatusRequest),
    StatusPing(StatusPing),
    StatusResponse(StatusResponse),
    StatusPong(StatusPong),
    LoginStart(LoginStart),
    EncryptionRequest(EncryptionRequest),
    EncryptionResponse(EncryptionResponse),
    LoginSuccess(LoginSuccess),
    SetInitialCompression(SetInitialCompression),
    LoginDisconnect(LoginDisconnect),
}

/// The mathematical shape of a [`Packet`]: the same fields with text as
/// character sequences and byte arrays as byte sequences.
pub enum PacketModel {
    Handshake { protocol_version: i32, host: Seq<char>, port: u16, next: i32 },
    StatusRequest,
    StatusPing { ping: i64 },
    StatusResponse { status: Seq<char> },
    StatusPong { ping: i64 },
    LoginStart { username: Seq<char> },
    EncryptionRequest { server_id: Seq<char>, public_key: Seq<u8>, verify_token: Seq<u8> },
    EncryptionResponse { shared_secret: Seq<u8>, verify_token: Seq<u8> },
    LoginSuccess { uuid: Seq<char>, username: Seq<char> },
    SetInitialCompression { threshold: i32 },
    LoginDisconnect { reason: Seq<char> },
}

impl View for Packet {
    type V = PacketModel;

    open spec fn view(&self) -> PacketModel {
        match self {
            Packet::Handshake(p) => p@,
            Packet::StatusRequest(p) => p@,
            Packet::StatusPing(p) => p@,
            Packet::StatusResponse(p) => p@,
            Packet::StatusPong(p) => p@,
            Packet::LoginStart(p) => p@,
            Packet::EncryptionRequest(p) => p@,
            Packet::EncryptionResponse(p) => p@,
            Packet::LoginSuccess(p) => p@,
            Packet::SetInitialCompression(p) => p@,
            Packet::LoginDisconnect(p) => p@,
        }
    }
}

/// The state whose dispatch table carries the packet.
pub open spec fn packet_state(m: PacketModel) -> State {
    match m {
        PacketModel::Handshake { .. } => State::Handshaking,
        PacketModel::StatusRequest => State::Status,
        PacketModel::StatusPing { .. } => State::Status,
        PacketModel::StatusResponse { .. } => State::Status,
        PacketModel::StatusPong { .. } => State::Status,
        _ => State::Login,
    }
}

/// The direction the packet travels.
pub open spec fn packet_direction(m: PacketModel) -> Direction {
    match m {
        PacketModel::Handshake { .. } => Direction::Serverbound,
        PacketModel::StatusRequest => Direction::Serverbound,
        PacketModel::StatusPing { .. } => Direction::Serverbound,
        PacketModel::StatusResponse { .. } => Direction::Clientbound,
        PacketModel::StatusPong { .. } => Direction::Clientbound,
        PacketModel::LoginStart { .. } => Direction::Serverbound,
        PacketModel::EncryptionRequest { .. } => Direction::Clientbound,
        PacketModel::EncryptionResponse { .. } => Direction::Serverbound,
        PacketModel::LoginSuccess { .. } => Direction::Clientbound,
        PacketModel::SetInitialCompression { .. } => Direction::Clientbound,
        PacketModel::LoginDisconnect { .. } => Direction::Clientbound,
    }
}

/// The packet's internal id, dense per state and direction.
pub open spec fn packet_internal_id(m: PacketModel) -> i32 {
    match m {
        PacketModel::Handshake { .. } => 0x00,
        PacketModel::StatusRequest => 0x00,
        PacketModel::StatusPing { .. } => 0x01,
        PacketModel::StatusResponse { .. } => 0x00,
        PacketModel::StatusPong { .. } => 0x01,
        PacketModel::LoginStart { .. } => 0x00,
        PacketModel::EncryptionRequest { .. } => 0x01,
        PacketModel::EncryptionResponse { .. } => 0x01,
        PacketModel::LoginSuccess { .. } => 0x02,
        PacketModel::SetInitialCompression { .. } => 0x03,
        PacketModel::LoginDisconnect { .. } => 0x00,
    }
}

/// The wire bytes of a packet's body (the fields after the id varint),
/// or `None` where a text field or byte array outgrows its length
/// prefix.
pub open spec fn body_bytes(m: PacketModel) -> Option<Seq<u8>> {
    match m {
        PacketModel::Handshake { protocol_version, host, port, next } => {
            if encode_utf8(host).len() <= 65536 {
                Some(
                    varuint_bytes((protocol_version as u32) as u64) + string_bytes(host)
                        + spec_u16_be(port) + varuint_bytes((next as u32) as u64),
                )
            } else {
                None
            }
        },
        PacketModel::StatusRequest => Some(Seq::empty()),
        PacketModel::StatusPing { ping } => Some(spec_u64_be(ping as u64)),
        PacketModel::StatusResponse { status } => if encode_utf8(status).len() <= 65536 {
            Some(string_bytes(status))
        } else {
            None
        },
        PacketModel::StatusPong { ping } => Some(spec_u64_be(ping as u64)),
        PacketModel::LoginStart { username } => if encode_utf8(username).len() <= 65536 {
            Some(string_bytes(username))
        } else {
            None
        },
        PacketModel::EncryptionRequest { server_id, public_key, verify_token } => {
            if encode_utf8(server_id).len() <= 65536 && public_key.len() < 0x80000000
                && verify_token.len() < 0x80000000 {
                Some(
                    string_bytes(server_id) + lpb_bytes(public_key)->Some_0 + lpb_bytes(
                        verify_token,
                    )->Some_0,
                )
            } else {
                None
            }
        },
        PacketModel::EncryptionResponse { shared_secret, verify_token } => {
            if shared_secret.len() < 0x80000000 && verify_token.len() < 0x80000000 {
                Some(lpb_bytes(shared_secret)->Some_0 + lpb_bytes(verify_token)->Some_0)
            } else {
                None
            }
        },
        PacketModel::LoginSuccess { uuid, username } => {
            if encode_utf8(uuid).len() <= 65536 && encode_utf8(username).len() <= 65536 {
                Some(string_bytes(uuid) + string_bytes(username))
            } else {
                None
            }
        },
        PacketModel::SetInitialCompression { threshold } => Some(
            varuint_bytes((threshold as u32) as u64),
        ),
        PacketModel::LoginDisconnect { reason } => if encode_utf8(reason).len() <= 65536 {
            Some(string_bytes(reason))
        } else {
            None
        },
    }
}

/// What the body of the packet with the given internal id decodes to,
/// in the given state and direction. `None` both where no such packet
/// exists and where the bytes do not fit its fields; play-state ids are
/// translated but carry no body decoder here.
pub open spec fn body_decode(
    state: State,
    dir: Direction,
    id: i32,
    bytes: Seq<u8>,
    pos: int,
) -> Option<(PacketModel, int)> {
    match (state, dir) {
        (State::Handshaking, Direction::Serverbound) => {
            if id == 0x00 {
                match varuint_decode(bytes, pos, 5) {
                    None => None,
                    Some((pv, p1)) => match string_decode(bytes, p1) {
                        None => None,
                        Some((host, p2)) => if p2 + 2 <= bytes.len() {
                            match varuint_decode(bytes, p2 + 2, 5) {
                                None => None,
                                Some((nx, p3)) => Some((
                                    PacketModel::Handshake {
                                        protocol_version: ((pv % 0x1_0000_0000) as u32) as i32,
                                        host: host,
                                        port: spec_u16_at(bytes, p2),
                                        next: ((nx % 0x1_0000_0000) as u32) as i32,
                                    },
                                    p3,
                                )),
                            }
                        } else {
                            None
                        },
                    },
                }
            } else {
                None
            }
        },
        (State::Status, Direction::Serverbound) => {
            if id == 0x00 {
                Some((PacketModel::StatusRequest, pos))
            } else if id == 0x01 {
                if pos + 8 <= bytes.len() && pos >= 0 {
                    Some((
                        PacketModel::StatusPing { ping: spec_u64_at(bytes, pos) as i64 },
                        pos + 8,
                    ))
                } else {
                    None
                }
            } else {
                None
            }
        },
        (State::Status, Direction::Clientbound) => {
            if id == 0x00 {
                match string_decode(bytes, pos) {
                    None => None,
                    Some((status, p)) => Some((PacketModel::StatusResponse { status }, p)),
                }
            } else if id == 0x01 {
                if pos + 8 <= bytes.len() && pos >= 0 {
                    Some((
                        PacketModel::StatusPong { ping: spec_u64_at(bytes, pos) as i64 },
                        pos + 8,
                    ))
                } else {
                    None
                }
            } else {
                None
            }
        },
        (State::Login, Direction::Serverbound) => {
            if id == 0x00 {
                match string_decode(bytes, pos) {
                    None => None,
                    Some((username, p)) => Some((PacketModel::LoginStart { username }, p)),
                }
            } else if id == 0x01 {
                match lpb_decode(bytes, pos) {
                    None => None,
                    Some((ss, p1)) => match lpb_decode(bytes, p1) {
                        None => None,
                        Some((vt, p2)) => Some((
                            PacketModel::EncryptionResponse {
                                shared_secret: ss,
                                verify_token: vt,
                            },
                            p2,
                        )),
                    },
                }
            } else {
                None
            }
        },
        (State::Login, Direction::Clientbound) => {
            if id == 0x00 {
                match string_decode(bytes, pos) {
                    None => None,
                    Some((reason, p)) => Some((PacketModel::LoginDisconnect { reason }, p)),
                }
            } else if id == 0x01 {
                match string_decode(bytes, pos) {
                    None => None,
                    Some((server_id, p1)) => match lpb_decode(bytes, p1) {
                        None => None,
                        Some((pk, p2)) => match lpb_decode(bytes, p2) {
                            None => None,
                            Some((vt, p3)) => Some((
                                PacketModel::EncryptionRequest {
                                    server_id: server_id,
                                    public_key: pk,
                                    verify_token: vt,
                                },
                                p3,
                            )),
                        },
                    },
                }
            } else if id == 0x02 {
                match string_decode(bytes, pos) {
                    None => None,
                    Some((uuid, p1)) => match string_decode(bytes, p1) {
                        None => None,
                        Some((username, p2)) => Some((
                            PacketModel::LoginSuccess { uuid, username },
                            p2,
                        )),
                    },
                }
            } else if id == 0x03 {
                match varuint_decode(bytes, pos, 5) {
                    None => None,
                    Some((t, p)) => Some((
                        PacketModel::SetInitialCompression {
                            threshold: ((t % 0x1_0000_0000) as u32) as i32,
                        },
                        p,
                    )),
                }
            } else {
                None
            }
        },
        _ => None,
    }
}


impl Handshake {
    pub fn write_to(&self, out: &mut Vec<u8>) -> (r: Result<(), Error>)
        ensures
            match body_bytes(self@) {
                Some(b) => r is Ok && final(out)@ == old(out)@ + b,
                None => r matches Err(e) && e == Error::BadPacket && final(out)@ == old(out)@,
            },
    {
        if self.host.as_str().as_bytes().len() > 65536 {
            return Err(Error::BadPacket);
        }
        self.protocol_version.write_to(out);
        let wr = write_string(out, &self.host);
        proof {
            assert(wr is Ok);
        }
        write_u16_be(out, self.port);
        self.next.write_to(out);
        proof {
            assert(final(out)@ =~= old(out)@ + body_bytes(self@)->Some_0);
        }
        Ok(())
    }

    pub fn read_from(buf: &mut Reader) -> (r: Result<Handshake, Error>)
        ensures
            final(buf).data@ == old(buf).data@,
            match body_decode(
                State::Handshaking,
                Direction::Serverbound,
                0x00,
                old(buf).data@,
                old(buf).pos as int,
            ) {
                Some((m, p)) => r matches Ok(pk) && pk@ == m && final(buf).pos == p,
                None => r matches Err(e) && e == Error::MalformedFrame,
            },
    {
        let protocol_version = VarInt::read_from(buf)?;
        let host = buf.read_string()?;
        let port = buf.read_u16_be()?;
        let next = VarInt::read_from(buf)?;
        proof {
            lemma_i32_u32_id(protocol_version.0);
            lemma_i32_u32_id(next.0);
        }
        Ok(Handshake { protocol_version, host, port, next })
    }
}

impl View for Handshake {
    type V = PacketModel;

    open spec fn view(&self) -> PacketModel {
        PacketModel::Handshake {
            protocol_version: self.protocol_version.0,
            host: self.host@,
            port: self.port,
            next: self.next.0,
        }
    }
}

impl StatusRequest {
    pub fn write_to(&self, out: &mut Vec<u8>) -> (r: Result<(), Error>)
        ensures
            r is Ok && final(out)@ == old(out)@,
    {
        Ok(())
    }

    pub fn read_from(buf: &mut Reader) -> (r: Result<StatusRequest, Error>)
        ensures
            r is Ok,
            *final(buf) == *old(buf),
    {
        let _ = buf;
        Ok(StatusRequest { empty: () })
    }
}

impl View for StatusRequest {
    type V = PacketModel;

    open spec fn view(&self) -> PacketModel {
        PacketModel::StatusRequest
    }
}

impl StatusPing {
    pub fn write_to(&self, out: &mut Vec<u8>) -> (r: Result<(), Error>)
        ensures
            r is Ok && final(out)@ == old(out)@ + body_bytes(self@)->Some_0,
    {
        write_u64_be(out, #[verifier::truncate] (self.ping as u64));
        Ok(())
    }

    pub fn read_from(buf: &mut Reader) -> (r: Result<StatusPing, Error>)
        ensures
            final(buf).data@ == old(buf).data@,
            match body_decode(
                State::Status,
                Direction::Serverbound,
                0x01,
                old(buf).data@,
                old(buf).pos as int,
            ) {
                Some((m, p)) => r matches Ok(pk) && pk@ == m && final(buf).pos == p,
                None => r matches Err(e) && e == Error::MalformedFrame,
            },
    {
        let v = buf.read_u64_be()?;
        Ok(StatusPing { ping: #[verifier::truncate] (v as i64) })
    }
}

impl View for StatusPing {
    type V = PacketModel;

    open spec fn view(&self) -> PacketModel {
        PacketModel::StatusPing { ping: self.ping }
    }
}

impl StatusResponse {
    pub fn write_to(&self, out: &mut Vec<u8>) -> (r: Result<(), Error>)
        ensures
            match body_bytes(self@) {
                Some(b) => r is Ok && final(out)@ == old(out)@ + b,
                None => r matches Err(e) && e == Error::BadPacket && final(out)@ == old(out)@,
            },
    {
        if self.status.as_str().as_bytes().len() > 65536 {
            return Err(Error::BadPacket);
        }
        let wr = write_string(out, &self.status);
        proof {
            assert(wr is Ok);
        }
        Ok(())
    }

    pub fn read_from(buf: &mut Reader) -> (r: Result<StatusResponse, Error>)
        ensures
            final(buf).data@ == old(buf).data@,
            match body_decode(
                State::Status,
                Direction::Clientbound,
                0x00,
                old(buf).data@,
                old(buf).pos as int,
            ) {
                Some((m, p)) => r matches Ok(pk) && pk@ == m && final(buf).pos == p,
                None => r matches Err(e) && e == Error::MalformedFrame,
            },
    {
        let status = buf.read_string()?;
        Ok(StatusResponse { status })
    }
}

impl View for StatusResponse {
    type V = PacketModel;

    open spec fn view(&self) -> PacketModel {
        PacketModel::StatusResponse { status: self.status@ }
    }
}

impl StatusPong {
    pub fn write_to(&self, out: &mut Vec<u8>) -> (r: Result<(), Error>)
        ensures
            r is Ok && final(out)@ == old(out)@ + body_bytes(self@)->Some_0,
    {
        write_u64_be(out, #[verifier::truncate] (self.ping as u64));
        Ok(())
    }

    pub fn read_from(buf: &mut Reader) -> (r: Result<StatusPong, Error>)
        ensures
            final(buf).data@ == old(buf).data@,
            match body_decode(
                State::Status,
                Direction::Clientbound,
                0x01,
                old(buf).data@,
                old(buf).pos as int,
            ) {
                Some((m, p)) => r matches Ok(pk) && pk@ == m && final(buf).pos == p,
                None => r matches Err(e) && e == Error::MalformedFrame,
            },
    {
        let v = buf.read_u64_be()?;
        Ok(StatusPong { ping: #[verifier::truncate] (v as i64) })
    }
}

impl View for StatusPong {
    type V = PacketModel;

    open spec fn view(&self) -> PacketModel {
        PacketModel::StatusPong { ping: self.ping }
    }
}

impl LoginStart {
    pub fn write_to(&self, out: &mut Vec<u8>) -> (r: Result<(), Error>)
        ensures
            match body_bytes(self@) {
                Some(b) => r is Ok && final(out)@ == old(out)@ + b,
                None => r matches Err(e) && e == Error::BadPacket && final(out)@ == old(out)@,
            },
    {
        if self.username.as_str().as_bytes().len() > 65536 {
            return Err(Error::BadPacket);
        }
        let wr = write_string(out, &self.username);
        proof {
            assert(wr is Ok);
        }
        Ok(())
    }

    pub fn read_from(buf: &mut Reader) -> (r: Result<LoginStart, Error>)
        ensures
            final(buf).data@ == old(buf).data@,
            match body_decode(
                State::Login,
                Direction::Serverbound,
                0x00,
                old(buf).data@,
                old(buf).pos as int,
            ) {
                Some((m, p)) => r matches Ok(pk) && pk@ == m && final(buf).pos == p,
                None => r matches Err(e) && e == Error::MalformedFrame,
            },
    {
        let username = buf.read_string()?;
        Ok(LoginStart { username })
    }
}

impl View for LoginStart {
    type V = PacketModel;

    open spec fn view(&self) -> PacketModel {
        PacketModel::LoginStart { username: self.username@ }
    }
}

impl EncryptionRequest {
    pub fn write_to(&self, out: &mut Vec<u8>) -> (r: Result<(), Error>)
        ensures
            match body_bytes(self@) {
                Some(b) => r is Ok && final(out)@ == old(out)@ + b,
                None => r matches Err(e) && e == Error::BadPacket && final(out)@ == old(out)@,
            },
    {
        if self.server_id.as_str().as_bytes().len() > 65536 {
            return Err(Error::BadPacket);
        }
        if self.public_key.data.len() >= 0x80000000 || self.verify_token.data.len()
            >= 0x80000000 {
            return Err(Error::BadPacket);
        }
        let wr = write_string(out, &self.server_id);
        let w1 = write_len_prefixed_bytes(out, &self.public_key);
        let w2 = write_len_prefixed_bytes(out, &self.verify_token);
        proof {
            assert(wr is Ok && w1 is Ok && w2 is Ok);
            assert(final(out)@ =~= old(out)@ + body_bytes(self@)->Some_0);
        }
        Ok(())
    }

    pub fn read_from(buf: &mut Reader) -> (r: Result<EncryptionRequest, Error>)
        ensures
            final(buf).data@ == old(buf).data@,
            match body_decode(
                State::Login,
                Direction::Clientbound,
                0x01,
                old(buf).data@,
                old(buf).pos as int,
            ) {
                Some((m, p)) => r matches Ok(pk) && pk@ == m && final(buf).pos == p,
                None => r matches Err(e) && e == Error::MalformedFrame,
            },
    {
        let server_id = buf.read_string()?;
        let public_key = buf.read_len_prefixed_bytes()?;
        let verify_token = buf.read_len_prefixed_bytes()?;
        Ok(EncryptionRequest { server_id, public_key, verify_token })
    }
}

impl View for EncryptionRequest {
    type V = PacketModel;

    open spec fn view(&self) -> PacketModel {
        PacketModel::EncryptionRequest {
            server_id: self.server_id@,
            public_key: self.public_key.data@,
            verify_token: self.verify_token.data@,
        }
    }
}

impl EncryptionResponse {
    pub fn write_to(&self, out: &mut Vec<u8>) -> (r: Result<(), Error>)
        ensures
            match body_bytes(self@) {
                Some(b) => r is Ok && final(out)@ == old(out)@ + b,
                None => r matches Err(e) && e == Error::BadPacket && final(out)@ == old(out)@,
            },
    {
        if self.shared_secret.data.len() >= 0x80000000 || self.verify_token.data.len()
            >= 0x80000000 {
            return Err(Error::BadPacket);
        }
        let w1 = write_len_prefixed_bytes(out, &self.shared_secret);
        let w2 = write_len_prefixed_bytes(out, &self.verify_token);
        proof {
            assert(w1 is Ok && w2 is Ok);
            assert(final(out)@ =~= old(out)@ + body_bytes(self@)->Some_0);
        }
        Ok(())
    }

    pub fn read_from(buf: &mut Reader) -> (r: Result<EncryptionResponse, Error>)
        ensures
            final(buf).data@ == old(buf).data@,
            match body_decode(
                State::Login,
                Direction::Serverbound,
                0x01,
                old(buf).data@,
                old(buf).pos as int,
            ) {
                Some((m, p)) => r matches Ok(pk) && pk@ == m && final(buf).pos == p,
                None => r matches Err(e) && e == Error::MalformedFrame,
            },
    {
        let shared_secret = buf.read_len_prefixed_bytes()?;
        let verify_token = buf.read_len_prefixed_bytes()?;
        Ok(EncryptionResponse { shared_secret, verify_token })
    }
}

impl View for EncryptionResponse {
    type V = PacketModel;

    open spec fn view(&self) -> PacketModel {
        PacketModel::EncryptionResponse {
            shared_secret: self.shared_secret.data@,
            verify_token: self.verify_token.data@,
        }
    }
}

impl LoginSuccess {
    pub fn write_to(&self, out: &mut Vec<u8>) -> (r: Result<(), Error>)
        ensures
            match body_bytes(self@) {
                Some(b) => r is Ok && final(out)@ == old(out)@ + b,
                None => r matches Err(e) && e == Error::BadPacket && final(out)@ == old(out)@,
            },
    {
        if self.uuid.as_str().as_bytes().len() > 65536 || self.username.as_str().as_bytes().len()
            > 65536 {
            return Err(Error::BadPacket);
        }
        let w1 = write_string(out, &self.uuid);
        let w2 = write_string(out, &self.username);
        proof {
            assert(w1 is Ok && w2 is Ok);
            assert(final(out)@ =~= old(out)@ + body_bytes(self@)->Some_0);
        }
        Ok(())
    }

    pub fn read_from(buf: &mut Reader) -> (r: Result<LoginSuccess, Error>)
        ensures
            final(buf).data@ == old(buf).data@,
            match body_decode(
                State::Login,
                Direction::Clientbound,
                0x02,
                old(buf).data@,
                old(buf).pos as int,
            ) {
                Some((m, p)) => r matches Ok(pk) && pk@ == m && final(buf).pos == p,
                None => r matches Err(e) && e == Error::MalformedFrame,
            },
    {
        let uuid = buf.read_string()?;
        let username = buf.read_string()?;
        Ok(LoginSuccess { uuid, username })
    }
}

impl View for LoginSuccess {
    type V = PacketModel;

    open spec fn view(&self) -> PacketModel {
        PacketModel::LoginSuccess { uuid: self.uuid@, username: self.username@ }
    }
}

impl SetInitialCompression {
    pub fn write_to(&self, out: &mut Vec<u8>) -> (r: Result<(), Error>)
        ensures
            r is Ok && final(out)@ == old(out)@ + body_bytes(self@)->Some_0,
    {
        self.threshold.write_to(out);
        Ok(())
    }

    pub fn read_from(buf: &mut Reader) -> (r: Result<SetInitialCompression, Error>)
        ensures
            final(buf).data@ == old(buf).data@,
            match body_decode(
                State::Login,
                Direction::Clientbound,
                0x03,
                old(buf).data@,
                old(buf).pos as int,
            ) {
                Some((m, p)) => r matches Ok(pk) && pk@ == m && final(buf).pos == p,
                None => r matches Err(e) && e == Error::MalformedFrame,
            },
    {
        let threshold = VarInt::read_from(buf)?;
        proof {
            lemma_i32_u32_id(threshold.0);
        }
        Ok(SetInitialCompression { threshold })
    }
}

impl View for SetInitialCompression {
    type V = PacketModel;

    open spec fn view(&self) -> PacketModel {
        PacketModel::SetInitialCompression { threshold: self.threshold.0 }
    }
}

impl LoginDisconnect {
    pub fn write_to(&self, out: &mut Vec<u8>) -> (r: Result<(), Error>)
        ensures
            match body_bytes(self@) {
                Some(b) => r is Ok && final(out)@ == old(out)@ + b,
                None => r matches Err(e) && e == Error::BadPacket && final(out)@ == old(out)@,
            },
    {
        if self.reason.as_str().as_bytes().len() > 65536 {
            return Err(Error::BadPacket);
        }
        let wr = write_string(out, &self.reason);
        proof {
            assert(wr is Ok);
        }
        Ok(())
    }

    pub fn read_from(buf: &mut Reader) -> (r: Result<LoginDisconnect, Error>)
        ensures
            final(buf).data@ == old(buf).data@,
            match body_decode(
                State::Login,
                Direction::Clientbound,
                0x00,
                old(buf).data@,
                old(buf).pos as int,
            ) {
                Some((m, p)) => r matches Ok(pk) && pk@ == m && final(buf).pos == p,
                None => r matches Err(e) && e == Error::MalformedFrame,
            },
    {
        let reason = buf.read_string()?;
        Ok(LoginDisconnect { reason })
    }
}

impl View for LoginDisconnect {
    type V = PacketModel;

    open spec fn view(&self) -> PacketModel {
        PacketModel::LoginDisconnect { reason: self.reason@ }
    }
}


/// A packet that can be sent: it knows its internal id and how to put
/// its body on the wire.
pub trait PacketType: Sized {
    /// The mathematical shape of this packet.
    spec fn model(&self) -> PacketModel;

    fn packet_id(&self) -> (r: i32)
        ensures
            r == packet_internal_id(self.model()),
    ;

    fn write(&self, buf: &mut Vec<u8>) -> (r: Result<(), Error>)
        ensures
            match body_bytes(self.model()) {
                Some(b) => r is Ok && final(buf)@ == old(buf)@ + b,
                None => r matches Err(e) && e == Error::BadPacket && final(buf)@ == old(buf)@,
            },
    ;
}

/// Decode one status-state packet by internal id.
fn status_packet_by_internal(dir: Direction, internal: i32, buf: &mut Reader) -> (r: Result<
    Option<Packet>,
    Error,
>)
    requires
        0x00 <= internal <= 0x01,
    ensures
        final(buf).data@ == old(buf).data@,
        match body_decode(State::Status, dir, internal, old(buf).data@, old(buf).pos as int) {
            Some((m, p)) => r matches Ok(o) && o matches Some(pk) && pk@ == m && final(buf).pos
                == p,
            None => r matches Err(e) && e == Error::MalformedFrame,
        },
{
    match dir {
        Direction::Serverbound => {
            if internal == 0x00 {
                let p = StatusRequest::read_from(buf)?;
                Ok(Some(Packet::StatusRequest(p)))
            } else {
                let p = StatusPing::read_from(buf)?;
                Ok(Some(Packet::StatusPing(p)))
            }
        },
        Direction::Clientbound => {
            if internal == 0x00 {
                let p = StatusResponse::read_from(buf)?;
                Ok(Some(Packet::StatusResponse(p)))
            } else {
                let p = StatusPong::read_from(buf)?;
                Ok(Some(Packet::StatusPong(p)))
            }
        },
    }
}

/// Decode one login-state packet by internal id.
fn login_packet_by_internal(dir: Direction, internal: i32, buf: &mut Reader) -> (r: Result<
    Option<Packet>,
    Error,
>)
    requires
        dir == Direction::Serverbound ==> 0x00 <= internal <= 0x01,
        dir == Direction::Clientbound ==> 0x00 <= internal <= 0x03,
    ensures
        final(buf).data@ == old(buf).data@,
        match body_decode(State::Login, dir, internal, old(buf).data@, old(buf).pos as int) {
            Some((m, p)) => r matches Ok(o) && o matches Some(pk) && pk@ == m && final(buf).pos
                == p,
            None => r matches Err(e) && e == Error::MalformedFrame,
        },
{
    match dir {
        Direction::Serverbound => {
            if internal == 0x00 {
                let p = LoginStart::read_from(buf)?;
                Ok(Some(Packet::LoginStart(p)))
            } else {
                let p = EncryptionResponse::read_from(buf)?;
                Ok(Some(Packet::EncryptionResponse(p)))
            }
        },
        Direction::Clientbound => {
            if internal == 0x00 {
                let p = LoginDisconnect::read_from(buf)?;
                Ok(Some(Packet::LoginDisconnect(p)))
            } else if internal == 0x01 {
                let p = EncryptionRequest::read_from(buf)?;
                Ok(Some(Packet::EncryptionRequest(p)))
            } else if internal == 0x02 {
                let p = LoginSuccess::read_from(buf)?;
                Ok(Some(Packet::LoginSuccess(p)))
            } else {
                let p = SetInitialCompression::read_from(buf)?;
                Ok(Some(Packet::SetInitialCompression(p)))
            }
        },
    }
}

/// Decode the packet the given wire id names in this state and
/// direction (under the default protocol version's table): the packet,
/// or nothing for a translated id without a decoder here (the play
/// state); unknown ids and bodies that do not fit are refused.
pub fn packet_by_id(state: State, dir: Direction, id: i32, buf: &mut Reader) -> (r: Result<
    Option<Packet>,
    Error,
>)
    ensures
        final(buf).data@ == old(buf).data@,
        match spec_translate(340, state, dir, id, true) {
            None => r matches Err(e) && e == Error::BadPacket,
            Some(internal) => match state {
                State::Play => r matches Ok(o) && o is None && final(buf).pos == old(buf).pos,
                _ => match body_decode(state, dir, internal, old(buf).data@, old(buf).pos as int) {
                    Some((m, p)) => r matches Ok(o) && o matches Some(pk) && pk@ == m
                        && final(buf).pos == p,
                    None => r matches Err(e) && e == Error::MalformedFrame,
                },
            },
        },
{
    let internal = match try_translate_packet_id(state, dir, id) {
        Some(i) => i,
        None => {
            return Err(Error::BadPacket);
        },
    };
    match state {
        State::Play => Ok(None),
        State::Handshaking => {
            let p = Handshake::read_from(buf)?;
            Ok(Some(Packet::Handshake(p)))
        },
        State::Status => status_packet_by_internal(dir, internal, buf),
        State::Login => login_packet_by_internal(dir, internal, buf),
    }
}

/// A slice of a slice: where `whole` sits at `pos` and `part` sits at
/// `off` inside `whole`, `part` sits at `pos + off` in the buffer.
proof fn lemma_subrange_extract(bytes: Seq<u8>, pos: int, whole: Seq<u8>, off: int, part: Seq<u8>)
    requires
        0 <= pos,
        0 <= off,
        off + part.len() <= whole.len(),
        pos + whole.len() <= bytes.len(),
        bytes.subrange(pos, pos + whole.len()) == whole,
        whole.subrange(off, off + part.len()) == part,
    ensures
        bytes.subrange(pos + off, pos + off + part.len()) == part,
{
    assert(bytes.subrange(pos + off, pos + off + part.len()) =~= part) by {
        assert forall|i: int| 0 <= i < part.len() implies bytes[pos + off + i] == part[i] by {
            assert(whole.subrange(off, off + part.len())[i] == part[i]);
            assert(bytes.subrange(pos, pos + whole.len())[off + i] == bytes[pos + off + i]);
        }
    }
}

proof fn lemma_handshake_decode_at(m: PacketModel, bytes: Seq<u8>, pos: int)
    requires
        m is Handshake,
        body_bytes(m) is Some,
        0 <= pos,
        pos + body_bytes(m)->Some_0.len() <= bytes.len(),
        bytes.subrange(pos, pos + body_bytes(m)->Some_0.len() as int) == body_bytes(m)->Some_0,
    ensures
        body_decode(State::Handshaking, Direction::Serverbound, 0x00, bytes, pos) == Some((
            m,
            pos + body_bytes(m)->Some_0.len(),
        )),
{
    let b = body_bytes(m)->Some_0;
    match m {
        PacketModel::Handshake { protocol_version, host, port, next } => {
            let v1 = varuint_bytes((protocol_version as u32) as u64);
            let sb = string_bytes(host);
            let pb = spec_u16_be(port);
            let v2 = varuint_bytes((next as u32) as u64);
            assert(b =~= v1 + sb + pb + v2);
            assert(b.subrange(0, v1.len() as int) =~= v1);
            lemma_subrange_extract(bytes, pos, b, 0, v1);
            lemma_varuint_bytes_len((protocol_version as u32) as u64);
            lemma_varuint_decode_encode(bytes, pos, (protocol_version as u32) as u64, 5);
            let o1 = v1.len() as int;
            assert(b.subrange(o1, o1 + sb.len()) =~= sb);
            lemma_subrange_extract(bytes, pos, b, o1, sb);
            lemma_string_roundtrip(bytes, pos + o1, host);
            let o2 = o1 + sb.len() as int;
            assert(b.subrange(o2, o2 + 2) =~= pb);
            lemma_subrange_extract(bytes, pos, b, o2, pb);
            lemma_u16_at_be(bytes, pos + o2, port);
            let o3 = o2 + 2;
            assert(b.subrange(o3, o3 + v2.len()) =~= v2);
            lemma_subrange_extract(bytes, pos, b, o3, v2);
            lemma_varuint_bytes_len((next as u32) as u64);
            lemma_varuint_decode_encode(bytes, pos + o3, (next as u32) as u64, 5);
            lemma_i32_u32_id(protocol_version);
            lemma_i32_u32_id(next);
        },
        _ => {},
    }
}

proof fn lemma_encryption_request_decode_at(m: PacketModel, bytes: Seq<u8>, pos: int)
    requires
        m is EncryptionRequest,
        body_bytes(m) is Some,
        0 <= pos,
        pos + body_bytes(m)->Some_0.len() <= bytes.len(),
        bytes.subrange(pos, pos + body_bytes(m)->Some_0.len() as int) == body_bytes(m)->Some_0,
    ensures
        body_decode(State::Login, Direction::Clientbound, 0x01, bytes, pos) == Some((
            m,
            pos + body_bytes(m)->Some_0.len(),
        )),
{
    let b = body_bytes(m)->Some_0;
    match m {
        PacketModel::EncryptionRequest { server_id, public_key, verify_token } => {
            let sb = string_bytes(server_id);
            let k1 = lpb_bytes(public_key)->Some_0;
            let k2 = lpb_bytes(verify_token)->Some_0;
            assert(b =~= sb + k1 + k2);
            assert(b.subrange(0, sb.len() as int) =~= sb);
            lemma_subrange_extract(bytes, pos, b, 0, sb);
            lemma_string_roundtrip(bytes, pos, server_id);
            let o1 = sb.len() as int;
            assert(b.subrange(o1, o1 + k1.len()) =~= k1);
            lemma_subrange_extract(bytes, pos, b, o1, k1);
            lemma_lpb_roundtrip(bytes, pos + o1, public_key);
            let o2 = o1 + k1.len() as int;
            assert(b.subrange(o2, o2 + k2.len()) =~= k2);
            lemma_subrange_extract(bytes, pos, b, o2, k2);
            lemma_lpb_roundtrip(bytes, pos + o2, verify_token);
        },
        _ => {},
    }
}

proof fn lemma_encryption_response_decode_at(m: PacketModel, bytes: Seq<u8>, pos: int)
    requires
        m is EncryptionResponse,
        body_bytes(m) is Some,
        0 <= pos,
        pos + body_bytes(m)->Some_0.len() <= bytes.len(),
        bytes.subrange(pos, pos + body_bytes(m)->Some_0.len() as int) == body_bytes(m)->Some_0,
    ensures
        body_decode(State::Login, Direction::Serverbound, 0x01, bytes, pos) == Some((
            m,
            pos + body_bytes(m)->Some_0.len(),
        )),
{
    let b = body_bytes(m)->Some_0;
    match m {
        PacketModel::EncryptionResponse { shared_secret, verify_token } => {
            let k1 = lpb_bytes(shared_secret)->Some_0;
            let k2 = lpb_bytes(verify_token)->Some_0;
            assert(b =~= k1 + k2);
            assert(b.subrange(0, k1.len() as int) =~= k1);
            lemma_subrange_extract(bytes, pos, b, 0, k1);
            lemma_lpb_roundtrip(bytes, pos, shared_secret);
            let o1 = k1.len() as int;
            assert(b.subrange(o1, o1 + k2.len()) =~= k2);
            lemma_subrange_extract(bytes, pos, b, o1, k2);
            lemma_lpb_roundtrip(bytes, pos + o1, verify_token);
        },
        _ => {},
    }
}

proof fn lemma_login_success_decode_at(m: PacketModel, bytes: Seq<u8>, pos: int)
    requires
        m is LoginSuccess,
        body_bytes(m) is Some,
        0 <= pos,
        pos + body_bytes(m)->Some_0.len() <= bytes.len(),
        bytes.subrange(pos, pos + body_bytes(m)->Some_0.len() as int) == body_bytes(m)->Some_0,
    ensures
        body_decode(State::Login, Direction::Clientbound, 0x02, bytes, pos) == Some((
            m,
            pos + body_bytes(m)->Some_0.len(),
        )),
{
    let b = body_bytes(m)->Some_0;
    match m {
        PacketModel::LoginSuccess { uuid, username } => {
            let s1 = string_bytes(uuid);
            let s2 = string_bytes(username);
            assert(b =~= s1 + s2);
            assert(b.subrange(0, s1.len() as int) =~= s1);
            lemma_subrange_extract(bytes, pos, b, 0, s1);
            lemma_string_roundtrip(bytes, pos, uuid);
            let o1 = s1.len() as int;
            assert(b.subrange(o1, o1 + s2.len()) =~= s2);
            lemma_subrange_extract(bytes, pos, b, o1, s2);
            lemma_string_roundtrip(bytes, pos + o1, username);
        },
        _ => {},
    }
}

/// Law: a packet body put on the wire decodes back to exactly that
/// packet wherever it sits in a buffer, consuming exactly its bytes.
pub proof fn lemma_body_decode_at(m: PacketModel, bytes: Seq<u8>, pos: int)
    requires
        body_bytes(m) is Some,
        0 <= pos,
        pos + body_bytes(m)->Some_0.len() <= bytes.len(),
        bytes.subrange(pos, pos + body_bytes(m)->Some_0.len() as int) == body_bytes(m)->Some_0,
    ensures
        body_decode(packet_state(m), packet_direction(m), packet_internal_id(m), bytes, pos)
            == Some((m, pos + body_bytes(m)->Some_0.len())),
{
    let b = body_bytes(m)->Some_0;
    match m {
        PacketModel::Handshake { .. } => lemma_handshake_decode_at(m, bytes, pos),
        PacketModel::StatusRequest => {},
        PacketModel::StatusPing { ping } => {
            assert(b.subrange(0, 8) =~= spec_u64_be(ping as u64));
            lemma_subrange_extract(bytes, pos, b, 0, spec_u64_be(ping as u64));
            lemma_u64_at_be(bytes, pos, ping as u64);
            lemma_i64_u64_id(ping);
        },
        PacketModel::StatusResponse { status } => {
            lemma_string_roundtrip(bytes, pos, status);
        },
        PacketModel::StatusPong { ping } => {
            assert(b.subrange(0, 8) =~= spec_u64_be(ping as u64));
            lemma_subrange_extract(bytes, pos, b, 0, spec_u64_be(ping as u64));
            lemma_u64_at_be(bytes, pos, ping as u64);
            lemma_i64_u64_id(ping);
        },
        PacketModel::LoginStart { username } => {
            lemma_string_roundtrip(bytes, pos, username);
        },
        PacketModel::EncryptionRequest { .. } => lemma_encryption_request_decode_at(
            m,
            bytes,
            pos,
        ),
        PacketModel::EncryptionResponse { .. } => lemma_encryption_response_decode_at(
            m,
            bytes,
            pos,
        ),
        PacketModel::LoginSuccess { .. } => lemma_login_success_decode_at(m, bytes, pos),
        PacketModel::SetInitialCompression { threshold } => {
            lemma_varuint_bytes_len((threshold as u32) as u64);
            lemma_varuint_decode_encode(bytes, pos, (threshold as u32) as u64, 5);
            lemma_i32_u32_id(threshold);
        },
        PacketModel::LoginDisconnect { reason } => {
            lemma_string_roundtrip(bytes, pos, reason);
        },
    }
}

/// Law: a packet body put on the wire decodes back to exactly that
/// packet, consuming exactly its bytes.
pub proof fn lemma_packet_roundtrip(m: PacketModel)
    ensures
        body_bytes(m) matches Some(b) ==> body_decode(
            packet_state(m),
            packet_direction(m),
            packet_internal_id(m),
            b,
            0,
        ) == Some((m, b.len() as int)),
{
    if body_bytes(m) is Some {
        let b = body_bytes(m)->Some_0;
        assert(b.subrange(0, b.len() as int) =~= b);
        lemma_body_decode_at(m, b, 0);
    }
}

impl PacketType for Handshake {
    open spec fn model(&self) -> PacketModel {
        self@
    }

    fn packet_id(&self) -> (r: i32) {
        0x00
    }

    fn write(&self, buf: &mut Vec<u8>) -> (r: Result<(), Error>) {
        self.write_to(buf)
    }
}


impl PacketType for StatusRequest {
    open spec fn model(&self) -> PacketModel {
        self@
    }

    fn packet_id(&self) -> (r: i32) {
        0x00
    }

    fn write(&self, buf: &mut Vec<u8>) -> (r: Result<(), Error>) {
        self.write_to(buf)
    }
}


impl PacketType for StatusPing {
    open spec fn model(&self) -> PacketModel {
        self@
    }

    fn packet_id(&self) -> (r: i32) {
        0x01
    }

    fn write(&self, buf: &mut Vec<u8>) -> (r: Result<(), Error>) {
        self.write_to(buf)
    }
}


impl PacketType for StatusResponse {
    open spec fn model(&self) -> PacketModel {
        self@
    }

    fn packet_id(&self) -> (r: i32) {
        0x00
    }

    fn write(&self, buf: &mut Vec<u8>) -> (r: Result<(), Error>) {
        self.write_to(buf)
    }
}


impl PacketType for StatusPong {
    open spec fn model(&self) -> PacketModel {
        self@
    }

    fn packet_id(&self) -> (r: i32) {
        0x01
    }

    fn write(&self, buf: &mut Vec<u8>) -> (r: Result<(), Error>) {
        self.write_to(buf)
    }
}


impl PacketType for LoginStart {
    open spec fn model(&self) -> PacketModel {
        self@
    }

    fn packet_id(&self) -> (r: i32) {
        0x00
    }

    fn write(&self, buf: &mut Vec<u8>) -> (r: Result<(), Error>) {
        self.write_to(buf)
    }
}


impl PacketType for EncryptionRequest {
    open spec fn model(&self) -> PacketModel {
        self@
    }

    fn packet_id(&self) -> (r: i32) {
        0x01
    }

    fn write(&self, buf: &mut Vec<u8>) -> (r: Result<(), Error>) {
        self.write_to(buf)
    }
}


impl PacketType for EncryptionResponse {
    open spec fn model(&self) -> PacketModel {
        self@
    }

    fn packet_id(&self) -> (r: i32) {
        0x01
    }

    fn write(&self, buf: &mut Vec<u8>) -> (r: Result<(), Error>) {
        self.write_to(buf)
    }
}


impl PacketType for LoginSuccess {
    open spec fn model(&self) -> PacketModel {
        self@
    }

    fn packet_id(&self) -> (r: i32) {
        0x02
    }

    fn write(&self, buf: &mut Vec<u8>) -> (r: Result<(), Error>) {
        self.write_to(buf)
    }
}


impl PacketType for SetInitialCompression {
    open spec fn model(&self) -> PacketModel {
        self@
    }

    fn packet_id(&self) -> (r: i32) {
        0x03
    }

    fn write(&self, buf: &mut Vec<u8>) -> (r: Result<(), Error>) {
        self.write_to(buf)
    }
}


impl PacketType for LoginDisconnect {
    open spec fn model(&self) -> PacketModel {
        self@
    }

    fn packet_id(&self) -> (r: i32) {
        0x00
    }

    fn write(&self, buf: &mut Vec<u8>) -> (r: Result<(), Error>) {
        self.write_to(buf)
    }
}

} // verus!
