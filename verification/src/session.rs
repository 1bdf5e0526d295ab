//! The connection's protocol state machine: one current state, a
//! compression threshold set at most once and only during login,
//! encryption that cannot be turned off again, and the pure halves of
//! packet sending and receiving. The caller owns the socket and the
//! cipher streams; everything here works on byte buffers.

use vstd::prelude::*;
use vstd::string::StrSliceExecFns;
use crate::Error;
use crate::{State, Direction};
use crate::framing::{FrameParse, spec_frame, spec_unframe, frame_fits, read_frame, write_frame};
use crate::packets::{Packet, PacketModel, PacketType, packet_by_id, body_bytes, body_decode,
    packet_internal_id, packet_state, packet_direction, lemma_body_decode_at};
use crate::versions::spec_translate;
use crate::wire::{Reader, varuint_bytes, varuint_decode, write_varuint64, lemma_i32_u32_id,
    lemma_varuint_bytes_len, lemma_varuint_decode_encode};

verus! {

/// What the login flow asks its driver to do next.
pub enum LoginAction {
    /// Nothing; keep reading.
    Continue,
    /// The server asked for encryption: generate a shared secret, prove
    /// it to the session service, answer, then enable the ciphers.
    RespondToEncryptionRequest,
    /// Login finished; the connection is in the play state.
    Complete,
    /// The server terminated the login; the reason's JSON text.
    Disconnected(String),
}

/// What the status flow asks its driver to do next.
pub enum StatusAction {
    /// The server's status document arrived: its JSON text.
    GotStatus(String),
    /// The ping was answered with the right token; close the connection.
    Done,
}

/// The id varint followed by the packet body: the payload that goes into
/// one frame.
pub open spec fn packet_payload(m: PacketModel) -> Option<Seq<u8>> {
    match body_bytes(m) {
        None => None,
        Some(b) => Some(varuint_bytes((packet_internal_id(m) as u32) as u64) + b),
    }
}

/// What one whole frame payload decodes to in the given state for a
/// reader of the given direction: the wire id is translated against the
/// reading side's table, the body parsed, and any residual byte is
/// fatal. Play-state ids are translated but carry no decoder here.
pub open spec fn spec_decode_packet(state: State, dir: Direction, payload: Seq<u8>) -> Option<
    PacketModel,
> {
    match varuint_decode(payload, 0, 5) {
        None => None,
        Some((n, q)) => {
            let wire_id = ((n % 0x1_0000_0000) as u32) as i32;
            match spec_translate(340, state, dir, wire_id, true) {
                None => None,
                Some(internal) => match state {
                    State::Play => None,
                    _ => match body_decode(state, dir, internal, payload, q) {
                        None => None,
                        Some((m, p)) => if p == payload.len() {
                            Some(m)
                        } else {
                            None
                        },
                    },
                },
            }
        },
    }
}

/// Law: a whole frame payload built for a packet (its id varint and
/// body) decodes back to exactly that packet on the reading side, with
/// no residual bytes. Together with the framing laws this closes the
/// loop from a sent packet to the packet received.
#[verifier::rlimit(100)]
pub proof fn lemma_decode_packet_roundtrip(m: PacketModel)
    ensures
        packet_payload(m) matches Some(p) ==> spec_decode_packet(
            packet_state(m),
            packet_direction(m),
            p,
        ) == Some(m),
{
    if packet_payload(m) is Some {
        let b = body_bytes(m)->Some_0;
        let id = packet_internal_id(m);
        let v = varuint_bytes((id as u32) as u64);
        let p = v + b;
        assert(p.subrange(0, v.len() as int) =~= v);
        lemma_varuint_bytes_len((id as u32) as u64);
        lemma_varuint_decode_encode(p, 0, (id as u32) as u64, 5);
        lemma_i32_u32_id(id);
        let q = v.len() as int;
        assert(p.subrange(q, q + b.len()) =~= b);
        lemma_body_decode_at(m, p, q);
        match m {
            PacketModel::Handshake { .. } => {
                assert(spec_translate(340, State::Handshaking, Direction::Serverbound, 0x00, true)
                    == Some(0x00i32));
            },
            PacketModel::StatusRequest => {
                assert(spec_translate(340, State::Status, Direction::Serverbound, 0x00, true)
                    == Some(0x00i32));
            },
            PacketModel::StatusPing { .. } => {
                assert(spec_translate(340, State::Status, Direction::Serverbound, 0x01, true)
                    == Some(0x01i32));
            },
            PacketModel::StatusResponse { .. } => {
                assert(spec_translate(340, State::Status, Direction::Clientbound, 0x00, true)
                    == Some(0x00i32));
            },
            PacketModel::StatusPong { .. } => {
                assert(spec_translate(340, State::Status, Direction::Clientbound, 0x01, true)
                    == Some(0x01i32));
            },
            PacketModel::LoginStart { .. } => {
                assert(spec_translate(340, State::Login, Direction::Serverbound, 0x00, true)
                    == Some(0x00i32));
            },
            PacketModel::EncryptionRequest { .. } => {
                assert(spec_translate(340, State::Login, Direction::Clientbound, 0x01, true)
                    == Some(0x01i32));
            },
            PacketModel::EncryptionResponse { .. } => {
                assert(spec_translate(340, State::Login, Direction::Serverbound, 0x01, true)
                    == Some(0x01i32));
            },
            PacketModel::LoginSuccess { .. } => {
                assert(spec_translate(340, State::Login, Direction::Clientbound, 0x02, true)
                    == Some(0x02i32));
            },
            PacketModel::SetInitialCompression { .. } => {
                assert(spec_translate(340, State::Login, Direction::Clientbound, 0x03, true)
                    == Some(0x03i32));
            },
            PacketModel::LoginDisconnect { .. } => {
                assert(spec_translate(340, State::Login, Direction::Clientbound, 0x00, true)
                    == Some(0x00i32));
            },
        }
    }
}

/// The error kind a frame payload's failed decode raises: a broken id
/// varint or a packet body that does not fit (or leaves residue) is a
/// malformed frame; an id unknown in this state and direction, or one
/// whose body this crate does not decode (the play state), is a bad
/// packet.
pub open spec fn spec_decode_packet_err(state: State, dir: Direction, payload: Seq<u8>) -> Error {
    match varuint_decode(payload, 0, 5) {
        None => Error::MalformedFrame,
        Some((n, q)) => {
            let wire_id = ((n % 0x1_0000_0000) as u32) as i32;
            match spec_translate(340, state, dir, wire_id, true) {
                None => Error::BadPacket,
                Some(internal) => match state {
                    State::Play => Error::BadPacket,
                    _ => Error::MalformedFrame,
                },
            }
        },
    }
}

/// The protocol side of one connection.
pub struct Session {
    pub host: String,
    pub port: u16,
    pub direction: Direction,
    pub state: State,
    pub encryption_on: bool,
    pub compression_threshold: i32,
    pub threshold_was_set: bool,
}

impl Session {
    /// Until the threshold is set, compression stays disabled.
    pub open spec fn wf(&self) -> bool {
        !self.threshold_was_set ==> self.compression_threshold == -1
    }

    pub fn new(host: String, port: u16) -> (r: Session)
        ensures
            r.host@ == host@,
            r.port == port,
            r.direction == Direction::Serverbound,
            r.state == State::Handshaking,
            !r.encryption_on,
            r.compression_threshold == -1,
            !r.threshold_was_set,
            r.wf(),
    {
        Session {
            host,
            port,
            direction: Direction::Serverbound,
            state: State::Handshaking,
            encryption_on: false,
            compression_threshold: -1,
            threshold_was_set: false,
        }
    }

    /// Leave the handshaking state for status (next 1) or login (next
    /// 2).
    pub fn handshake_next(&mut self, next: i32)
        requires
            old(self).state == State::Handshaking,
            next == 1 || next == 2,
        ensures
            final(self).state == (if next == 1 {
                State::Status
            } else {
                State::Login
            }),
            final(self).host == old(self).host,
            final(self).port == old(self).port,
            final(self).direction == old(self).direction,
            final(self).encryption_on == old(self).encryption_on,
            final(self).compression_threshold == old(self).compression_threshold,
            final(self).threshold_was_set == old(self).threshold_was_set,
    {
        if next == 1 {
            self.state = State::Status;
        } else {
            self.state = State::Login;
        }
    }

    /// Record the negotiated threshold. Allowed at most once, during
    /// login.
    pub fn set_compresssion(&mut self, threshold: i32)
        requires
            old(self).state == State::Login,
            !old(self).threshold_was_set,
        ensures
            final(self).compression_threshold == threshold,
            final(self).threshold_was_set,
            final(self).state == old(self).state,
            final(self).host == old(self).host,
            final(self).port == old(self).port,
            final(self).direction == old(self).direction,
            final(self).encryption_on == old(self).encryption_on,
    {
        self.compression_threshold = threshold;
        self.threshold_was_set = true;
    }

    /// Record that the ciphers are live for both directions; once on,
    /// encryption never goes off again.
    pub fn enable_encyption(&mut self)
        requires
            !old(self).encryption_on,
            old(self).state == State::Login,
        ensures
            final(self).encryption_on,
            final(self).state == old(self).state,
            final(self).host == old(self).host,
            final(self).port == old(self).port,
            final(self).direction == old(self).direction,
            final(self).compression_threshold == old(self).compression_threshold,
            final(self).threshold_was_set == old(self).threshold_was_set,
    {
        self.encryption_on = true;
    }

    /// Frame one outbound packet: its id varint and body, then the
    /// length/compression layers. The result decodes back to exactly
    /// that payload; the caller encrypts it when encryption is on.
    pub fn write_packet<T: PacketType>(&self, packet: &T) -> (r: Result<Vec<u8>, Error>)
        ensures
            match packet_payload(packet.model()) {
                None => r is Err,
                Some(payload) => if frame_fits(payload, self.compression_threshold as int) {
                    r matches Ok(v) && v@ == spec_frame(
                        payload,
                        self.compression_threshold as int,
                    ) && spec_unframe(v@, 0, self.compression_threshold >= 0)
                        == (FrameParse::Frame { payload: payload, end: v@.len() as int })
                } else {
                    r is Err
                },
            },
    {
        let mut payload: Vec<u8> = Vec::new();
        let id = packet.packet_id();
        write_varuint64(&mut payload, (#[verifier::truncate] (id as u32)) as u64);
        match packet.write(&mut payload) {
            Ok(_) => {},
            Err(e) => {
                return Err(e);
            },
        }
        let mut out: Vec<u8> = Vec::new();
        match write_frame(&payload, self.compression_threshold, &mut out) {
            Ok(_) => {},
            Err(e) => {
                return Err(e);
            },
        }
        Ok(out)
    }

    /// Pull one inbound packet out of the buffered (already decrypted)
    /// bytes. `Ok(None)`: the buffer does not yet hold a whole frame and
    /// the position is unchanged. A whole frame must decode to a packet
    /// this crate knows with no residual bytes, or the connection is
    /// dead.
    pub fn read_packet(&self, buffer: &mut Reader) -> (r: Result<Option<Packet>, Error>)
        requires
            old(buffer).pos <= old(buffer).data@.len(),
        ensures
            final(buffer).data@ == old(buffer).data@,
            match spec_unframe(
                old(buffer).data@,
                old(buffer).pos as int,
                self.compression_threshold >= 0,
            ) {
                FrameParse::NeedMore => r matches Ok(o) && o is None
                    && final(buffer).pos == old(buffer).pos,
                FrameParse::Bad => r matches Err(e) && e == Error::MalformedFrame,
                FrameParse::Frame { payload, end } => match spec_decode_packet(
                    self.state,
                    spec_opposite(self.direction),
                    payload,
                ) {
                    Some(m) => r matches Ok(o) && o matches Some(pk) && pk@ == m
                        && final(buffer).pos == end,
                    None => r matches Err(e) && e == spec_decode_packet_err(
                        self.state,
                        spec_opposite(self.direction),
                        payload,
                    ),
                },
            },
    {
        let frame = match read_frame(buffer, self.compression_threshold >= 0) {
            Ok(Some(v)) => v,
            Ok(None) => {
                return Ok(None);
            },
            Err(e) => {
                return Err(e);
            },
        };
        let mut pr = Reader::new(frame);
        let vi = match crate::wire::VarInt::read_from(&mut pr) {
            Ok(vi) => vi,
            Err(e) => {
                return Err(e);
            },
        };
        proof {
            lemma_i32_u32_id(vi.0);
        }
        let dir = self.direction.opposite();
        let pkt = match packet_by_id(self.state, dir, vi.0, &mut pr) {
            Ok(Some(p)) => p,
            Ok(None) => {
                return Err(Error::BadPacket);
            },
            Err(e) => {
                return Err(e);
            },
        };
        if pr.pos != pr.data.len() {
            return Err(Error::MalformedFrame);
        }
        Ok(Some(pkt))
    }

    /// Drive the status exchange by one received packet: the status
    /// document is handed out for parsing, and a pong closes the
    /// exchange exactly when it echoes the token that was sent.
    pub fn process_status_packet(&mut self, p: &Packet, token: i64) -> (r: Result<
        StatusAction,
        Error,
    >)
        requires
            old(self).state == State::Status,
        ensures
            *final(self) == *old(self),
            match p@ {
                PacketModel::StatusResponse { status } => r matches Ok(a) && a matches
                    StatusAction::GotStatus(t) && t@ == status,
                PacketModel::StatusPong { ping } => if ping == token {
                    r matches Ok(a) && a == StatusAction::Done
                } else {
                    r matches Err(e) && e == Error::BadPacket
                },
                _ => r matches Err(e) && e == Error::BadPacket,
            },
    {
        match p {
            Packet::StatusResponse(res) => Ok(StatusAction::GotStatus(res.status.clone())),
            Packet::StatusPong(pong) => {
                if pong.ping == token {
                    Ok(StatusAction::Done)
                } else {
                    Err(Error::BadPacket)
                }
            },
            _ => Err(Error::BadPacket),
        }
    }

    /// Drive the login exchange by one received packet: what the server
    /// sent decides the transition and what the caller must do next.
    pub fn process_login_packet(&mut self, p: &Packet) -> (r: Result<LoginAction, Error>)
        requires
            old(self).state == State::Login,
        ensures
            final(self).host == old(self).host,
            final(self).port == old(self).port,
            final(self).direction == old(self).direction,
            final(self).encryption_on == old(self).encryption_on,
            match p@ {
                PacketModel::EncryptionRequest { .. } => r matches Ok(a) && a
                    == LoginAction::RespondToEncryptionRequest && *final(self) == *old(self),
                PacketModel::SetInitialCompression { threshold } => if old(self).threshold_was_set {
                    r is Err && *final(self) == *old(self)
                } else {
                    r matches Ok(a) && a == LoginAction::Continue && final(self).compression_threshold == threshold && final(self).threshold_was_set
                        && final(self).state == State::Login
                },
                PacketModel::LoginSuccess { .. } => r matches Ok(a) && a == LoginAction::Complete
                    && final(self).state == State::Play && final(self).compression_threshold
                    == old(self).compression_threshold && final(self).threshold_was_set == old(self).threshold_was_set,
                PacketModel::LoginDisconnect { reason } => r matches Ok(a) && a matches
                    LoginAction::Disconnected(t) && t@ == reason && *final(self) == *old(self),
                _ => r is Err && *final(self) == *old(self),
            },
    {
        match p {
            Packet::EncryptionRequest(_) => Ok(LoginAction::RespondToEncryptionRequest),
            Packet::SetInitialCompression(sc) => {
                if self.threshold_was_set {
                    Err(Error::BadPacket)
                } else {
                    self.set_compresssion(sc.threshold.0);
                    Ok(LoginAction::Continue)
                }
            },
            Packet::LoginSuccess(_) => {
                self.state = State::Play;
                Ok(LoginAction::Complete)
            },
            Packet::LoginDisconnect(d) => {
                let t = d.reason.clone();
                Ok(LoginAction::Disconnected(t))
            },
            _ => Err(Error::BadPacket),
        }
    }
}

/// The reading side's direction for a writer of direction `d`.
pub open spec fn spec_opposite(d: Direction) -> Direction {
    match d {
        Direction::Serverbound => Direction::Clientbound,
        Direction::Clientbound => Direction::Serverbound,
    }
}

/// Split `host[:port]`; a missing port is the protocol's default 25565.
pub fn parse_address(target: &str) -> (r: Result<(String, u16), Error>)
    ensures
        r matches Ok(hp) ==> hp.1 == spec_port_of(target@) && hp.0@ == spec_host_of(target@),
        (r is Ok) <==> spec_address_ok(target@),
{
    let n = target.unicode_len();
    let mut colon: Option<usize> = None;
    let mut i: usize = 0;
    while i < n
        invariant
            i <= n,
            n == target@.len(),
            match colon {
                Some(c) => c < i && target@[c as int] == ':' && (forall|j: int|
                    c < j < i ==> target@[j] != ':'),
                None => forall|j: int| 0 <= j < i ==> target@[j] != ':',
            },
        decreases n - i,
    {
        if target.get_char(i) as u32 == 58 {
            proof {
                assert(':' as u32 == 58);
            }
            colon = Some(i);
        }
        proof {
            assert(':' as u32 == 58);
        }
        i = i + 1;
    }
    match colon {
        None => {
            proof {
                assert(spec_last_colon(target@) is None);
            }
            Ok((target.to_owned(), 25565))
        },
        Some(c) => {
            proof {
                assert(spec_last_colon(target@) == Some(c as int));
            }
            let host = target.substring_char(0, c);
            let mut port: u32 = 0;
            let mut j: usize = c + 1;
            if j == n {
                return Err(Error::Io);
            }
            while j < n
                invariant
                    c < j <= n,
                    n == target@.len(),
                    spec_last_colon(target@) == Some(c as int),
                    port as nat == spec_digits_val(target@, c as int + 1, j as int),
                    port <= 65535,
                    forall|k: int| c < k < j ==> is_ascii_digit(target@[k]),
                decreases n - j,
            {
                let ch = target.get_char(j) as u32;
                if ch < 48 || ch > 57 {
                    proof {
                        assert(!is_ascii_digit(target@[j as int]));
                    }
                    return Err(Error::Io);
                }
                let d = ch - 48;
                if port > 6553 || (port == 6553 && d > 5) {
                    proof {
                        assert(spec_digits_val(target@, c as int + 1, j as int + 1) > 65535);
                        lemma_digits_val_mono(target@, c as int + 1, j as int + 1, n as int);
                    }
                    return Err(Error::Io);
                }
                port = port * 10 + d;
                j = j + 1;
            }
            Ok((host.to_owned(), #[verifier::truncate] (port as u16)))
        },
    }
}

/// More digits never shrink the value they spell.
proof fn lemma_digits_val_mono(s: Seq<char>, from: int, mid: int, to: int)
    requires
        from <= mid <= to,
    ensures
        spec_digits_val(s, from, to) >= spec_digits_val(s, from, mid),
    decreases to - mid,
{
    if to > mid {
        lemma_digits_val_mono(s, from, mid, to - 1);
    }
}

/// Whether the character is a decimal digit.
pub open spec fn is_ascii_digit(ch: char) -> bool {
    48 <= (ch as u32) <= 57
}

/// Where the last colon of the address sits, if any.
pub open spec fn spec_last_colon(s: Seq<char>) -> Option<int> {
    if exists|j: int| 0 <= j < s.len() && s[j] == ':' {
        Some(
            choose|j: int|
                0 <= j < s.len() && s[j] == ':' && (forall|k: int| j < k < s.len() ==> s[k] != ':'),
        )
    } else {
        None
    }
}

/// The value of the decimal digits between two positions, most
/// significant first (digits read as zero elsewhere never arise on
/// well-formed input).
pub open spec fn spec_digits_val(s: Seq<char>, from: int, to: int) -> nat
    decreases to - from,
{
    if to <= from {
        0
    } else {
        10 * spec_digits_val(s, from, to - 1) + (if is_ascii_digit(s[to - 1]) {
            ((s[to - 1] as u32) - 48) as nat
        } else {
            0
        })
    }
}

/// The port an address names: the digits after the last colon, or the
/// default 25565.
pub open spec fn spec_port_of(s: Seq<char>) -> u16 {
    match spec_last_colon(s) {
        None => 25565,
        Some(c) => spec_digits_val(s, c + 1, s.len() as int) as u16,
    }
}

/// The host part of an address: everything before the last colon.
pub open spec fn spec_host_of(s: Seq<char>) -> Seq<char> {
    match spec_last_colon(s) {
        None => s,
        Some(c) => s.subrange(0, c),
    }
}

/// A well-formed address: either no colon, or a last colon followed by
/// at least one digit whose value fits a port number.
pub open spec fn spec_address_ok(s: Seq<char>) -> bool {
    match spec_last_colon(s) {
        None => true,
        Some(c) => c + 1 < s.len() && (forall|k: int| c < k < s.len() ==> is_ascii_digit(s[k]))
            && spec_digits_val(s, c + 1, s.len() as int) <= 65535,
    }
}

} // verus!
