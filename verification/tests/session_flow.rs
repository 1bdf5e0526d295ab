//! Session-level scenarios: the id registry across versions, the
//! handshake and status exchange, the login state machine, and status
//! document parsing.

use steven_protocol::{Direction, Error, State};
use steven_protocol::packets::{
    EncryptionRequest, Handshake, LoginDisconnect, LoginStart, LoginSuccess, Packet, PacketType,
    SetInitialCompression, StatusPing, StatusPong, StatusRequest, StatusResponse,
};
use steven_protocol::session::{parse_address, LoginAction, Session, StatusAction};
use steven_protocol::status::parse_status;
use steven_protocol::versions::{
    translate_internal_packet_id_for_version, translate_packet_id,
    try_translate_internal_packet_id_for_version, try_translate_packet_id,
};
use steven_protocol::wire::{LenPrefixedBytes, Reader, VarInt};

#[test]
fn translate_identity_for_default_version() {
    assert_eq!(translate_packet_id(State::Play, Direction::Clientbound, 0x3c), 0x3c);
    assert_eq!(translate_packet_id(State::Handshaking, Direction::Serverbound, 0x00), 0x00);
    assert_eq!(translate_packet_id(State::Login, Direction::Clientbound, 0x03), 0x03);
    assert!(try_translate_packet_id(State::Play, Direction::Serverbound, 0x21).is_none());
    assert!(try_translate_packet_id(State::Status, Direction::Serverbound, 0x02).is_none());
}

#[test]
fn translate_316_remaps_moved_ids() {
    // the player movement block moved between 1.11.2 and 1.12.2
    assert_eq!(
        translate_internal_packet_id_for_version(316, State::Play, Direction::Serverbound, 0x0c, true),
        0x0d
    );
    assert_eq!(
        translate_internal_packet_id_for_version(316, State::Play, Direction::Serverbound, 0x0f, true),
        0x0c
    );
    assert_eq!(
        translate_internal_packet_id_for_version(316, State::Play, Direction::Serverbound, 0x0d, false),
        0x0c
    );
    // clientbound: the entity id block moved too
    assert_eq!(
        translate_internal_packet_id_for_version(316, State::Play, Direction::Clientbound, 0x28, true),
        0x25
    );
    assert_eq!(
        translate_internal_packet_id_for_version(316, State::Play, Direction::Clientbound, 0x25, false),
        0x28
    );
    // ids that 1.11.2 does not have are refused
    assert!(
        try_translate_internal_packet_id_for_version(316, State::Play, Direction::Serverbound, 0x1e, true)
            .is_none()
    );
    assert!(
        try_translate_internal_packet_id_for_version(317, State::Play, Direction::Serverbound, 0x00, true)
            .is_none()
    );
}

#[test]
fn translate_roundtrip_whole_table() {
    for dir in [Direction::Serverbound, Direction::Clientbound] {
        for state in [State::Handshaking, State::Play, State::Status, State::Login] {
            for version in [340, 316] {
                for id in 0..0x60 {
                    if let Some(internal) = try_translate_internal_packet_id_for_version(
                        version, state, dir, id, true,
                    ) {
                        assert_eq!(
                            try_translate_internal_packet_id_for_version(
                                version, state, dir, internal, false,
                            ),
                            Some(id)
                        );
                    }
                    if let Some(wire) = try_translate_internal_packet_id_for_version(
                        version, state, dir, id, false,
                    ) {
                        assert_eq!(
                            try_translate_internal_packet_id_for_version(
                                version, state, dir, wire, true,
                            ),
                            Some(id)
                        );
                    }
                }
            }
        }
    }
}

fn server_side(state: State) -> Session {
    let mut s = Session::new("localhost".to_owned(), 25565);
    s.direction = Direction::Clientbound;
    s.state = state;
    s
}

#[test]
fn handshake_and_status_exchange() {
    // client side
    let mut client = Session::new("localhost".to_owned(), 25565);
    let hs = Handshake {
        protocol_version: VarInt(340),
        host: "localhost".to_owned(),
        port: 25565,
        next: VarInt(1),
    };
    let hs_frame = client.write_packet(&hs).expect("frame");
    client.handshake_next(1);
    assert_eq!(client.state, State::Status);
    let rq_frame = client.write_packet(&StatusRequest { empty: () }).expect("frame");

    // server side reads both
    let server = server_side(State::Handshaking);
    let mut r = Reader::new(hs_frame);
    match server.read_packet(&mut r).expect("read").expect("packet") {
        Packet::Handshake(h) => {
            assert_eq!(h.protocol_version.0, 340);
            assert_eq!(h.host, "localhost");
            assert_eq!(h.port, 25565);
            assert_eq!(h.next.0, 1);
        }
        _ => panic!("expected a handshake"),
    }
    let server = server_side(State::Status);
    let mut r = Reader::new(rq_frame);
    match server.read_packet(&mut r).expect("read").expect("packet") {
        Packet::StatusRequest(_) => {}
        _ => panic!("expected a status request"),
    }

    // the server answers with a status document and the client parses it
    let doc = "{\"version\":{\"name\":\"1.12.2\",\"protocol\":340},\
               \"players\":{\"max\":20,\"online\":5},\
               \"description\":{\"text\":\"A Minecraft Server\"}}";
    let resp_frame = server
        .write_packet(&StatusResponse { status: doc.to_owned() })
        .expect("frame");
    let mut r = Reader::new(resp_frame);
    let status_text = match client.read_packet(&mut r).expect("read").expect("packet") {
        Packet::StatusResponse(resp) => resp.status,
        _ => panic!("expected a status response"),
    };
    let status = parse_status(&status_text).expect("parse");
    assert_eq!(status.version.protocol, 340);
    assert_eq!(status.version.name, "1.12.2");
    assert_eq!(status.players.max, 20);
    assert_eq!(status.players.online, 5);
    assert!(status.favicon.is_none());

    // ping and the echoed token
    let ping_frame = client.write_packet(&StatusPing { ping: 42 }).expect("frame");
    let mut r = Reader::new(ping_frame);
    let token = match server.read_packet(&mut r).expect("read").expect("packet") {
        Packet::StatusPing(p) => p.ping,
        _ => panic!("expected a ping"),
    };
    assert_eq!(token, 42);
    let pong_frame = server.write_packet(&StatusPong { ping: token }).expect("frame");
    let mut r = Reader::new(pong_frame);
    match client.read_packet(&mut r).expect("read").expect("packet") {
        Packet::StatusPong(p) => assert_eq!(p.ping, 42),
        _ => panic!("expected a pong"),
    }
}

#[test]
fn status_parse_failures() {
    assert!(matches!(parse_status("not json at all"), Err(Error::Json)));
    assert!(matches!(parse_status("{\"version\":{}}"), Err(Error::Json)));
}

#[test]
fn login_packets_roundtrip() {
    let server = server_side(State::Login);
    let mut client = Session::new("localhost".to_owned(), 25565);
    client.state = State::Login;

    let start_frame = client
        .write_packet(&LoginStart { username: "Player".to_owned() })
        .expect("frame");
    let mut r = Reader::new(start_frame);
    match server.read_packet(&mut r).expect("read").expect("packet") {
        Packet::LoginStart(p) => assert_eq!(p.username, "Player"),
        _ => panic!("expected a login start"),
    }

    let req = EncryptionRequest {
        server_id: "".to_owned(),
        public_key: LenPrefixedBytes::new(vec![1, 2, 3, 4, 5]),
        verify_token: LenPrefixedBytes::new(vec![9, 9, 9, 9]),
    };
    let req_frame = server.write_packet(&req).expect("frame");
    let mut r = Reader::new(req_frame);
    match client.read_packet(&mut r).expect("read").expect("packet") {
        Packet::EncryptionRequest(p) => {
            assert_eq!(p.server_id, "");
            assert_eq!(p.public_key.data, vec![1, 2, 3, 4, 5]);
            assert_eq!(p.verify_token.data, vec![9, 9, 9, 9]);
        }
        _ => panic!("expected an encryption request"),
    }

    let success_frame = server
        .write_packet(&LoginSuccess {
            uuid: "00112233-4455-6677-8899-aabbccddeeff".to_owned(),
            username: "Player".to_owned(),
        })
        .expect("frame");
    let mut r = Reader::new(success_frame);
    match client.read_packet(&mut r).expect("read").expect("packet") {
        Packet::LoginSuccess(p) => assert_eq!(p.username, "Player"),
        _ => panic!("expected a login success"),
    }
}

#[test]
fn login_state_machine() {
    let mut s = Session::new("example.com".to_owned(), 25565);
    s.state = State::Login;

    // the threshold can be set once, during login
    let sc = Packet::SetInitialCompression(SetInitialCompression { threshold: VarInt(256) });
    match s.process_login_packet(&sc).expect("first threshold") {
        LoginAction::Continue => {}
        _ => panic!("expected to continue"),
    }
    assert_eq!(s.compression_threshold, 256);
    assert!(matches!(s.process_login_packet(&sc), Err(Error::BadPacket)));

    // an encryption request hands control to the caller
    let er = Packet::EncryptionRequest(EncryptionRequest {
        server_id: "".to_owned(),
        public_key: LenPrefixedBytes::new(vec![1]),
        verify_token: LenPrefixedBytes::new(vec![2]),
    });
    match s.process_login_packet(&er).expect("encryption request") {
        LoginAction::RespondToEncryptionRequest => {}
        _ => panic!("expected an encryption response action"),
    }
    s.enable_encyption();
    assert!(s.encryption_on);

    // a disconnect carries the reason through
    let dc = Packet::LoginDisconnect(LoginDisconnect { reason: "{\"text\":\"no\"}".to_owned() });
    match s.process_login_packet(&dc).expect("disconnect") {
        LoginAction::Disconnected(reason) => assert_eq!(reason, "{\"text\":\"no\"}"),
        _ => panic!("expected a disconnect"),
    }

    // success moves the connection to play
    let ok = Packet::LoginSuccess(LoginSuccess {
        uuid: "00112233-4455-6677-8899-aabbccddeeff".to_owned(),
        username: "Player".to_owned(),
    });
    match s.process_login_packet(&ok).expect("success") {
        LoginAction::Complete => {}
        _ => panic!("expected completion"),
    }
    assert_eq!(s.state, State::Play);
}

#[test]
fn unknown_packet_id_is_refused() {
    let server = server_side(State::Status);
    // frame holding id 0x05, which no status-state packet has
    let mut r = Reader::new(vec![0x01, 0x05]);
    assert!(matches!(server.read_packet(&mut r), Err(Error::BadPacket)));
}

#[test]
fn residual_bytes_are_fatal() {
    let server = server_side(State::Status);
    // a ping frame with one stray byte after the token
    let mut frame = vec![0x0A, 0x01];
    frame.extend_from_slice(&42u64.to_be_bytes());
    frame.push(0xEE);
    let mut r = Reader::new(frame);
    assert!(matches!(server.read_packet(&mut r), Err(Error::MalformedFrame)));
}

#[test]
fn packet_ids_follow_the_registry() {
    assert_eq!(
        Handshake {
            protocol_version: VarInt(340),
            host: String::new(),
            port: 0,
            next: VarInt(1),
        }
        .packet_id(),
        0x00
    );
    assert_eq!(StatusPing { ping: 0 }.packet_id(), 0x01);
    assert_eq!(SetInitialCompression { threshold: VarInt(0) }.packet_id(), 0x03);
}

#[test]
fn parse_address_forms() {
    let (host, port) = parse_address("localhost").expect("plain host");
    assert_eq!(host, "localhost");
    assert_eq!(port, 25565);
    let (host, port) = parse_address("example.com:1234").expect("host and port");
    assert_eq!(host, "example.com");
    assert_eq!(port, 1234);
    assert!(parse_address("host:").is_err());
    assert!(parse_address("host:abc").is_err());
    assert!(parse_address("host:99999").is_err());
}

#[test]
fn status_state_machine() {
    let mut s = Session::new("example.com".to_owned(), 25565);
    s.state = State::Status;

    let resp = Packet::StatusResponse(StatusResponse { status: "{}".to_owned() });
    match s.process_status_packet(&resp, 42).expect("response") {
        StatusAction::GotStatus(text) => assert_eq!(text, "{}"),
        _ => panic!("expected the status text"),
    }

    let pong = Packet::StatusPong(StatusPong { ping: 42 });
    match s.process_status_packet(&pong, 42).expect("pong") {
        StatusAction::Done => {}
        _ => panic!("expected completion"),
    }

    // a pong with the wrong token is refused
    let wrong = Packet::StatusPong(StatusPong { ping: 7 });
    assert!(matches!(s.process_status_packet(&wrong, 42), Err(Error::BadPacket)));

    // a packet of another exchange is refused
    let stray = Packet::StatusRequest(StatusRequest { empty: () });
    assert!(matches!(s.process_status_packet(&stray, 42), Err(Error::BadPacket)));
}

#[test]
fn status_parse_carries_favicon_and_description() {
    let doc = "{\"version\":{\"name\":\"1.12.2\",\"protocol\":340},\
               \"players\":{\"max\":20,\"online\":5},\
               \"description\":\"plain text\",\
               \"favicon\":\"data:image/png;base64,AA==\"}";
    let status = parse_status(doc).expect("parse");
    assert_eq!(status.description, "\"plain text\"");
    assert_eq!(status.favicon.as_deref(), Some("data:image/png;base64,AA=="));
}
