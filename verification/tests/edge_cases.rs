//! Edge cases: hostile lengths, unsupported metadata tags, empty
//! payloads, defaults, and error kinds.

use steven_protocol::metadata::{Metadata, MetadataKey, MetadataValue};
use steven_protocol::framing::{read_frame, write_frame};
use steven_protocol::packets::{Handshake, PacketType};
use steven_protocol::session::Session;
use steven_protocol::uuid::UUID;
use steven_protocol::wire::{Lengthable, Reader, VarInt, VarLong};
use steven_protocol::{Error, State};

#[test]
fn oversized_string_field_is_refused() {
    let hs = Handshake {
        protocol_version: VarInt(340),
        host: "a".repeat(70000),
        port: 25565,
        next: VarInt(1),
    };
    let mut out = Vec::new();
    assert!(matches!(hs.write(&mut out), Err(Error::BadPacket)));
    assert!(out.is_empty());
}

#[test]
fn negative_byte_array_count_is_refused() {
    // a varint -1 where a byte count belongs
    let mut r = Reader::new(vec![0xFF, 0xFF, 0xFF, 0xFF, 0x0F, 0x01]);
    assert!(matches!(r.read_len_prefixed_bytes(), Err(Error::MalformedFrame)));
}

#[test]
fn hostile_string_count_is_refused() {
    // claims 70000 bytes of text
    let mut prefix = Vec::new();
    VarInt(70000).write_to(&mut prefix);
    let mut r = Reader::new(prefix);
    assert!(matches!(r.read_string(), Err(Error::MalformedFrame)));
}

#[test]
fn empty_payload_frames() {
    let payload: Vec<u8> = Vec::new();
    for threshold in [-1i32, 0, 64] {
        let mut frame = Vec::new();
        write_frame(&payload, threshold, &mut frame).expect("frame");
        let mut r = Reader::new(frame);
        let back = read_frame(&mut r, threshold >= 0).expect("parse").expect("whole frame");
        assert!(back.is_empty());
    }
}

#[test]
fn metadata_absent_nbt_entry_is_skipped() {
    // index 2 with the 1.9 NBT tag and an absent tag byte, then the
    // terminator: the entry is consumed and stores nothing
    let mut r = Reader::new(vec![0x02, 0x0D, 0x00, 0xFF]);
    let m = Metadata::read_from(&mut r, 340).expect("decode");
    assert_eq!(r.pos, r.data.len());
    assert!(m.get(&MetadataKey::new(2)).is_none());
}

#[test]
fn metadata_unknown_tag_is_refused() {
    let mut r = Reader::new(vec![0x00, 0x0E, 0xFF]);
    assert!(Metadata::read_from(&mut r, 340).is_err());
}

#[test]
fn metadata_slot_tag_is_refused() {
    // the item-stack payload lies outside this codec
    let mut r = Reader::new(vec![0x00, 0x05, 0x01, 0x00, 0xFF]);
    assert!(Metadata::read_from(&mut r, 340).is_err());
}

#[test]
fn defaults_are_zero() {
    assert_eq!(VarInt::default().0, 0);
    assert_eq!(VarLong::default().0, 0);
    assert_eq!(UUID::default(), UUID(0, 0));
    let m = Metadata::default();
    assert!(m.get(&MetadataKey::new(0)).is_none());
}

#[test]
fn lengthable_conversions() {
    assert_eq!(<i32 as Lengthable>::into(5), 5usize);
    assert_eq!(<i32 as Lengthable>::from(7), 7i32);
    assert_eq!(<VarInt as Lengthable>::into(VarInt(9)), 9usize);
    assert_eq!(<i16 as Lengthable>::from(3), 3i16);
}

#[test]
fn error_kinds_have_messages() {
    assert_eq!(Error::MalformedFrame.kind_message(), "malformed frame");
    assert_eq!(Error::Disconnect("{}".to_owned()).kind_message(), "disconnected");
    assert_eq!(Error::Json.kind_message(), "json parse error");
}

#[test]
fn session_starts_fresh() {
    let s = Session::new("example.com".to_owned(), 25565);
    assert_eq!(s.state, State::Handshaking);
    assert_eq!(s.compression_threshold, -1);
    assert!(!s.encryption_on);
    assert!(!s.threshold_was_set);
}

#[test]
fn metadata_index_out_of_range_is_refused() {
    // 1.9+ indices must fit their byte, and the terminator byte itself
    // is no index
    for idx in [0x120, 0xFF, -1] {
        let mut m = Metadata::new();
        m.put(&MetadataKey::new(idx), MetadataValue::Byte(1));
        let mut out = Vec::new();
        assert!(matches!(m.write_to(&mut out, 340), Err(Error::BadPacket)));
        assert!(out.is_empty());
        let mut out113 = Vec::new();
        assert!(matches!(m.write_to(&mut out113, 404), Err(Error::BadPacket)));
    }
    // pre-1.9 indices must fit five bits, checked before any truncation
    for idx in [0x11F, 0x20, -1] {
        let mut m = Metadata::new();
        m.put(&MetadataKey::new(idx), MetadataValue::Byte(1));
        let mut out = Vec::new();
        assert!(matches!(m.write_to(&mut out, 47), Err(Error::BadPacket)));
    }
}
