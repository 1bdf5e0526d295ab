//! Wire-level scenarios: varints, positions, strings, identifiers,
//! metadata and framing, against literal byte patterns.

use steven_protocol::wire::{Reader, VarInt, VarLong, LenPrefixed, LenPrefixedBytes, write_string};
use steven_protocol::position::Position;
use steven_protocol::uuid::UUID;
use steven_protocol::metadata::{Metadata, MetadataKey, MetadataValue};
use steven_protocol::framing::{read_frame, write_frame};
use steven_protocol::crypto::{EncryptStream, DecryptStream};
use steven_protocol::Error;

fn varint_bytes_of(v: i32) -> Vec<u8> {
    let mut out = Vec::new();
    VarInt(v).write_to(&mut out);
    out
}

#[test]
fn varint_samples() {
    assert_eq!(varint_bytes_of(0), vec![0x00]);
    assert_eq!(varint_bytes_of(1), vec![0x01]);
    assert_eq!(varint_bytes_of(127), vec![0x7F]);
    assert_eq!(varint_bytes_of(128), vec![0x80, 0x01]);
    assert_eq!(varint_bytes_of(2097151), vec![0xFF, 0xFF, 0x7F]);
    assert_eq!(varint_bytes_of(-1), vec![0xFF, 0xFF, 0xFF, 0xFF, 0x0F]);
}

#[test]
fn varint_roundtrip_samples() {
    for v in [0, 1, 127, 128, 255, 2097151, -1, i32::MAX, i32::MIN, -123456] {
        let mut r = Reader::new(varint_bytes_of(v));
        let back = VarInt::read_from(&mut r).expect("decode");
        assert_eq!(back.0, v);
        assert_eq!(r.pos, r.data.len());
    }
}

#[test]
fn varint_too_big_is_refused() {
    let mut r = Reader::new(vec![0x80, 0x80, 0x80, 0x80, 0x80, 0x01]);
    assert!(matches!(VarInt::read_from(&mut r), Err(Error::MalformedFrame)));
}

#[test]
fn varlong_roundtrip_samples() {
    for v in [0i64, 1, 127, 128, -1, i64::MAX, i64::MIN, 1 << 40] {
        let mut out = Vec::new();
        VarLong(v).write_to(&mut out);
        let mut r = Reader::new(out);
        let back = VarLong::read_from(&mut r).expect("decode");
        assert_eq!(back.0, v);
    }
    let mut out = Vec::new();
    VarLong(-1).write_to(&mut out);
    assert_eq!(out.len(), 10);
}

#[test]
fn position_packs_to_word() {
    let p = Position::new(-1, 255, -1);
    // x: 26 ones in the high bits, y = 0x0FF in the middle 12,
    // z: 26 ones in the low bits.
    assert_eq!(p.to_word(), 0xFFFF_FFC3_FFFF_FFFF);
    let q = Position::from_word(p.to_word());
    assert_eq!(q, p);
}

#[test]
fn position_roundtrip_edges() {
    for (x, y, z) in [
        (0, 0, 0),
        (33554431, 2047, 33554431),
        (-33554432, -2048, -33554432),
        (123456, -1, -654321),
    ] {
        let p = Position::new(x, y, z);
        let mut out = Vec::new();
        p.write_to(&mut out);
        assert_eq!(out.len(), 8);
        let mut r = Reader::new(out);
        let q = Position::read_from(&mut r).expect("decode");
        assert_eq!(q, p);
    }
}

#[test]
fn string_roundtrip() {
    let mut out = Vec::new();
    let s = "héllo wörld ✓".to_owned();
    write_string(&mut out, &s).expect("encode");
    let mut r = Reader::new(out);
    let back = r.read_string().expect("decode");
    assert_eq!(back, s);
}

#[test]
fn string_rejects_bad_utf8() {
    // length prefix 2, then an invalid continuation sequence
    let mut r = Reader::new(vec![0x02, 0xC3, 0x28]);
    assert!(matches!(r.read_string(), Err(Error::MalformedFrame)));
}

#[test]
fn uuid_from_canonical_text() {
    let u = UUID::from_str("00112233-4455-6677-8899-aabbccddeeff").expect("parse");
    assert_eq!(u.0, 0x0011223344556677);
    assert_eq!(u.1, 0x8899AABBCCDDEEFF);
    let v = UUID::from_str("00112233-4455-6677-8899-AABBCCDDEEFF").expect("parse");
    assert_eq!(v, u);
    assert!(matches!(UUID::from_str("00112233-4455-6677-8899-aabbccddeef"), Err(Error::BadPacket)));
    assert!(matches!(
        UUID::from_str("00112233x4455-6677-8899-aabbccddeeff"),
        Err(Error::BadPacket)
    ));
    assert!(matches!(
        UUID::from_str("0011223g-4455-6677-8899-aabbccddeeff"),
        Err(Error::BadPacket)
    ));
}

#[test]
fn uuid_wire_roundtrip() {
    let u = UUID(0x0123456789ABCDEF, 0xFEDCBA9876543210);
    let mut out = Vec::new();
    u.write_to(&mut out);
    assert_eq!(out.len(), 16);
    let mut r = Reader::new(out);
    assert_eq!(UUID::read_from(&mut r).expect("decode"), u);
}

const TEST: MetadataKey = MetadataKey { index: 0 };

#[test]
fn basic() {
    let mut m = Metadata::new();

    m.put(&TEST, MetadataValue::Str("Hello world".to_owned()));

    match m.get(&TEST) {
        Some(MetadataValue::Str(val)) => {
            assert!(val == "Hello world");
        }
        _ => panic!("failed"),
    }
}

#[test]
fn metadata_1_12_sample() {
    // index 0 as a byte 127, index 6 as the vector (1.0, 2.0, 3.0),
    // then the 1.9+ terminator.
    let bytes = vec![
        0x00, 0x00, 0x7F, 0x06, 0x07, 0x3F, 0x80, 0x00, 0x00, 0x40, 0x00, 0x00, 0x00, 0x40, 0x40,
        0x00, 0x00, 0xFF,
    ];
    let mut r = Reader::new(bytes);
    let m = Metadata::read_from(&mut r, 340).expect("decode");
    assert_eq!(r.pos, r.data.len());
    match m.get(&MetadataKey::new(0)) {
        Some(MetadataValue::Byte(b)) => assert_eq!(*b, 127),
        _ => panic!("index 0 should be a byte"),
    }
    match m.get(&MetadataKey::new(6)) {
        Some(MetadataValue::Vector(a, b, c)) => {
            assert_eq!(f32::from_bits(*a), 1.0);
            assert_eq!(f32::from_bits(*b), 2.0);
            assert_eq!(f32::from_bits(*c), 3.0);
        }
        _ => panic!("index 6 should be a vector"),
    }
}

#[test]
fn metadata_dialect_boundary() {
    let mut m = Metadata::new();
    m.put(&MetadataKey::new(0), MetadataValue::OptionalFormatComponent(None));

    let mut out = Vec::new();
    m.write_to(&mut out, 404).expect("the 1.13 dialect carries the type");
    assert_eq!(out, vec![0x00, 0x05, 0x00, 0xFF]);

    let mut out19 = Vec::new();
    assert!(matches!(m.write_to(&mut out19, 340), Err(Error::BadPacket)));
    assert!(out19.is_empty());
}

#[test]
fn metadata_roundtrip_1_9() {
    let mut m = Metadata::new();
    m.put(&MetadataKey::new(1), MetadataValue::Int(-7));
    m.put(&MetadataKey::new(2), MetadataValue::Bool(true));
    m.put(&MetadataKey::new(3), MetadataValue::Str("abc".to_owned()));
    m.put(&MetadataKey::new(4), MetadataValue::Position(Position::new(1, 2, 3)));
    m.put(&MetadataKey::new(5), MetadataValue::OptionalUUID(Some(UUID(1, 2))));
    let mut out = Vec::new();
    m.write_to(&mut out, 340).expect("encode");
    let mut r = Reader::new(out);
    let back = Metadata::read_from(&mut r, 340).expect("decode");
    match back.get(&MetadataKey::new(1)) {
        Some(MetadataValue::Int(v)) => assert_eq!(*v, -7),
        _ => panic!("bad int"),
    }
    match back.get(&MetadataKey::new(4)) {
        Some(MetadataValue::Position(p)) => assert_eq!(*p, Position::new(1, 2, 3)),
        _ => panic!("bad position"),
    }
}

#[test]
fn metadata_roundtrip_pre_1_9() {
    let mut m = Metadata::new();
    m.put(&MetadataKey::new(1), MetadataValue::Short(-2));
    m.put(&MetadataKey::new(2), MetadataValue::Rotation(10, -20, 30));
    let mut out = Vec::new();
    m.write_to(&mut out, 47).expect("encode");
    assert_eq!(*out.last().expect("nonempty"), 0x7F);
    let mut r = Reader::new(out);
    let back = Metadata::read_from(&mut r, 47).expect("decode");
    match back.get(&MetadataKey::new(2)) {
        Some(MetadataValue::Rotation(a, b, c)) => {
            assert_eq!((*a, *b, *c), (10, -20, 30));
        }
        _ => panic!("bad rotation"),
    }
    // a pre-1.9 index past five bits is refused
    let mut m2 = Metadata::new();
    m2.put(&MetadataKey::new(0x20), MetadataValue::Byte(1));
    let mut out2 = Vec::new();
    assert!(matches!(m2.write_to(&mut out2, 47), Err(Error::BadPacket)));
}

#[test]
fn metadata_last_put_wins() {
    let mut m = Metadata::new();
    m.put(&MetadataKey::new(9), MetadataValue::Int(1));
    m.put(&MetadataKey::new(9), MetadataValue::Int(2));
    match m.get(&MetadataKey::new(9)) {
        Some(MetadataValue::Int(v)) => assert_eq!(*v, 2),
        _ => panic!("bad value"),
    }
}

#[test]
fn frame_roundtrip_all_modes() {
    let small: Vec<u8> = (1..=10).collect();
    let large: Vec<u8> = std::iter::repeat(0x61).take(5000).collect();
    for threshold in [-1i32, 0, 64, 256, 4096] {
        for payload in [&small, &large] {
            let mut frame = Vec::new();
            write_frame(payload, threshold, &mut frame).expect("frame");
            let mut r = Reader::new(frame);
            let back = read_frame(&mut r, threshold >= 0).expect("parse").expect("whole frame");
            assert_eq!(&back, payload);
            assert_eq!(r.pos, r.data.len());
        }
    }
}

#[test]
fn frame_incomplete_asks_for_more() {
    let payload: Vec<u8> = (1..=10).collect();
    let mut frame = Vec::new();
    write_frame(&payload, -1, &mut frame).expect("frame");
    let partial = frame[..frame.len() - 1].to_vec();
    let mut r = Reader::new(partial);
    assert!(read_frame(&mut r, false).expect("parse").is_none());
    assert_eq!(r.pos, 0);
}

#[test]
fn compressed_frame_below_threshold() {
    let payload: Vec<u8> = (1..=10).collect();
    let mut frame = Vec::new();
    write_frame(&payload, 256, &mut frame).expect("frame");
    // varint length 11, a zero uncompressed size, then the raw bytes
    let mut expected = vec![11u8, 0u8];
    expected.extend_from_slice(&payload);
    assert_eq!(frame, expected);
    let mut r = Reader::new(frame);
    let back = read_frame(&mut r, true).expect("parse").expect("whole frame");
    assert_eq!(back, payload);
}

#[test]
fn compressed_frame_above_threshold_shrinks() {
    let payload: Vec<u8> = std::iter::repeat(0x7A).take(4000).collect();
    let mut frame = Vec::new();
    write_frame(&payload, 64, &mut frame).expect("frame");
    assert!(frame.len() < payload.len());
    let mut r = Reader::new(frame);
    let back = read_frame(&mut r, true).expect("parse").expect("whole frame");
    assert_eq!(back, payload);
}

#[test]
fn encrypted_frames_roundtrip() {
    let key: Vec<u8> = (0..16).collect();
    let mut enc = EncryptStream::new(&key).expect("cipher");
    let mut dec = DecryptStream::new(&key).expect("cipher");
    let payloads: Vec<Vec<u8>> = vec![(1..=10).collect(), (100..=200).collect()];
    for (i, payload) in payloads.iter().enumerate() {
        for threshold in [-1i32, 0, 64, 256, 4096] {
            let mut frame = Vec::new();
            write_frame(payload, threshold, &mut frame).expect("frame");
            let plain = frame.clone();
            enc.encrypt(&mut frame);
            if i == 0 {
                assert_ne!(frame, plain, "the cipher must change the bytes");
            }
            dec.decrypt(&mut frame);
            assert_eq!(frame, plain);
            let mut r = Reader::new(frame);
            let back = read_frame(&mut r, threshold >= 0).expect("parse").expect("whole frame");
            assert_eq!(&back, payload);
        }
    }
}

#[test]
fn cipher_state_advances() {
    let key = vec![7u8; 16];
    let mut enc = EncryptStream::new(&key).expect("cipher");
    let mut a = vec![1, 2, 3, 4];
    let mut b = vec![1, 2, 3, 4];
    enc.encrypt(&mut a);
    enc.encrypt(&mut b);
    assert_ne!(a, b, "the keystream must move on between calls");
    // a different key gives a different stream
    let mut enc2 = EncryptStream::new(&vec![8u8; 16]).expect("cipher");
    let mut c = vec![1, 2, 3, 4];
    enc2.encrypt(&mut c);
    assert_ne!(a, c);
}

#[test]
fn cipher_rejects_short_keys() {
    assert!(matches!(EncryptStream::new(&vec![1u8; 8]), Err(Error::Auth)));
    assert!(matches!(DecryptStream::new(&vec![1u8; 20]), Err(Error::Auth)));
}

#[test]
fn len_prefixed_holds_data() {
    let lp: LenPrefixed<VarInt, u8> = LenPrefixed::new(vec![1, 2, 3]);
    assert_eq!(lp.data, vec![1, 2, 3]);
    let lpb: LenPrefixedBytes<VarInt> = LenPrefixedBytes::new(vec![9, 8]);
    assert_eq!(lpb.data, vec![9, 8]);
}
