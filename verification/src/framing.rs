//! Transport framing: every packet travels as a varint length prefix
//! followed by the payload, and, once compression is negotiated, the
//! payload itself carries a varint uncompressed size followed by either
//! the raw bytes (size zero) or a zlib stream.

use vstd::prelude::*;
use crate::Error;
use crate::wire::{Reader, VarInt, varuint_bytes, varuint_decode, lemma_varuint_bytes_len,
    lemma_varuint_decode_encode, varuint_len, write_varuint64, write_u8, write_bytes};

verus! {

/// What `flate2`'s zlib encoder produces for the given bytes; a function
/// of the input alone.
pub uninterp spec fn zlib_deflate(data: Seq<u8>) -> Seq<u8>;

/// What `flate2`'s zlib decoder recovers from the given bytes, if they
/// are a well-formed zlib stream; a function of the input alone.
pub uninterp spec fn zlib_inflate(data: Seq<u8>) -> Option<Seq<u8>>;

/// Relies on flate2::read::ZlibEncoder: compressing is deterministic in
/// the input, and the zlib decoder recovers exactly the input from it.
/// Reading from the in-memory encoder performs no fallible I/O.
#[verifier::external_body]
fn zlib_compress(data: &Vec<u8>) -> (r: Vec<u8>)
    ensures
        r@ == zlib_deflate(data@),
        zlib_inflate(r@) == Some(data@),
{
    let mut enc = flate2::read::ZlibEncoder::new(&data[..], flate2::Compression::default());
    let mut out = Vec::new();
    std::io::Read::read_to_end(&mut enc, &mut out).unwrap();
    out
}

/// Relies on flate2::read::ZlibDecoder: it succeeds exactly on
/// well-formed zlib streams and recovers the compressed bytes.
#[verifier::external_body]
fn zlib_decompress(data: &Vec<u8>) -> (r: Option<Vec<u8>>)
    ensures
        (r is Some) <==> zlib_inflate(data@) is Some,
        r matches Some(v) ==> zlib_inflate(data@) == Some(v@),
{
    let mut dec = flate2::read::ZlibDecoder::new(&data[..]);
    let mut out = Vec::new();
    match std::io::Read::read_to_end(&mut dec, &mut out) {
        Ok(_) => Some(out),
        Err(_) => None,
    }
}

/// Whether a frame is sent compressed: compression must be negotiated,
/// the payload must reach the threshold, and an empty payload is never
/// compressed (size zero marks the uncompressed form).
pub open spec fn spec_compresses(payload: Seq<u8>, threshold: int) -> bool {
    threshold >= 0 && payload.len() >= threshold && payload.len() > 0
}

/// The frame payload after the optional compression layer.
pub open spec fn spec_inner(payload: Seq<u8>, threshold: int) -> Seq<u8> {
    if spec_compresses(payload, threshold) {
        varuint_bytes(payload.len() as u64) + zlib_deflate(payload)
    } else if threshold >= 0 {
        seq![0u8] + payload
    } else {
        payload
    }
}

/// The full wire frame for a payload under the given threshold
/// (negative: compression disabled).
pub open spec fn spec_frame(payload: Seq<u8>, threshold: int) -> Seq<u8> {
    varuint_bytes(spec_inner(payload, threshold).len() as u64) + spec_inner(payload, threshold)
}

/// Whether the frame's two length prefixes fit in their signed 32-bit
/// wire form.
pub open spec fn frame_fits(payload: Seq<u8>, threshold: int) -> bool {
    payload.len() < 0x80000000 && spec_inner(payload, threshold).len() < 0x80000000
}

/// A varint that stops early only because the buffer ran out: fewer than
/// five bytes remain and every one of them asks for more.
pub open spec fn varint_incomplete(bytes: Seq<u8>, pos: int) -> bool {
    bytes.len() - pos < 5 && (forall|i: int| pos <= i < bytes.len() ==> bytes[i] >= 0x80)
}

/// The outcome of parsing one frame out of a receive buffer.
pub enum FrameParse {
    /// The buffer does not yet hold the whole frame.
    NeedMore,
    /// The bytes present cannot be a frame.
    Bad,
    /// One whole frame: its decoded payload, and where it ends.
    Frame { payload: Seq<u8>, end: int },
}

/// What parsing one frame at `pos` yields. Compression being enabled
/// changes the payload's shape; the frame's declared length always
/// delimits it first.
pub open spec fn spec_unframe(bytes: Seq<u8>, pos: int, compressed: bool) -> FrameParse {
    match varuint_decode(bytes, pos, 5) {
        None => if varint_incomplete(bytes, pos) {
            FrameParse::NeedMore
        } else {
            FrameParse::Bad
        },
        Some((n, p)) => {
            let len = n % 0x1_0000_0000;
            if len >= 0x80000000 {
                FrameParse::Bad
            } else if p + len > bytes.len() {
                FrameParse::NeedMore
            } else {
                let inner = bytes.subrange(p, p + len);
                if !compressed {
                    FrameParse::Frame { payload: inner, end: p + len }
                } else {
                    match varuint_decode(inner, 0, 5) {
                        None => FrameParse::Bad,
                        Some((m, q)) => {
                            let us = m % 0x1_0000_0000;
                            if us >= 0x80000000 {
                                FrameParse::Bad
                            } else if us == 0 {
                                FrameParse::Frame {
                                    payload: inner.subrange(q, inner.len() as int),
                                    end: p + len,
                                }
                            } else {
                                match zlib_inflate(inner.subrange(q, inner.len() as int)) {
                                    Some(d) => FrameParse::Frame { payload: d, end: p + len },
                                    None => FrameParse::Bad,
                                }
                            }
                        },
                    }
                }
            }
        },
    }
}

/// Whether the unread bytes are a varint cut short by the end of the
/// buffer.
fn varint_incomplete_exec(r: &Reader, start: usize) -> (b: bool)
    requires
        start <= r.data@.len(),
    ensures
        b == varint_incomplete(r.data@, start as int),
{
    let len = r.data.len();
    if len - start >= 5 {
        return false;
    }
    let mut i: usize = start;
    while i < len
        invariant
            start <= i <= len,
            len == r.data@.len(),
            forall|k: int| start <= k < i ==> r.data@[k] >= 0x80,
        decreases len - i,
    {
        if r.data[i] < 0x80 {
            return false;
        }
        i = i + 1;
    }
    true
}

/// Pull one frame out of the reader. `Ok(None)` means the buffer does
/// not yet hold the whole frame and the position is unchanged; on
/// success the position has moved past the frame.
pub fn read_frame(r: &mut Reader, compressed: bool) -> (res: Result<Option<Vec<u8>>, Error>)
    requires
        old(r).pos <= old(r).data@.len(),
    ensures
        final(r).data@ == old(r).data@,
        match spec_unframe(old(r).data@, old(r).pos as int, compressed) {
            FrameParse::NeedMore => res matches Ok(ro) && ro is None && final(r).pos == old(
                r,
            ).pos,
            FrameParse::Bad => res matches Err(e) && e == Error::MalformedFrame,
            FrameParse::Frame { payload, end } => res matches Ok(ro) && ro matches Some(v) && v@
                == payload && final(r).pos == end,
        },
{
    let start = r.pos;
    let vi = match VarInt::read_from(r) {
        Ok(vi) => vi,
        Err(_) => {
            if varint_incomplete_exec(r, start) {
                r.pos = start;
                return Ok(None);
            }
            return Err(Error::MalformedFrame);
        },
    };
    let len = vi.0;
    if len < 0 {
        proof {
            assert(len < 0 ==> (len as u32) >= 0x80000000) by (bit_vector);
        }
        return Err(Error::MalformedFrame);
    }
    if (len as usize) > r.remaining() {
        r.pos = start;
        return Ok(None);
    }
    let inner = match r.read_bytes(len as usize) {
        Ok(v) => v,
        Err(e) => {
            return Err(e);
        },
    };
    if !compressed {
        return Ok(Some(inner));
    }
    let ghost inner_seq = inner@;
    let ghost frame_end = r.pos as int;
    let mut ir = Reader::new(inner);
    let m = match VarInt::read_from(&mut ir) {
        Ok(m) => m,
        Err(_) => {
            return Err(Error::MalformedFrame);
        },
    };
    let us = m.0;
    if us < 0 {
        proof {
            assert(us < 0 ==> (us as u32) >= 0x80000000) by (bit_vector);
        }
        return Err(Error::MalformedFrame);
    }
    let rest_len = ir.remaining();
    let rest = match ir.read_bytes(rest_len) {
        Ok(v) => v,
        Err(e) => {
            return Err(e);
        },
    };
    if us == 0 {
        return Ok(Some(rest));
    }
    match zlib_decompress(&rest) {
        Some(d) => Ok(Some(d)),
        None => Err(Error::MalformedFrame),
    }
}

/// Frame a payload for sending. Fails only when a length prefix would
/// not fit its signed 32-bit wire form; the appended bytes then decode
/// back to exactly the payload.
pub fn write_frame(payload: &Vec<u8>, threshold: i32, out: &mut Vec<u8>) -> (r: Result<
    (),
    Error,
>)
    ensures
        (r is Ok) <==> frame_fits(payload@, threshold as int),
        r is Ok ==> final(out)@ == old(out)@ + spec_frame(payload@, threshold as int),
        r is Ok ==> spec_unframe(spec_frame(payload@, threshold as int), 0, threshold >= 0)
            == (FrameParse::Frame {
            payload: payload@,
            end: spec_frame(payload@, threshold as int).len() as int,
        }),
        r matches Err(e) ==> e == Error::MalformedFrame && final(out)@ == old(out)@,
{
    if payload.len() >= 0x80000000 {
        return Err(Error::MalformedFrame);
    }
    let ghost t = threshold as int;
    if threshold >= 0 {
        if payload.len() > 0 && payload.len() >= threshold as usize {
            let z = zlib_compress(payload);
            let mut inner: Vec<u8> = Vec::new();
            write_varuint64(&mut inner, payload.len() as u64);
            write_bytes(&mut inner, &z);
            proof {
                assert(inner@ =~= spec_inner(payload@, t));
            }
            if inner.len() >= 0x80000000 {
                return Err(Error::MalformedFrame);
            }
            write_varuint64(out, inner.len() as u64);
            write_bytes(out, &inner);
            proof {
                assert(final(out)@ =~= old(out)@ + spec_frame(payload@, t));
                lemma_unframe_of_frame(payload@, t);
            }
            Ok(())
        } else {
            if payload.len() + 1 >= 0x80000000 {
                return Err(Error::MalformedFrame);
            }
            write_varuint64(out, (payload.len() + 1) as u64);
            write_u8(out, 0);
            write_bytes(out, payload);
            proof {
                assert(spec_inner(payload@, t) =~= seq![0u8] + payload@);
                assert(final(out)@ =~= old(out)@ + spec_frame(payload@, t));
                lemma_unframe_of_frame(payload@, t);
            }
            Ok(())
        }
    } else {
        write_varuint64(out, payload.len() as u64);
        write_bytes(out, payload);
        proof {
            assert(final(out)@ =~= old(out)@ + spec_frame(payload@, t));
            lemma_unframe_of_frame(payload@, t);
        }
        Ok(())
    }
}

/// Law: a frame built for a payload parses back to exactly that payload,
/// for any threshold, provided the inflate of its deflate gives the
/// payload back (which the compressor's contract supplies wherever the
/// frame is actually compressed).
pub proof fn lemma_unframe_of_frame(payload: Seq<u8>, threshold: int)
    requires
        frame_fits(payload, threshold),
        spec_compresses(payload, threshold) ==> zlib_inflate(zlib_deflate(payload)) == Some(
            payload,
        ),
    ensures
        spec_unframe(spec_frame(payload, threshold), 0, threshold >= 0) == (FrameParse::Frame {
            payload: payload,
            end: spec_frame(payload, threshold).len() as int,
        }),
{
    let inner = spec_inner(payload, threshold);
    let frame = spec_frame(payload, threshold);
    let lv = varuint_bytes(inner.len() as u64);
    lemma_varuint_bytes_len(inner.len() as u64);
    assert(frame.subrange(0, lv.len() as int) =~= lv);
    lemma_varuint_decode_encode(frame, 0, inner.len() as u64, 5);
    let p = lv.len() as int;
    assert(frame.subrange(p, p + inner.len()) =~= inner);
    assert((inner.len() as nat) % 0x1_0000_0000 == inner.len());
    if threshold < 0 {
        // the payload is the inner bytes themselves
    } else if spec_compresses(payload, threshold) {
        let plv = varuint_bytes(payload.len() as u64);
        lemma_varuint_bytes_len(payload.len() as u64);
        assert(inner.subrange(0, plv.len() as int) =~= plv);
        lemma_varuint_decode_encode(inner, 0, payload.len() as u64, 5);
        let q = plv.len() as int;
        assert((payload.len() as nat) % 0x1_0000_0000 == payload.len());
        assert(inner.subrange(q, inner.len() as int) =~= zlib_deflate(payload));
    } else {
        assert(inner =~= seq![0u8] + payload);
        assert(inner[0] == 0);
        assert(varuint_decode(inner, 0, 5) == Some((0 as nat, 1 as int)));
        assert(inner.subrange(1, inner.len() as int) =~= payload);
    }
}

/// Law: where no zlib stream is involved (compression off, or a payload
/// below the threshold), the frame round-trip needs no hypothesis at
/// all.
pub proof fn lemma_frame_roundtrip_uncompressed(payload: Seq<u8>, threshold: int)
    requires
        !spec_compresses(payload, threshold),
        frame_fits(payload, threshold),
    ensures
        spec_unframe(spec_frame(payload, threshold), 0, threshold >= 0) == (FrameParse::Frame {
            payload: payload,
            end: spec_frame(payload, threshold).len() as int,
        }),
{
    lemma_unframe_of_frame(payload, threshold);
}

} // verus!
