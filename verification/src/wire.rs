//! Wire primitives: a byte-stream reader, big-endian fixed widths,
//! variable-length integers and length-prefixed strings.

use vstd::prelude::*;
use vstd::utf8::{valid_utf8, decode_utf8, encode_utf8};
use vstd::string::StrSliceExecFns;
use crate::Error;

verus! {

broadcast use vstd::std_specs::control_flow::group_control_flow_axioms;

/// The big-endian encoding of a 16-bit value.
pub open spec fn spec_u16_be(v: u16) -> Seq<u8> {
    seq![(v >> 8) as u8, v as u8]
}

/// The big-endian encoding of a 32-bit value.
pub open spec fn spec_u32_be(v: u32) -> Seq<u8> {
    seq![(v >> 24) as u8, (v >> 16) as u8, (v >> 8) as u8, v as u8]
}

/// The big-endian encoding of a 64-bit value.
pub open spec fn spec_u64_be(v: u64) -> Seq<u8> {
    seq![
        (v >> 56) as u8,
        (v >> 48) as u8,
        (v >> 40) as u8,
        (v >> 32) as u8,
        (v >> 24) as u8,
        (v >> 16) as u8,
        (v >> 8) as u8,
        v as u8,
    ]
}

/// The 16-bit value whose big-endian bytes start at `pos`.
pub open spec fn spec_u16_at(bytes: Seq<u8>, pos: int) -> u16 {
    ((bytes[pos] as u16) << 8) | (bytes[pos + 1] as u16)
}

/// The 32-bit value whose big-endian bytes start at `pos`.
pub open spec fn spec_u32_at(bytes: Seq<u8>, pos: int) -> u32 {
    ((bytes[pos] as u32) << 24) | ((bytes[pos + 1] as u32) << 16) | ((bytes[pos + 2] as u32) << 8)
        | (bytes[pos + 3] as u32)
}

/// The 64-bit value whose big-endian bytes start at `pos`.
pub open spec fn spec_u64_at(bytes: Seq<u8>, pos: int) -> u64 {
    ((bytes[pos] as u64) << 56) | ((bytes[pos + 1] as u64) << 48) | ((bytes[pos + 2] as u64) << 40)
        | ((bytes[pos + 3] as u64) << 32) | ((bytes[pos + 4] as u64) << 24) | ((bytes[pos
        + 5] as u64) << 16) | ((bytes[pos + 6] as u64) << 8) | (bytes[pos + 7] as u64)
}

/// A cursor over received bytes; every decoder consumes from one of these.
pub struct Reader {
    pub data: Vec<u8>,
    pub pos: usize,
}

impl Reader {
    pub fn new(data: Vec<u8>) -> (r: Reader)
        ensures
            r.data@ == data@,
            r.pos == 0,
    {
        Reader { data, pos: 0 }
    }

    /// How many bytes are left to read.
    pub open spec fn spec_remaining(&self) -> int {
        self.data@.len() - self.pos
    }

    pub fn remaining(&self) -> (n: usize)
        ensures
            self.pos <= self.data@.len() ==> n == self.spec_remaining(),
            self.pos > self.data@.len() ==> n == 0,
    {
        if self.pos <= self.data.len() {
            self.data.len() - self.pos
        } else {
            0
        }
    }

    pub fn read_u8(&mut self) -> (r: Result<u8, Error>)
        ensures
            final(self).data@ == old(self).data@,
            (r is Ok) <==> old(self).pos + 1 <= old(self).data@.len(),
            r matches Ok(b) ==> b == old(self).data@[old(self).pos as int]
                && final(self).pos == old(self).pos + 1,
            r matches Err(e) ==> e == Error::MalformedFrame && final(self).pos == old(self).pos,
    {
        if self.pos < self.data.len() {
            let b = self.data[self.pos];
            self.pos = self.pos + 1;
            Ok(b)
        } else {
            Err(Error::MalformedFrame)
        }
    }

    pub fn read_bytes(&mut self, n: usize) -> (r: Result<Vec<u8>, Error>)
        ensures
            final(self).data@ == old(self).data@,
            (r is Ok) <==> old(self).pos + n <= old(self).data@.len(),
            r matches Ok(v) ==> v@ == old(self).data@.subrange(
                old(self).pos as int,
                old(self).pos + n,
            ) && final(self).pos == old(self).pos + n,
            r matches Err(e) ==> e == Error::MalformedFrame && final(self).pos == old(self).pos,
    {
        if self.pos > self.data.len() || n > self.data.len() - self.pos {
            return Err(Error::MalformedFrame);
        }
        let mut v: Vec<u8> = Vec::new();
        let mut i: usize = 0;
        while i < n
            invariant
                i <= n,
                self.pos + n <= self.data@.len(),
                self.data@.len() <= usize::MAX,
                self.data@ == old(self).data@,
                self.pos == old(self).pos,
                v@ == self.data@.subrange(self.pos as int, self.pos + i),
            decreases n - i,
        {
            v.push(self.data[self.pos + i]);
            i = i + 1;
            proof {
                assert(v@ =~= self.data@.subrange(self.pos as int, self.pos + i));
            }
        }
        self.pos = self.pos + n;
        Ok(v)
    }

    pub fn read_u16_be(&mut self) -> (r: Result<u16, Error>)
        ensures
            final(self).data@ == old(self).data@,
            (r is Ok) <==> old(self).pos + 2 <= old(self).data@.len(),
            r matches Ok(v) ==> spec_u16_be(v) == old(self).data@.subrange(
                old(self).pos as int,
                old(self).pos + 2,
            ) && v == spec_u16_at(old(self).data@, old(self).pos as int) && final(self).pos == old(
                self,
            ).pos + 2,
            r matches Err(e) ==> e == Error::MalformedFrame,
    {
        let b0 = self.read_u8()?;
        let b1 = self.read_u8()?;
        let v: u16 = ((b0 as u16) << 8) | (b1 as u16);
        proof {
            assert((((b0 as u16) << 8) | (b1 as u16)) >> 8 == b0 as u16
                && ((((b0 as u16) << 8) | (b1 as u16)) as u8) == b1) by (bit_vector);
            assert(spec_u16_be(v) =~= old(self).data@.subrange(
                old(self).pos as int,
                old(self).pos + 2,
            ));
        }
        Ok(v)
    }

    pub fn read_u32_be(&mut self) -> (r: Result<u32, Error>)
        ensures
            final(self).data@ == old(self).data@,
            (r is Ok) <==> old(self).pos + 4 <= old(self).data@.len(),
            r matches Ok(v) ==> spec_u32_be(v) == old(self).data@.subrange(
                old(self).pos as int,
                old(self).pos + 4,
            ) && v == spec_u32_at(old(self).data@, old(self).pos as int) && final(self).pos == old(
                self,
            ).pos + 4,
            r matches Err(e) ==> e == Error::MalformedFrame,
    {
        let b0 = self.read_u8()?;
        let b1 = self.read_u8()?;
        let b2 = self.read_u8()?;
        let b3 = self.read_u8()?;
        let v: u32 = ((b0 as u32) << 24) | ((b1 as u32) << 16) | ((b2 as u32) << 8) | (b3 as u32);
        proof {
            let w = ((b0 as u32) << 24) | ((b1 as u32) << 16) | ((b2 as u32) << 8) | (b3 as u32);
            assert(w >> 24 == b0 as u32 && (w >> 16) as u8 == b1 && (w >> 8) as u8 == b2
                && w as u8 == b3) by (bit_vector)
                requires
                    w == ((b0 as u32) << 24) | ((b1 as u32) << 16) | ((b2 as u32) << 8) | (
                    b3 as u32),
            ;
            assert(spec_u32_be(v) =~= old(self).data@.subrange(
                old(self).pos as int,
                old(self).pos + 4,
            ));
        }
        Ok(v)
    }

    pub fn read_u64_be(&mut self) -> (r: Result<u64, Error>)
        ensures
            final(self).data@ == old(self).data@,
            (r is Ok) <==> old(self).pos + 8 <= old(self).data@.len(),
            r matches Ok(v) ==> spec_u64_be(v) == old(self).data@.subrange(
                old(self).pos as int,
                old(self).pos + 8,
            ) && v == spec_u64_at(old(self).data@, old(self).pos as int) && final(self).pos == old(
                self,
            ).pos + 8,
            r matches Err(e) ==> e == Error::MalformedFrame,
    {
        let b0 = self.read_u8()?;
        let b1 = self.read_u8()?;
        let b2 = self.read_u8()?;
        let b3 = self.read_u8()?;
        let b4 = self.read_u8()?;
        let b5 = self.read_u8()?;
        let b6 = self.read_u8()?;
        let b7 = self.read_u8()?;
        let v: u64 = ((b0 as u64) << 56) | ((b1 as u64) << 48) | ((b2 as u64) << 40)
            | ((b3 as u64) << 32) | ((b4 as u64) << 24) | ((b5 as u64) << 16) | ((b6 as u64) << 8)
            | (b7 as u64);
        proof {
            let w = ((b0 as u64) << 56) | ((b1 as u64) << 48) | ((b2 as u64) << 40)
                | ((b3 as u64) << 32) | ((b4 as u64) << 24) | ((b5 as u64) << 16)
                | ((b6 as u64) << 8) | (b7 as u64);
            assert(w >> 56 == b0 as u64 && (w >> 48) as u8 == b1 && (w >> 40) as u8 == b2
                && (w >> 32) as u8 == b3 && (w >> 24) as u8 == b4 && (w >> 16) as u8 == b5
                && (w >> 8) as u8 == b6 && w as u8 == b7) by (bit_vector)
                requires
                    w == ((b0 as u64) << 56) | ((b1 as u64) << 48) | ((b2 as u64) << 40) | ((
                    b3 as u64) << 32) | ((b4 as u64) << 24) | ((b5 as u64) << 16) | ((
                    b6 as u64) << 8) | (b7 as u64),
            ;
            assert(spec_u64_be(v) =~= old(self).data@.subrange(
                old(self).pos as int,
                old(self).pos + 8,
            ));
        }
        Ok(v)
    }

    pub fn read_bool(&mut self) -> (r: Result<bool, Error>)
        ensures
            final(self).data@ == old(self).data@,
            (r is Ok) <==> old(self).pos + 1 <= old(self).data@.len(),
            r matches Ok(v) ==> v == (old(self).data@[old(self).pos as int] != 0)
                && final(self).pos == old(self).pos + 1,
            r matches Err(e) ==> e == Error::MalformedFrame,
    {
        let b = self.read_u8()?;
        Ok(b != 0)
    }

    pub fn read_i8(&mut self) -> (r: Result<i8, Error>)
        ensures
            final(self).data@ == old(self).data@,
            (r is Ok) <==> old(self).pos + 1 <= old(self).data@.len(),
            r matches Ok(v) ==> v as u8 == old(self).data@[old(self).pos as int]
                && final(self).pos == old(self).pos + 1,
            r matches Err(e) ==> e == Error::MalformedFrame,
    {
        let b = self.read_u8()?;
        proof {
            assert((b as i8) as u8 == b) by (bit_vector);
        }
        Ok(#[verifier::truncate] (b as i8))
    }

    pub fn read_i16_be(&mut self) -> (r: Result<i16, Error>)
        ensures
            final(self).data@ == old(self).data@,
            (r is Ok) <==> old(self).pos + 2 <= old(self).data@.len(),
            r matches Ok(v) ==> spec_u16_be(v as u16) == old(self).data@.subrange(
                old(self).pos as int,
                old(self).pos + 2,
            ) && final(self).pos == old(self).pos + 2,
            r matches Err(e) ==> e == Error::MalformedFrame,
    {
        let v = self.read_u16_be()?;
        proof {
            assert((v as i16) as u16 == v) by (bit_vector);
        }
        Ok(#[verifier::truncate] (v as i16))
    }

    pub fn read_i32_be(&mut self) -> (r: Result<i32, Error>)
        ensures
            final(self).data@ == old(self).data@,
            (r is Ok) <==> old(self).pos + 4 <= old(self).data@.len(),
            r matches Ok(v) ==> spec_u32_be(v as u32) == old(self).data@.subrange(
                old(self).pos as int,
                old(self).pos + 4,
            ) && final(self).pos == old(self).pos + 4,
            r matches Err(e) ==> e == Error::MalformedFrame,
    {
        let v = self.read_u32_be()?;
        proof {
            assert((v as i32) as u32 == v) by (bit_vector);
        }
        Ok(#[verifier::truncate] (v as i32))
    }

    pub fn read_i64_be(&mut self) -> (r: Result<i64, Error>)
        ensures
            final(self).data@ == old(self).data@,
            (r is Ok) <==> old(self).pos + 8 <= old(self).data@.len(),
            r matches Ok(v) ==> spec_u64_be(v as u64) == old(self).data@.subrange(
                old(self).pos as int,
                old(self).pos + 8,
            ) && final(self).pos == old(self).pos + 8,
            r matches Err(e) ==> e == Error::MalformedFrame,
    {
        let v = self.read_u64_be()?;
        proof {
            assert((v as i64) as u64 == v) by (bit_vector);
        }
        Ok(#[verifier::truncate] (v as i64))
    }
}

pub fn write_u8(out: &mut Vec<u8>, v: u8)
    ensures
        final(out)@ == old(out)@.push(v),
{
    out.push(v);
}

pub fn write_bool(out: &mut Vec<u8>, v: bool)
    ensures
        final(out)@ == old(out)@.push(if v { 1u8 } else { 0u8 }),
{
    out.push(if v { 1 } else { 0 });
}

pub fn write_u16_be(out: &mut Vec<u8>, v: u16)
    ensures
        final(out)@ == old(out)@ + spec_u16_be(v),
{
    out.push(#[verifier::truncate] ((v >> 8) as u8));
    out.push(#[verifier::truncate] (v as u8));
    proof {
        assert(out@ =~= old(out)@ + spec_u16_be(v));
    }
}

pub fn write_u32_be(out: &mut Vec<u8>, v: u32)
    ensures
        final(out)@ == old(out)@ + spec_u32_be(v),
{
    out.push(#[verifier::truncate] ((v >> 24) as u8));
    out.push(#[verifier::truncate] ((v >> 16) as u8));
    out.push(#[verifier::truncate] ((v >> 8) as u8));
    out.push(#[verifier::truncate] (v as u8));
    proof {
        assert(out@ =~= old(out)@ + spec_u32_be(v));
    }
}

pub fn write_u64_be(out: &mut Vec<u8>, v: u64)
    ensures
        final(out)@ == old(out)@ + spec_u64_be(v),
{
    out.push(#[verifier::truncate] ((v >> 56) as u8));
    out.push(#[verifier::truncate] ((v >> 48) as u8));
    out.push(#[verifier::truncate] ((v >> 40) as u8));
    out.push(#[verifier::truncate] ((v >> 32) as u8));
    out.push(#[verifier::truncate] ((v >> 24) as u8));
    out.push(#[verifier::truncate] ((v >> 16) as u8));
    out.push(#[verifier::truncate] ((v >> 8) as u8));
    out.push(#[verifier::truncate] (v as u8));
    proof {
        assert(out@ =~= old(out)@ + spec_u64_be(v));
    }
}

pub fn write_i8(out: &mut Vec<u8>, v: i8)
    ensures
        final(out)@ == old(out)@.push(v as u8),
{
    out.push(#[verifier::truncate] (v as u8));
}

pub fn write_i16_be(out: &mut Vec<u8>, v: i16)
    ensures
        final(out)@ == old(out)@ + spec_u16_be(v as u16),
{
    write_u16_be(out, #[verifier::truncate] (v as u16));
}

pub fn write_i32_be(out: &mut Vec<u8>, v: i32)
    ensures
        final(out)@ == old(out)@ + spec_u32_be(v as u32),
{
    write_u32_be(out, #[verifier::truncate] (v as u32));
}

pub fn write_i64_be(out: &mut Vec<u8>, v: i64)
    ensures
        final(out)@ == old(out)@ + spec_u64_be(v as u64),
{
    write_u64_be(out, #[verifier::truncate] (v as u64));
}

pub fn write_bytes(out: &mut Vec<u8>, bytes: &Vec<u8>)
    ensures
        final(out)@ == old(out)@ + bytes@,
{
    let mut i: usize = 0;
    while i < bytes.len()
        invariant
            i <= bytes@.len(),
            out@ == old(out)@ + bytes@.subrange(0, i as int),
        decreases bytes@.len() - i,
    {
        out.push(bytes[i]);
        i = i + 1;
        proof {
            assert(out@ =~= old(out)@ + bytes@.subrange(0, i as int));
        }
    }
    proof {
        assert(out@ =~= old(out)@ + bytes@);
    }
}


/// The variable-length encoding of an unsigned value: 7-bit groups sent
/// least-significant first, with the high bit of a byte marking that more
/// groups follow.
pub open spec fn varuint_bytes(v: u64) -> Seq<u8>
    decreases v,
{
    if v < 0x80 {
        seq![v as u8]
    } else {
        seq![((v % 0x80) + 0x80) as u8] + varuint_bytes(v / 0x80)
    }
}

/// How many bytes the variable-length encoding of `v` takes:
/// one plus the floor of the base-128 logarithm of `v`.
pub open spec fn varuint_len(v: u64) -> nat {
    if v < 0x80 {
        1
    } else if v < 0x4000 {
        2
    } else if v < 0x200000 {
        3
    } else if v < 0x10000000 {
        4
    } else if v < 0x8_0000_0000 {
        5
    } else if v < 0x400_0000_0000 {
        6
    } else if v < 0x2_0000_0000_0000 {
        7
    } else if v < 0x100_0000_0000_0000 {
        8
    } else if v < 0x8000_0000_0000_0000 {
        9
    } else {
        10
    }
}

pub proof fn lemma_varuint_bytes_len(v: u64)
    ensures
        varuint_bytes(v).len() == varuint_len(v),
    decreases v,
{
    if v >= 0x80 {
        lemma_varuint_bytes_len(v / 0x80);
    }
}

/// What a variable-length integer of at most `max` groups starting at
/// `pos` decodes to: the unsigned value (before any truncation to the
/// reader's width) and the position just past it.
pub open spec fn varuint_decode(bytes: Seq<u8>, pos: int, max: nat) -> Option<(nat, int)>
    decreases max,
{
    if max == 0 || pos < 0 || pos >= bytes.len() {
        None
    } else {
        let b = bytes[pos];
        if b < 0x80 {
            Some(((b as nat), pos + 1))
        } else {
            match varuint_decode(bytes, pos + 1, (max - 1) as nat) {
                Some(t) => Some(((((b - 0x80) + 0x80 * t.0) as nat), t.1)),
                None => None,
            }
        }
    }
}

/// Law: a decoder that starts on the encoding of `v` reads back exactly
/// `v` and stops right after it.
pub proof fn lemma_varuint_decode_encode(bytes: Seq<u8>, pos: int, v: u64, max: nat)
    requires
        0 <= pos,
        pos + varuint_bytes(v).len() <= bytes.len(),
        bytes.subrange(pos, pos + varuint_bytes(v).len() as int) == varuint_bytes(v),
        max >= varuint_bytes(v).len(),
    ensures
        varuint_decode(bytes, pos, max) == Some((
            (v as nat),
            pos + varuint_bytes(v).len(),
        )),
    decreases v,
{
    if v < 0x80 {
        assert(bytes[pos] == varuint_bytes(v)[0]);
    } else {
        let tl = varuint_bytes(v / 0x80);
        assert(varuint_bytes(v) == seq![((v % 0x80) + 0x80) as u8] + tl);
        assert(bytes[pos] == varuint_bytes(v)[0]);
        assert(bytes[pos] == ((v % 0x80) + 0x80) as u8);
        assert(bytes.subrange(pos + 1, pos + 1 + tl.len()) =~= tl) by {
            assert forall|i: int| 0 <= i < tl.len() implies bytes[pos + 1 + i] == tl[i] by {
                assert(varuint_bytes(v)[i + 1] == tl[i]);
                assert(bytes.subrange(pos, pos + varuint_bytes(v).len() as int)[i + 1]
                    == bytes[pos + 1 + i]);
            }
        }
        lemma_varuint_decode_encode(bytes, pos + 1, v / 0x80, (max - 1) as nat);
    }
}

/// A successful varint decode lands strictly past its start and inside
/// the buffer.
pub proof fn lemma_varuint_decode_bounds(bytes: Seq<u8>, pos: int, max: nat)
    ensures
        varuint_decode(bytes, pos, max) matches Some(t) ==> pos < t.1 <= bytes.len(),
    decreases max,
{
    if max > 0 && 0 <= pos < bytes.len() && bytes[pos] >= 0x80 {
        lemma_varuint_decode_bounds(bytes, pos + 1, (max - 1) as nat);
    }
}

/// A successful string decode lands strictly past its start and inside
/// the buffer.
pub proof fn lemma_string_decode_bounds(bytes: Seq<u8>, pos: int)
    ensures
        string_decode(bytes, pos) matches Some(t) ==> pos < t.1 <= bytes.len(),
{
    lemma_varuint_decode_bounds(bytes, pos, 5);
}

/// Law: decoding the encoding of any 32-bit integer yields the integer
/// back (negative values travel as their two's-complement pattern), and
/// the encoding takes one byte per started 7-bit group of the unsigned
/// pattern, never more than five.
pub proof fn lemma_varint_roundtrip(i: i32)
    ensures
        varuint_decode(varuint_bytes((i as u32) as u64), 0, 5) == Some((
            ((i as u32) as nat),
            varuint_bytes((i as u32) as u64).len() as int,
        )),
        varuint_bytes((i as u32) as u64).len() == (if (i as u32) < 0x80 {
            1int
        } else if (i as u32) < 0x4000 {
            2int
        } else if (i as u32) < 0x200000 {
            3int
        } else if (i as u32) < 0x10000000 {
            4int
        } else {
            5int
        }),
{
    let v = (i as u32) as u64;
    let b = varuint_bytes(v);
    lemma_varuint_bytes_len(v);
    assert(b.subrange(0, b.len() as int) =~= b);
    lemma_varuint_decode_encode(b, 0, v, 5);
}

/// Law: decoding the encoding of any 64-bit integer yields the integer
/// back; the encoding never takes more than ten bytes.
pub proof fn lemma_varlong_roundtrip(i: i64)
    ensures
        varuint_decode(varuint_bytes(i as u64), 0, 10) == Some((
            ((i as u64) as nat),
            varuint_bytes(i as u64).len() as int,
        )),
        varuint_bytes(i as u64).len() <= 10,
{
    let v = i as u64;
    let b = varuint_bytes(v);
    lemma_varuint_bytes_len(v);
    assert(b.subrange(0, b.len() as int) =~= b);
    lemma_varuint_decode_encode(b, 0, v, 10);
}

/// Truncating a value to 32 bits is taking it modulo 2^32.
pub proof fn lemma_trunc_u32(w: u64)
    ensures
        ((w as u32) as nat) == (w as nat) % 0x1_0000_0000,
{
    assert(((w as u32) as nat) == (w as nat) % 0x1_0000_0000) by (bit_vector);
}

/// Truncating a value to 64 bits is taking it modulo 2^64.
pub proof fn lemma_trunc_u64(w: u128)
    ensures
        ((w as u64) as nat) == (w as nat) % 0x1_0000_0000_0000_0000,
{
    assert(((w as u64) as nat) == (w as nat) % 0x1_0000_0000_0000_0000) by (bit_vector);
}

/// A 32-bit integer carried in a variable-width encoding of 1 to 5 bytes.
/// Negative values travel as their two's-complement bit pattern.
#[derive(Clone, Copy, PartialEq, Eq, Structural, Debug)]
pub struct VarInt(pub i32);

impl VarInt {
    /// The wire bytes of this value.
    pub open spec fn spec_bytes(&self) -> Seq<u8> {
        varuint_bytes((self.0 as u32) as u64)
    }

    pub fn write_to(&self, out: &mut Vec<u8>)
        ensures
            final(out)@ == old(out)@ + self.spec_bytes(),
    {
        write_varuint64(out, (#[verifier::truncate] (self.0 as u32)) as u64);
    }

    pub fn read_from(buf: &mut Reader) -> (r: Result<VarInt, Error>)
        ensures
            final(buf).data@ == old(buf).data@,
            r is Ok ==> final(buf).pos <= final(buf).data@.len(),
            match varuint_decode(old(buf).data@, old(buf).pos as int, 5) {
                Some(t) => r matches Ok(vi) && ((vi.0 as u32) as nat) == t.0 % 0x1_0000_0000
                    && final(buf).pos == t.1,
                None => r matches Err(e) && e == Error::MalformedFrame,
            },
    {
        proof {
            reveal_with_fuel(varuint_decode, 6);
        }
        let b0 = buf.read_u8()?;
        if b0 < 0x80 {
            return Ok(VarInt(b0 as i32));
        }
        let b1 = buf.read_u8()?;
        if b1 < 0x80 {
            let w: u64 = ((b0 & 0x7f) as u64) | ((b1 as u64) << 7);
            proof {
                assert(w == (b0 - 0x80) + 0x80 * b1) by (bit_vector)
                    requires
                        w == ((b0 & 0x7f) as u64) | ((b1 as u64) << 7),
                        b0 >= 0x80,
                        b1 < 0x80,
                ;
                lemma_trunc_u32(w);
            }
            return Ok(VarInt(#[verifier::truncate] ((w as u32) as i32)));
        }
        let b2 = buf.read_u8()?;
        if b2 < 0x80 {
            let w: u64 = ((b0 & 0x7f) as u64) | (((b1 & 0x7f) as u64) << 7) | ((b2 as u64) << 14);
            proof {
                assert(w == (b0 - 0x80) + 0x80 * ((b1 - 0x80) + 0x80 * b2)) by (bit_vector)
                    requires
                        w == ((b0 & 0x7f) as u64) | (((b1 & 0x7f) as u64) << 7) | ((b2 as u64)
                            << 14),
                        b0 >= 0x80,
                        b1 >= 0x80,
                        b2 < 0x80,
                ;
                lemma_trunc_u32(w);
            }
            return Ok(VarInt(#[verifier::truncate] ((w as u32) as i32)));
        }
        let b3 = buf.read_u8()?;
        if b3 < 0x80 {
            let w: u64 = ((b0 & 0x7f) as u64) | (((b1 & 0x7f) as u64) << 7) | (((b2
                & 0x7f) as u64) << 14) | ((b3 as u64) << 21);
            proof {
                assert(w == (b0 - 0x80) + 0x80 * ((b1 - 0x80) + 0x80 * ((b2 - 0x80) + 0x80 * b3)))
                    by (bit_vector)
                    requires
                        w == ((b0 & 0x7f) as u64) | (((b1 & 0x7f) as u64) << 7) | (((b2
                            & 0x7f) as u64) << 14) | ((b3 as u64) << 21),
                        b0 >= 0x80,
                        b1 >= 0x80,
                        b2 >= 0x80,
                        b3 < 0x80,
                ;
                lemma_trunc_u32(w);
            }
            return Ok(VarInt(#[verifier::truncate] ((w as u32) as i32)));
        }
        let b4 = buf.read_u8()?;
        if b4 < 0x80 {
            let w: u64 = ((b0 & 0x7f) as u64) | (((b1 & 0x7f) as u64) << 7) | (((b2
                & 0x7f) as u64) << 14) | (((b3 & 0x7f) as u64) << 21) | ((b4 as u64) << 28);
            proof {
                assert(w == (b0 - 0x80) + 0x80 * ((b1 - 0x80) + 0x80 * ((b2 - 0x80) + 0x80 * ((b3
                    - 0x80) + 0x80 * b4)))) by (bit_vector)
                    requires
                        w == ((b0 & 0x7f) as u64) | (((b1 & 0x7f) as u64) << 7) | (((b2
                            & 0x7f) as u64) << 14) | (((b3 & 0x7f) as u64) << 21) | ((b4 as u64)
                            << 28),
                        b0 >= 0x80,
                        b1 >= 0x80,
                        b2 >= 0x80,
                        b3 >= 0x80,
                        b4 < 0x80,
                ;
                lemma_trunc_u32(w);
                assert(((w as u32) as i32) as u32 == w as u32) by (bit_vector);
                assert((((w as u32) as i32) as u32 as nat) == (w as nat) % 0x1_0000_0000);
                assert(varuint_decode(old(buf).data@, old(buf).pos as int, 5) is Some);
            }
            return Ok(VarInt(#[verifier::truncate] ((w as u32) as i32)));
        }
        Err(Error::MalformedFrame)
    }
}

impl Default for VarInt {
    fn default() -> (r: VarInt)
        ensures
            r.0 == 0,
    {
        VarInt(0)
    }
}

pub fn write_varuint64(out: &mut Vec<u8>, v: u64)
    ensures
        final(out)@ == old(out)@ + varuint_bytes(v),
{
    let mut val: u64 = v;
    loop
        invariant
            out@ + varuint_bytes(val) == old(out)@ + varuint_bytes(v),
        decreases val,
    {
        if val < 0x80 {
            out.push(val as u8);
            proof {
                assert(out@ =~= old(out)@ + varuint_bytes(v));
            }
            return;
        }
        let b: u8 = ((val % 0x80) + 0x80) as u8;
        out.push(b);
        proof {
            assert(out@ + varuint_bytes(val / 0x80) =~= old(out)@ + varuint_bytes(v));
        }
        val = val / 0x80;
    }
}

/// A 64-bit integer carried in a variable-width encoding of 1 to 10 bytes.
/// Negative values travel as their two's-complement bit pattern.
#[derive(Clone, Copy, PartialEq, Eq, Structural, Debug)]
pub struct VarLong(pub i64);

impl VarLong {
    /// The wire bytes of this value.
    pub open spec fn spec_bytes(&self) -> Seq<u8> {
        varuint_bytes(self.0 as u64)
    }

    pub fn write_to(&self, out: &mut Vec<u8>)
        ensures
            final(out)@ == old(out)@ + self.spec_bytes(),
    {
        write_varuint64(out, #[verifier::truncate] (self.0 as u64));
    }

    #[verifier::rlimit(50)]
    pub fn read_from(buf: &mut Reader) -> (r: Result<VarLong, Error>)
        ensures
            final(buf).data@ == old(buf).data@,
            r is Ok ==> final(buf).pos <= final(buf).data@.len(),
            match varuint_decode(old(buf).data@, old(buf).pos as int, 10) {
                Some(t) => r matches Ok(vl) && ((vl.0 as u64) as nat) == t.0
                    % 0x1_0000_0000_0000_0000 && final(buf).pos == t.1,
                None => r matches Err(e) && e == Error::MalformedFrame,
            },
    {
        proof {
            reveal_with_fuel(varuint_decode, 11);
        }
        let b0 = buf.read_u8()?;
        if b0 < 0x80 {
            return Ok(VarLong(b0 as i64));
        }
        let b1 = buf.read_u8()?;
        if b1 < 0x80 {
            let w: u128 = ((b0 & 0x7f) as u128) | ((b1 as u128) << 7);
            proof {
                assert(w == (b0 - 0x80) + 0x80 * (b1)) by (bit_vector)
                    requires
                        w == ((b0 & 0x7f) as u128) | ((b1 as u128) << 7),
                        b0 >= 0x80,
                        b1 < 0x80,
                ;
                lemma_trunc_u64(w);
            }
            return Ok(VarLong(#[verifier::truncate] ((w as u64) as i64)));
        }
        let b2 = buf.read_u8()?;
        if b2 < 0x80 {
            let w: u128 = ((b0 & 0x7f) as u128) | (((b1 & 0x7f) as u128) << 7) | ((b2 as u128) << 14);
            proof {
                assert(w == (b0 - 0x80) + 0x80 * ((b1 - 0x80) + 0x80 * (b2))) by (bit_vector)
                    requires
                        w == ((b0 & 0x7f) as u128) | (((b1 & 0x7f) as u128) << 7) | ((b2 as u128) << 14),
                        b0 >= 0x80,
                        b1 >= 0x80,
                        b2 < 0x80,
                ;
                lemma_trunc_u64(w);
            }
            return Ok(VarLong(#[verifier::truncate] ((w as u64) as i64)));
        }
        let b3 = buf.read_u8()?;
        if b3 < 0x80 {
            let w: u128 = ((b0 & 0x7f) as u128) | (((b1 & 0x7f) as u128) << 7) | (((b2 & 0x7f) as u128) << 14) | ((b3 as u128) << 21);
            proof {
                assert(w == (b0 - 0x80) + 0x80 * ((b1 - 0x80) + 0x80 * ((b2 - 0x80) + 0x80 * (b3)))) by (bit_vector)
                    requires
                        w == ((b0 & 0x7f) as u128) | (((b1 & 0x7f) as u128) << 7) | (((b2 & 0x7f) as u128) << 14) | ((b3 as u128) << 21),
                        b0 >= 0x80,
                        b1 >= 0x80,
                        b2 >= 0x80,
                        b3 < 0x80,
                ;
                lemma_trunc_u64(w);
            }
            return Ok(VarLong(#[verifier::truncate] ((w as u64) as i64)));
        }
        let b4 = buf.read_u8()?;
        if b4 < 0x80 {
            let w: u128 = ((b0 & 0x7f) as u128) | (((b1 & 0x7f) as u128) << 7) | (((b2 & 0x7f) as u128) << 14) | (((b3 & 0x7f) as u128) << 21) | ((b4 as u128) << 28);
            proof {
                assert(w == (b0 - 0x80) + 0x80 * ((b1 - 0x80) + 0x80 * ((b2 - 0x80) + 0x80 * ((b3 - 0x80) + 0x80 * (b4))))) by (bit_vector)
                    requires
                        w == ((b0 & 0x7f) as u128) | (((b1 & 0x7f) as u128) << 7) | (((b2 & 0x7f) as u128) << 14) | (((b3 & 0x7f) as u128) << 21) | ((b4 as u128) << 28),
                        b0 >= 0x80,
                        b1 >= 0x80,
                        b2 >= 0x80,
                        b3 >= 0x80,
                        b4 < 0x80,
                ;
                lemma_trunc_u64(w);
            }
            return Ok(VarLong(#[verifier::truncate] ((w as u64) as i64)));
        }
        let b5 = buf.read_u8()?;
        if b5 < 0x80 {
            let w: u128 = ((b0 & 0x7f) as u128) | (((b1 & 0x7f) as u128) << 7) | (((b2 & 0x7f) as u128) << 14) | (((b3 & 0x7f) as u128) << 21) | (((b4 & 0x7f) as u128) << 28) | ((b5 as u128) << 35);
            proof {
                assert(w == (b0 - 0x80) + 0x80 * ((b1 - 0x80) + 0x80 * ((b2 - 0x80) + 0x80 * ((b3 - 0x80) + 0x80 * ((b4 - 0x80) + 0x80 * (b5)))))) by (bit_vector)
                    requires
                        w == ((b0 & 0x7f) as u128) | (((b1 & 0x7f) as u128) << 7) | (((b2 & 0x7f) as u128) << 14) | (((b3 & 0x7f) as u128) << 21) | (((b4 & 0x7f) as u128) << 28) | ((b5 as u128) << 35),
                        b0 >= 0x80,
                        b1 >= 0x80,
                        b2 >= 0x80,
                        b3 >= 0x80,
                        b4 >= 0x80,
                        b5 < 0x80,
                ;
                lemma_trunc_u64(w);
            }
            return Ok(VarLong(#[verifier::truncate] ((w as u64) as i64)));
        }
        let b6 = buf.read_u8()?;
        if b6 < 0x80 {
            let w: u128 = ((b0 & 0x7f) as u128) | (((b1 & 0x7f) as u128) << 7) | (((b2 & 0x7f) as u128) << 14) | (((b3 & 0x7f) as u128) << 21) | (((b4 & 0x7f) as u128) << 28) | (((b5 & 0x7f) as u128) << 35) | ((b6 as u128) << 42);
            proof {
                assert(w == (b0 - 0x80) + 0x80 * ((b1 - 0x80) + 0x80 * ((b2 - 0x80) + 0x80 * ((b3 - 0x80) + 0x80 * ((b4 - 0x80) + 0x80 * ((b5 - 0x80) + 0x80 * (b6))))))) by (bit_vector)
                    requires
                        w == ((b0 & 0x7f) as u128) | (((b1 & 0x7f) as u128) << 7) | (((b2 & 0x7f) as u128) << 14) | (((b3 & 0x7f) as u128) << 21) | (((b4 & 0x7f) as u128) << 28) | (((b5 & 0x7f) as u128) << 35) | ((b6 as u128) << 42),
                        b0 >= 0x80,
                        b1 >= 0x80,
                        b2 >= 0x80,
                        b3 >= 0x80,
                        b4 >= 0x80,
                        b5 >= 0x80,
                        b6 < 0x80,
                ;
                lemma_trunc_u64(w);
            }
            return Ok(VarLong(#[verifier::truncate] ((w as u64) as i64)));
        }
        let b7 = buf.read_u8()?;
        if b7 < 0x80 {
            let w: u128 = ((b0 & 0x7f) as u128) | (((b1 & 0x7f) as u128) << 7) | (((b2 & 0x7f) as u128) << 14) | (((b3 & 0x7f) as u128) << 21) | (((b4 & 0x7f) as u128) << 28) | (((b5 & 0x7f) as u128) << 35) | (((b6 & 0x7f) as u128) << 42) | ((b7 as u128) << 49);
            proof {
                assert(w == (b0 - 0x80) + 0x80 * ((b1 - 0x80) + 0x80 * ((b2 - 0x80) + 0x80 * ((b3 - 0x80) + 0x80 * ((b4 - 0x80) + 0x80 * ((b5 - 0x80) + 0x80 * ((b6 - 0x80) + 0x80 * (b7)))))))) by (bit_vector)
                    requires
                        w == ((b0 & 0x7f) as u128) | (((b1 & 0x7f) as u128) << 7) | (((b2 & 0x7f) as u128) << 14) | (((b3 & 0x7f) as u128) << 21) | (((b4 & 0x7f) as u128) << 28) | (((b5 & 0x7f) as u128) << 35) | (((b6 & 0x7f) as u128) << 42) | ((b7 as u128) << 49),
                        b0 >= 0x80,
                        b1 >= 0x80,
                        b2 >= 0x80,
                        b3 >= 0x80,
                        b4 >= 0x80,
                        b5 >= 0x80,
                        b6 >= 0x80,
                        b7 < 0x80,
                ;
                lemma_trunc_u64(w);
            }
            return Ok(VarLong(#[verifier::truncate] ((w as u64) as i64)));
        }
        let b8 = buf.read_u8()?;
        if b8 < 0x80 {
            let w: u128 = ((b0 & 0x7f) as u128) | (((b1 & 0x7f) as u128) << 7) | (((b2 & 0x7f) as u128) << 14) | (((b3 & 0x7f) as u128) << 21) | (((b4 & 0x7f) as u128) << 28) | (((b5 & 0x7f) as u128) << 35) | (((b6 & 0x7f) as u128) << 42) | (((b7 & 0x7f) as u128) << 49) | ((b8 as u128) << 56);
            proof {
                assert(w == (b0 - 0x80) + 0x80 * ((b1 - 0x80) + 0x80 * ((b2 - 0x80) + 0x80 * ((b3 - 0x80) + 0x80 * ((b4 - 0x80) + 0x80 * ((b5 - 0x80) + 0x80 * ((b6 - 0x80) + 0x80 * ((b7 - 0x80) + 0x80 * (b8))))))))) by (bit_vector)
                    requires
                        w == ((b0 & 0x7f) as u128) | (((b1 & 0x7f) as u128) << 7) | (((b2 & 0x7f) as u128) << 14) | (((b3 & 0x7f) as u128) << 21) | (((b4 & 0x7f) as u128) << 28) | (((b5 & 0x7f) as u128) << 35) | (((b6 & 0x7f) as u128) << 42) | (((b7 & 0x7f) as u128) << 49) | ((b8 as u128) << 56),
                        b0 >= 0x80,
                        b1 >= 0x80,
                        b2 >= 0x80,
                        b3 >= 0x80,
                        b4 >= 0x80,
                        b5 >= 0x80,
                        b6 >= 0x80,
                        b7 >= 0x80,
                        b8 < 0x80,
                ;
                lemma_trunc_u64(w);
            }
            return Ok(VarLong(#[verifier::truncate] ((w as u64) as i64)));
        }
        let b9 = buf.read_u8()?;
        if b9 < 0x80 {
            let w: u128 = ((b0 & 0x7f) as u128) | (((b1 & 0x7f) as u128) << 7) | (((b2 & 0x7f) as u128) << 14) | (((b3 & 0x7f) as u128) << 21) | (((b4 & 0x7f) as u128) << 28) | (((b5 & 0x7f) as u128) << 35) | (((b6 & 0x7f) as u128) << 42) | (((b7 & 0x7f) as u128) << 49) | (((b8 & 0x7f) as u128) << 56) | ((b9 as u128) << 63);
            proof {
                assert(w == (b0 - 0x80) + 0x80 * ((b1 - 0x80) + 0x80 * ((b2 - 0x80) + 0x80 * ((b3 - 0x80) + 0x80 * ((b4 - 0x80) + 0x80 * ((b5 - 0x80) + 0x80 * ((b6 - 0x80) + 0x80 * ((b7 - 0x80) + 0x80 * ((b8 - 0x80) + 0x80 * (b9)))))))))) by (bit_vector)
                    requires
                        w == ((b0 & 0x7f) as u128) | (((b1 & 0x7f) as u128) << 7) | (((b2 & 0x7f) as u128) << 14) | (((b3 & 0x7f) as u128) << 21) | (((b4 & 0x7f) as u128) << 28) | (((b5 & 0x7f) as u128) << 35) | (((b6 & 0x7f) as u128) << 42) | (((b7 & 0x7f) as u128) << 49) | (((b8 & 0x7f) as u128) << 56) | ((b9 as u128) << 63),
                        b0 >= 0x80,
                        b1 >= 0x80,
                        b2 >= 0x80,
                        b3 >= 0x80,
                        b4 >= 0x80,
                        b5 >= 0x80,
                        b6 >= 0x80,
                        b7 >= 0x80,
                        b8 >= 0x80,
                        b9 < 0x80,
                ;
                lemma_trunc_u64(w);
                assert(((w as u64) as i64) as u64 == w as u64) by (bit_vector);
                assert((((w as u64) as i64) as u64 as nat) == (w as nat)
                    % 0x1_0000_0000_0000_0000);
                assert(varuint_decode(old(buf).data@, old(buf).pos as int, 10) is Some);
            }
            return Ok(VarLong(#[verifier::truncate] ((w as u64) as i64)));
        }
        Err(Error::MalformedFrame)
    }
}

impl Default for VarLong {
    fn default() -> (r: VarLong)
        ensures
            r.0 == 0,
    {
        VarLong(0)
    }
}


/// Relies on String::from_utf8: it succeeds exactly on valid UTF-8 input
/// and decodes those bytes to their characters.
#[verifier::external_body]
fn string_from_utf8(bytes: Vec<u8>) -> (r: Option<String>)
    ensures
        r matches Some(s) ==> valid_utf8(bytes@) && s@ == decode_utf8(bytes@),
        r is None ==> !valid_utf8(bytes@),
{
    String::from_utf8(bytes).ok()
}

/// The wire shape of a string: a varint byte count followed by the UTF-8
/// bytes.
pub open spec fn string_bytes(s: Seq<char>) -> Seq<u8> {
    varuint_bytes(encode_utf8(s).len() as u64) + encode_utf8(s)
}

/// What a wire string starting at `pos` decodes to. The byte count must
/// not exceed 65536 and the bytes must be valid UTF-8.
pub open spec fn string_decode(bytes: Seq<u8>, pos: int) -> Option<(Seq<char>, int)> {
    match varuint_decode(bytes, pos, 5) {
        None => None,
        Some((n, p)) => {
            let len = n % 0x1_0000_0000;
            if len > 65536 || p + len > bytes.len() {
                None
            } else if valid_utf8(bytes.subrange(p, p + len)) {
                Some((decode_utf8(bytes.subrange(p, p + len)), p + len))
            } else {
                None
            }
        },
    }
}

impl Reader {
    pub fn read_string(&mut self) -> (r: Result<String, Error>)
        ensures
            final(self).data@ == old(self).data@,
            match string_decode(old(self).data@, old(self).pos as int) {
                Some((s, p)) => r matches Ok(st) && st@ == s && final(self).pos == p,
                None => r matches Err(e) && e == Error::MalformedFrame,
            },
    {
        let vi = VarInt::read_from(self)?;
        let l = vi.0;
        if l < 0 || l > 65536 {
            proof {
                assert(l < 0 ==> (l as u32) >= 0x80000000) by (bit_vector);
            }
            return Err(Error::MalformedFrame);
        }
        let bytes = self.read_bytes(l as usize)?;
        match string_from_utf8(bytes) {
            Some(s) => Ok(s),
            None => Err(Error::MalformedFrame),
        }
    }
}

pub fn write_string(out: &mut Vec<u8>, s: &String) -> (r: Result<(), Error>)
    ensures
        (r is Ok) <==> encode_utf8(s@).len() <= 65536,
        r is Ok ==> final(out)@ == old(out)@ + string_bytes(s@),
        r matches Err(e) ==> e == Error::MalformedFrame && final(out)@ == old(out)@,
{
    let bytes = s.as_str().as_bytes_vec();
    if bytes.len() > 65536 {
        return Err(Error::MalformedFrame);
    }
    write_varuint64(out, bytes.len() as u64);
    write_bytes(out, &bytes);
    proof {
        assert(final(out)@ =~= old(out)@ + string_bytes(s@));
    }
    Ok(())
}

/// Law: a decoder that starts on the wire shape of a string reads back
/// exactly its characters.
pub proof fn lemma_string_roundtrip(bytes: Seq<u8>, pos: int, s: Seq<char>)
    requires
        0 <= pos,
        encode_utf8(s).len() <= 65536,
        pos + string_bytes(s).len() <= bytes.len(),
        bytes.subrange(pos, pos + string_bytes(s).len() as int) == string_bytes(s),
    ensures
        string_decode(bytes, pos) == Some((s, pos + string_bytes(s).len())),
{
    broadcast use vstd::utf8::encode_utf8_decode_utf8;
    broadcast use vstd::utf8::encode_utf8_valid_utf8;

    let eb = encode_utf8(s);
    let lv = varuint_bytes(eb.len() as u64);
    assert(bytes.subrange(pos, pos + lv.len() as int) =~= lv) by {
        assert forall|i: int| 0 <= i < lv.len() implies bytes[pos + i] == lv[i] by {
            assert(string_bytes(s)[i] == lv[i]);
            assert(bytes.subrange(pos, pos + string_bytes(s).len() as int)[i] == bytes[pos + i]);
        }
    }
    lemma_varuint_bytes_len(eb.len() as u64);
    lemma_varuint_decode_encode(bytes, pos, eb.len() as u64, 5);
    let p = pos + lv.len();
    assert(bytes.subrange(p, p + eb.len()) =~= eb) by {
        assert forall|i: int| 0 <= i < eb.len() implies bytes[p + i] == eb[i] by {
            assert(string_bytes(s)[lv.len() + i] == eb[i]);
            assert(bytes.subrange(pos, pos + string_bytes(s).len() as int)[lv.len() + i]
                == bytes[p + i]);
        }
    }
}

/// Types that can carry the element count of a length-prefixed collection.
pub trait Lengthable: Sized + Copy {
    fn into(self) -> usize;

    fn from(n: usize) -> Self;
}

impl Lengthable for i16 {
    fn into(self) -> usize {
        #[verifier::truncate] (self as usize)
    }

    fn from(n: usize) -> i16 {
        #[verifier::truncate] (n as i16)
    }
}

impl Lengthable for i32 {
    fn into(self) -> usize {
        #[verifier::truncate] (self as usize)
    }

    fn from(n: usize) -> i32 {
        #[verifier::truncate] (n as i32)
    }
}

impl Lengthable for VarInt {
    fn into(self) -> usize {
        #[verifier::truncate] (self.0 as usize)
    }

    fn from(n: usize) -> VarInt {
        VarInt(#[verifier::truncate] (n as i32))
    }
}

impl Lengthable for VarLong {
    fn into(self) -> usize {
        #[verifier::truncate] (self.0 as usize)
    }

    fn from(n: usize) -> VarLong {
        VarLong(#[verifier::truncate] (n as i64))
    }
}

/// A collection whose wire shape is a length of type `L` followed by its
/// elements.
#[derive(Debug)]
pub struct LenPrefixed<L: Lengthable, V> {
    pub len: L,
    pub data: Vec<V>,
}

impl<L: Lengthable, V> LenPrefixed<L, V> {
    pub fn new(data: Vec<V>) -> (r: LenPrefixed<L, V>)
        ensures
            r.data@ == data@,
    {
        LenPrefixed { len: <L as Lengthable>::from(0), data }
    }
}

/// A byte array whose wire shape is a length of type `L` followed by the
/// raw bytes.
#[derive(Debug)]
pub struct LenPrefixedBytes<L: Lengthable> {
    pub len: L,
    pub data: Vec<u8>,
}

impl<L: Lengthable> LenPrefixedBytes<L> {
    pub fn new(data: Vec<u8>) -> (r: LenPrefixedBytes<L>)
        ensures
            r.data@ == data@,
    {
        LenPrefixedBytes { len: <L as Lengthable>::from(0), data }
    }
}


/// The wire shape of a byte array with a varint count prefix.
pub open spec fn lpb_bytes(d: Seq<u8>) -> Option<Seq<u8>> {
    if d.len() < 0x80000000 {
        Some(varuint_bytes(d.len() as u64) + d)
    } else {
        None
    }
}

/// What a count-prefixed byte array starting at `pos` decodes to.
pub open spec fn lpb_decode(bytes: Seq<u8>, pos: int) -> Option<(Seq<u8>, int)> {
    match varuint_decode(bytes, pos, 5) {
        None => None,
        Some((n, p)) => {
            let l = n % 0x1_0000_0000;
            if l >= 0x80000000 || p + l > bytes.len() {
                None
            } else {
                Some((bytes.subrange(p, p + l), p + l))
            }
        },
    }
}

impl Reader {
    /// Read a varint count and that many raw bytes.
    pub fn read_len_prefixed_bytes(&mut self) -> (r: Result<LenPrefixedBytes<VarInt>, Error>)
        ensures
            final(self).data@ == old(self).data@,
            match lpb_decode(old(self).data@, old(self).pos as int) {
                Some((d, p)) => r matches Ok(v) && v.data@ == d && final(self).pos == p
                    && final(self).pos <= final(self).data@.len(),
                None => r matches Err(e) && e == Error::MalformedFrame,
            },
    {
        let vi = VarInt::read_from(self)?;
        let l = vi.0;
        if l < 0 {
            proof {
                assert(l < 0 ==> (l as u32) >= 0x80000000) by (bit_vector);
            }
            return Err(Error::MalformedFrame);
        }
        let data = self.read_bytes(l as usize)?;
        Ok(LenPrefixedBytes { len: vi, data })
    }
}

/// Write a byte array with its varint count prefix; fails only when the
/// count would not fit its signed 32-bit wire form.
pub fn write_len_prefixed_bytes(out: &mut Vec<u8>, v: &LenPrefixedBytes<VarInt>) -> (r: Result<
    (),
    Error,
>)
    ensures
        match lpb_bytes(v.data@) {
            Some(b) => r is Ok && final(out)@ == old(out)@ + b,
            None => r matches Err(e) && e == Error::MalformedFrame && final(out)@ == old(out)@,
        },
{
    if v.data.len() >= 0x80000000 {
        return Err(Error::MalformedFrame);
    }
    write_varuint64(out, v.data.len() as u64);
    write_bytes(out, &v.data);
    Ok(())
}

/// Law: a decoder that starts on the wire shape of a count-prefixed
/// byte array reads back exactly its bytes.
pub proof fn lemma_lpb_roundtrip(bytes: Seq<u8>, pos: int, d: Seq<u8>)
    requires
        0 <= pos,
        d.len() < 0x80000000,
        pos + lpb_bytes(d)->Some_0.len() <= bytes.len(),
        bytes.subrange(pos, pos + lpb_bytes(d)->Some_0.len() as int) == lpb_bytes(d)->Some_0,
    ensures
        lpb_decode(bytes, pos) == Some((d, pos + lpb_bytes(d)->Some_0.len())),
{
    let lv = varuint_bytes(d.len() as u64);
    let whole = lpb_bytes(d)->Some_0;
    assert(bytes.subrange(pos, pos + lv.len() as int) =~= lv) by {
        assert forall|i: int| 0 <= i < lv.len() implies bytes[pos + i] == lv[i] by {
            assert(whole[i] == lv[i]);
            assert(bytes.subrange(pos, pos + whole.len() as int)[i] == bytes[pos + i]);
        }
    }
    lemma_varuint_bytes_len(d.len() as u64);
    lemma_varuint_decode_encode(bytes, pos, d.len() as u64, 5);
    let p = pos + lv.len();
    assert(bytes.subrange(p, p + d.len()) =~= d) by {
        assert forall|i: int| 0 <= i < d.len() implies bytes[p + i] == d[i] by {
            assert(whole[lv.len() + i] == d[i]);
            assert(bytes.subrange(pos, pos + whole.len() as int)[lv.len() + i] == bytes[p + i]);
        }
    }
}


/// Casting to `u32` and back leaves a 32-bit integer unchanged.
pub proof fn lemma_i32_u32_id(x: i32)
    ensures
        ((x as u32) as i32) == x,
{
    assert(((x as u32) as i32) == x) by (bit_vector);
}

/// Casting to `u64` and back leaves a 64-bit integer unchanged.
pub proof fn lemma_i64_u64_id(x: i64)
    ensures
        ((x as u64) as i64) == x,
{
    assert(((x as u64) as i64) == x) by (bit_vector);
}

/// The low half of a 32-bit integer reads the same through either cast.
pub proof fn lemma_i32_u16(x: i32)
    ensures
        (x as u16) == ((x as u32) as u16),
{
    assert((x as u16) == ((x as u32) as u16)) by (bit_vector);
}

/// Reading back the big-endian bytes of a 16-bit value gives the value.
pub proof fn lemma_u16_at_be(bytes: Seq<u8>, pos: int, v: u16)
    requires
        0 <= pos,
        pos + 2 <= bytes.len(),
        bytes.subrange(pos, pos + 2) == spec_u16_be(v),
    ensures
        spec_u16_at(bytes, pos) == v,
{
    assert(bytes[pos] == spec_u16_be(v)[0]);
    assert(bytes[pos + 1] == spec_u16_be(v)[1]);
    assert(((((v >> 8) as u8) as u16) << 8) | (((v as u8)) as u16) == v) by (bit_vector);
}

/// Reading back the big-endian bytes of a 64-bit value gives the value.
pub proof fn lemma_u64_at_be(bytes: Seq<u8>, pos: int, v: u64)
    requires
        0 <= pos,
        pos + 8 <= bytes.len(),
        bytes.subrange(pos, pos + 8) == spec_u64_be(v),
    ensures
        spec_u64_at(bytes, pos) == v,
{
    assert(bytes[pos] == spec_u64_be(v)[0]);
    assert(bytes[pos + 1] == spec_u64_be(v)[1]);
    assert(bytes[pos + 2] == spec_u64_be(v)[2]);
    assert(bytes[pos + 3] == spec_u64_be(v)[3]);
    assert(bytes[pos + 4] == spec_u64_be(v)[4]);
    assert(bytes[pos + 5] == spec_u64_be(v)[5]);
    assert(bytes[pos + 6] == spec_u64_be(v)[6]);
    assert(bytes[pos + 7] == spec_u64_be(v)[7]);
    assert((((v >> 56) as u8 as u64) << 56) | (((v >> 48) as u8 as u64) << 48) | (((v
        >> 40) as u8 as u64) << 40) | (((v >> 32) as u8 as u64) << 32) | (((v
        >> 24) as u8 as u64) << 24) | (((v >> 16) as u8 as u64) << 16) | (((v
        >> 8) as u8 as u64) << 8) | ((v as u8) as u64) == v) by (bit_vector);
}

} // verus!
