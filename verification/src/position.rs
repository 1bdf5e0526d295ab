//! Block positions, packed into one 64-bit big-endian word on the wire:
//! x in the high 26 bits, y in the middle 12, z in the low 26, each
//! two's-complement.

use vstd::prelude::*;
use crate::Error;
use crate::wire::{Reader, spec_u64_be, write_u64_be};

verus! {

#[derive(Clone, Copy, PartialEq, Eq, Structural, Debug, Hash)]
pub struct Position {
    pub x: i32,
    pub y: i32,
    pub z: i32,
}

/// The packed 64-bit word for a position; coordinates outside their field
/// widths are truncated to them.
pub open spec fn spec_position_word(p: Position) -> u64 {
    (((p.x as u64) & 0x3FFFFFF) << 38) | (((p.y as u64) & 0xFFF) << 26) | ((p.z as u64) & 0x3FFFFFF)
}

/// The position a packed word decodes to; each field is sign-extended
/// from its width.
pub open spec fn spec_position_of_word(w: u64) -> Position {
    Position {
        x: ((w as i64) >> 38) as i32,
        y: ((((w as i64) << 26) as i64) >> 52) as i32,
        z: ((((w as i64) << 38) as i64) >> 38) as i32,
    }
}

impl Position {
    pub fn new(x: i32, y: i32, z: i32) -> (r: Position)
        ensures
            r == (Position { x, y, z }),
    {
        Position { x, y, z }
    }

    /// Pack this position into its 64-bit wire word.
    pub fn to_word(&self) -> (w: u64)
        ensures
            w == spec_position_word(*self),
    {
        (((self.x as u64) & 0x3FFFFFF) << 38) | (((self.y as u64) & 0xFFF) << 26) | ((
        self.z as u64) & 0x3FFFFFF)
    }

    /// Unpack a 64-bit wire word.
    pub fn from_word(w: u64) -> (r: Position)
        ensures
            r == spec_position_of_word(w),
    {
        Position {
            x: #[verifier::truncate] (((w as i64) >> 38) as i32),
            y: #[verifier::truncate] (((((w as i64) << 26) as i64) >> 52) as i32),
            z: #[verifier::truncate] (((((w as i64) << 38) as i64) >> 38) as i32),
        }
    }

    pub fn write_to(&self, out: &mut Vec<u8>)
        ensures
            final(out)@ == old(out)@ + spec_u64_be(spec_position_word(*self)),
    {
        let w = self.to_word();
        write_u64_be(out, w);
    }

    pub fn read_from(buf: &mut Reader) -> (r: Result<Position, Error>)
        ensures
            final(buf).data@ == old(buf).data@,
            (r is Ok) <==> old(buf).pos + 8 <= old(buf).data@.len(),
            r matches Ok(p) ==> final(buf).pos == old(buf).pos + 8 && exists|w: u64|
                spec_u64_be(w) == old(buf).data@.subrange(old(buf).pos as int, old(buf).pos + 8)
                    && p == spec_position_of_word(w),
            r matches Err(e) ==> e == Error::MalformedFrame,
    {
        let w = buf.read_u64_be()?;
        Ok(Position::from_word(w))
    }
}

/// Law: packing a position whose coordinates fit their fields
/// (x, z in [-2^25, 2^25 - 1], y in [-2^11, 2^11 - 1]) and unpacking the
/// word yields the position back.
pub proof fn lemma_position_roundtrip(p: Position)
    requires
        -0x2000000 <= p.x < 0x2000000,
        -0x800 <= p.y < 0x800,
        -0x2000000 <= p.z < 0x2000000,
    ensures
        spec_position_of_word(spec_position_word(p)) == p,
{
    let x = p.x;
    let y = p.y;
    let z = p.z;
    let w = spec_position_word(p);
    assert({
        let ww = (((x as u64) & 0x3FFFFFF) << 38) | (((y as u64) & 0xFFF) << 26) | ((z as u64)
            & 0x3FFFFFF);
        ((ww as i64) >> 38) as i32 == x && ((((ww as i64) << 26) as i64) >> 52) as i32 == y && ((((
        ww as i64) << 38) as i64) >> 38) as i32 == z
    }) by (bit_vector)
        requires
            -0x2000000 <= x < 0x2000000,
            -0x800 <= y < 0x800,
            -0x2000000 <= z < 0x2000000,
    ;
}

} // verus!
