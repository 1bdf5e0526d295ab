//! 128-bit identifiers: two big-endian 64-bit words on the wire, parsed
//! from the canonical 8-4-4-4-12 hexadecimal text form.

use vstd::prelude::*;
use vstd::string::StrSliceExecFns;
use vstd::arithmetic::power2::{pow2, lemma_pow2_adds};
use crate::Error;
use crate::wire::{Reader, spec_u64_be, write_u64_be};

verus! {

#[derive(Debug, PartialEq, Eq, Structural, Hash, Clone, Copy)]
pub struct UUID(pub u64, pub u64);

/// The value of one hexadecimal digit, if the character is one.
pub open spec fn hex_digit_val(c: char) -> Option<u8> {
    let u = c as u32;
    if 48 <= u <= 57 {
        Some((u - 48) as u8)
    } else if 97 <= u <= 102 {
        Some((u - 87) as u8)
    } else if 65 <= u <= 70 {
        Some((u - 55) as u8)
    } else {
        None
    }
}

/// Where the `j`-th hexadecimal digit of the canonical text form sits,
/// skipping the four dashes.
pub open spec fn hex_pos(j: int) -> int {
    if j < 8 {
        j
    } else if j < 12 {
        j + 1
    } else if j < 16 {
        j + 2
    } else if j < 20 {
        j + 3
    } else {
        j + 4
    }
}

/// The digit value at nibble index `j`, taken as zero where the character
/// is no digit (well-formed input never hits that default).
pub open spec fn nibble(s: Seq<char>, j: int) -> nat {
    match hex_digit_val(s[hex_pos(j)]) {
        Some(d) => d as nat,
        None => 0,
    }
}

/// The value of `n` nibbles starting at nibble index `i`, most
/// significant first.
pub open spec fn spec_hex_fold(s: Seq<char>, i: int, n: nat) -> nat
    decreases n,
{
    if n == 0 {
        0
    } else {
        16 * spec_hex_fold(s, i, (n - 1) as nat) + nibble(s, i + n - 1)
    }
}

proof fn lemma_pow2_le(a: nat, b: nat)
    requires
        a <= b,
    ensures
        pow2(a) <= pow2(b),
{
    if a < b {
        vstd::arithmetic::power2::lemma_pow2_strictly_increases(a, b);
    }
}

pub proof fn lemma_hex_fold_bound(s: Seq<char>, i: int, n: nat)
    ensures
        spec_hex_fold(s, i, n) < pow2(4 * n),
    decreases n,
{
    vstd::arithmetic::power2::lemma2_to64();
    if n > 0 {
        lemma_hex_fold_bound(s, i, (n - 1) as nat);
        lemma_pow2_adds(4 * (n - 1) as nat, 4);
        assert(nibble(s, i + n - 1) < 16);
    }
}

/// The canonical text form: 36 characters, dashes after the 8th, 12th,
/// 16th and 20th digit, hexadecimal digits everywhere else.
pub open spec fn is_uuid_chars(s: Seq<char>) -> bool {
    &&& s.len() == 36
    &&& s[8] == '-'
    &&& s[13] == '-'
    &&& s[18] == '-'
    &&& s[23] == '-'
    &&& forall|j: int| 0 <= j < 32 ==> #[trigger] hex_digit_val(s[hex_pos(j)]) is Some
}

/// The value of one hexadecimal digit character.
fn hex_digit(c: char) -> (r: Result<u8, Error>)
    ensures
        (r is Ok) <==> hex_digit_val(c) is Some,
        r matches Ok(d) ==> hex_digit_val(c) == Some(d),
        r matches Err(e) ==> e == Error::BadPacket,
{
    let u = c as u32;
    if 48 <= u && u <= 57 {
        Ok((u - 48) as u8)
    } else if 97 <= u && u <= 102 {
        Ok((u - 87) as u8)
    } else if 65 <= u && u <= 70 {
        Ok((u - 55) as u8)
    } else {
        Err(Error::BadPacket)
    }
}

/// Map a nibble index to its character position (see [`hex_pos`]).
fn hex_pos_exec(j: usize) -> (p: usize)
    requires
        j < 32,
    ensures
        p == hex_pos(j as int),
{
    if j < 8 {
        j
    } else if j < 12 {
        j + 1
    } else if j < 16 {
        j + 2
    } else if j < 20 {
        j + 3
    } else {
        j + 4
    }
}

impl UUID {
    /// Parse the canonical 8-4-4-4-12 text form: exactly on well-formed
    /// input this succeeds, and the two words hold the first and second
    /// sixteen digits.
    pub fn from_str(s: &str) -> (r: Result<UUID, Error>)
        ensures
            (r is Ok) <==> is_uuid_chars(s@),
            r matches Ok(u) ==> u.0 as nat == spec_hex_fold(s@, 0, 16) && u.1 as nat
                == spec_hex_fold(s@, 16, 16),
            r matches Err(e) ==> e == Error::BadPacket,
    {
        if s.unicode_len() != 36 {
            return Err(Error::BadPacket);
        }
        if s.get_char(8) as u32 != 45 || s.get_char(13) as u32 != 45 || s.get_char(18) as u32 != 45
            || s.get_char(23) as u32 != 45 {
            proof {
                assert('-' as u32 == 45);
            }
            return Err(Error::BadPacket);
        }
        proof {
            assert('-' as u32 == 45);
            assert(s@[8] == '-' && s@[13] == '-' && s@[18] == '-' && s@[23] == '-');
        }
        let mut high: u64 = 0;
        let mut j: usize = 0;
        while j < 16
            invariant
                j <= 16,
                s@.len() == 36,
                high as nat == spec_hex_fold(s@, 0, j as nat),
                forall|k: int| 0 <= k < j ==> #[trigger] hex_digit_val(s@[hex_pos(k)]) is Some,
            decreases 16 - j,
        {
            let c = s.get_char(hex_pos_exec(j));
            let d = hex_digit(c)?;
            proof {
                lemma_hex_fold_bound(s@, 0, j as nat);
                lemma_pow2_adds(4 * j as nat, 4);
                vstd::arithmetic::power2::lemma_pow2_pos(4 * j as nat);
                vstd::arithmetic::power2::lemma2_to64();
                lemma_pow2_le(4 * j as nat, 60);
                lemma_pow2_adds(60, 4);
                vstd::arithmetic::power2::lemma2_to64_rest();
            }
            high = 16 * high + (d as u64);
            j = j + 1;
        }
        let mut low: u64 = 0;
        j = 16;
        while j < 32
            invariant
                16 <= j <= 32,
                s@.len() == 36,
                low as nat == spec_hex_fold(s@, 16, (j - 16) as nat),
                forall|k: int| 16 <= k < j ==> #[trigger] hex_digit_val(s@[hex_pos(k)]) is Some,
            decreases 32 - j,
        {
            let c = s.get_char(hex_pos_exec(j));
            let d = hex_digit(c)?;
            proof {
                lemma_hex_fold_bound(s@, 16, (j - 16) as nat);
                lemma_pow2_adds(4 * (j - 16) as nat, 4);
                vstd::arithmetic::power2::lemma2_to64();
                lemma_pow2_le(4 * (j - 16) as nat, 60);
                lemma_pow2_adds(60, 4);
                vstd::arithmetic::power2::lemma2_to64_rest();
            }
            low = 16 * low + (d as u64);
            j = j + 1;
        }
        Ok(UUID(high, low))
    }

    pub fn write_to(&self, out: &mut Vec<u8>)
        ensures
            final(out)@ == old(out)@ + spec_u64_be(self.0) + spec_u64_be(self.1),
    {
        write_u64_be(out, self.0);
        write_u64_be(out, self.1);
    }

    pub fn read_from(buf: &mut Reader) -> (r: Result<UUID, Error>)
        ensures
            final(buf).data@ == old(buf).data@,
            (r is Ok) <==> old(buf).pos + 16 <= old(buf).data@.len(),
            r matches Ok(u) ==> final(buf).pos == old(buf).pos + 16 && spec_u64_be(u.0)
                + spec_u64_be(u.1) == old(buf).data@.subrange(
                old(buf).pos as int,
                old(buf).pos + 16,
            ),
            r matches Err(e) ==> e == Error::MalformedFrame,
    {
        let hi = buf.read_u64_be()?;
        let lo = buf.read_u64_be()?;
        proof {
            assert(spec_u64_be(hi) + spec_u64_be(lo) =~= old(buf).data@.subrange(
                old(buf).pos as int,
                old(buf).pos + 16,
            ));
        }
        Ok(UUID(hi, lo))
    }
}

impl Default for UUID {
    fn default() -> (r: UUID)
        ensures
            r == UUID(0u64, 0u64),
    {
        UUID(0, 0)
    }
}

} // verus!
