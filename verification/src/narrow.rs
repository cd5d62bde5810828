//! Narrowing a 64-bit IEEE-754 value to the 32-bit format, working on the
//! bit patterns alone: round to nearest, ties to even, with overflow going
//! to infinity and doubles below the smallest single subnormal going to zero.
//! A NaN narrows to the quiet NaN with an empty payload and the sign kept.
use vstd::prelude::*;

verus! {

/// `x >> s` rounded to nearest, ties to even.
pub open spec fn spec_round_shift(x: u64, s: u64) -> u64
    recommends
        1 <= s <= 53,
{
    let q = x >> s;
    let rem = x & (((1u64 << s) - 1) as u64);
    let half = 1u64 << ((s - 1) as u64);
    if rem > half || (rem == half && q & 1 == 1) {
        (q + 1) as u64
    } else {
        q
    }
}

fn round_shift(x: u64, s: u64) -> (r: u64)
    requires
        1 <= s <= 53,
    ensures
        r == spec_round_shift(x, s),
        r <= (x >> s) + 1,
{
    proof {
        assert(1 <= s <= 53 ==> (1u64 << s) >= 2 && (x >> s)
            < 0x8000_0000_0000_0000u64) by (bit_vector);
    }
    let q = x >> s;
    let rem = x & ((1u64 << s) - 1);
    let half = 1u64 << (s - 1);
    if rem > half || (rem == half && q & 1 == 1) {
        q + 1
    } else {
        q
    }
}

/// The 32-bit pattern that the 64-bit pattern `b` narrows to.
pub open spec fn spec_narrow_double_bits(b: u64) -> u32 {
    let sign: u32 = if b >= 0x8000_0000_0000_0000 {
        0x8000_0000u32
    } else {
        0u32
    };
    let e = (b >> 52) & 0x7FF;
    let m = b & 0x000F_FFFF_FFFF_FFFF;
    if e == 0x7FF {
        if m == 0 {
            (sign + 0x7F80_0000) as u32
        } else {
            (sign + 0x7FC0_0000) as u32
        }
    } else if e == 0 {
        sign
    } else {
        let sig = 0x0010_0000_0000_0000u64 | m;
        if e >= 1151 {
            (sign + 0x7F80_0000) as u32
        } else if e >= 897 {
            let r = spec_round_shift(sig, 29);
            (sign + ((e - 896) as u32) * 0x80_0000 + ((r - 0x80_0000) as u32)) as u32
        } else {
            let s = (926 - e) as u64;
            if s >= 54 {
                sign
            } else {
                (sign + (spec_round_shift(sig, s) as u32)) as u32
            }
        }
    }
}

/// Narrows the 64-bit IEEE-754 pattern `b` to the 32-bit pattern of the
/// nearest single-precision value, ties to even.
pub fn narrow_double_bits(b: u64) -> (r: u32)
    ensures
        r == spec_narrow_double_bits(b),
{
    let sign: u32 = if b >= 0x8000_0000_0000_0000 {
        0x8000_0000
    } else {
        0
    };
    let e = (b >> 52) & 0x7FF;
    let m = b & 0x000F_FFFF_FFFF_FFFF;
    proof {
        assert((b >> 52) & 0x7FF <= 0x7FF) by (bit_vector);
        assert(b & 0x000F_FFFF_FFFF_FFFF <= 0x000F_FFFF_FFFF_FFFF) by (bit_vector);
    }
    if e == 0x7FF {
        if m == 0 {
            sign + 0x7F80_0000
        } else {
            sign + 0x7FC0_0000
        }
    } else if e == 0 {
        sign
    } else {
        let sig = 0x0010_0000_0000_0000u64 | m;
        proof {
            assert(m <= 0x000F_FFFF_FFFF_FFFF ==> 0x0010_0000_0000_0000u64 <= (
            0x0010_0000_0000_0000u64 | m) && (0x0010_0000_0000_0000u64 | m)
                < 0x0020_0000_0000_0000u64) by (bit_vector);
        }
        if e >= 1151 {
            sign + 0x7F80_0000
        } else if e >= 897 {
            proof {
                assert(0x0010_0000_0000_0000u64 <= sig && sig < 0x0020_0000_0000_0000u64
                    ==> 0x80_0000u64 <= (sig >> 29) && (sig >> 29)
                        < 0x100_0000u64) by (bit_vector);
            }
            let r = round_shift(sig, 29);
            let e32: u32 = (e - 896) as u32;
            sign + e32 * 0x80_0000 + ((r - 0x80_0000) as u32)
        } else {
            let s = 926 - e;
            if s >= 54 {
                sign
            } else {
                proof {
                    assert(sig < 0x0020_0000_0000_0000u64 && 30 <= s ==> (sig >> s)
                        < 0x80_0000u64) by (bit_vector);
                }
                let r = round_shift(sig, s);
                sign + (r as u32)
            }
        }
    }
}

} // verus!
