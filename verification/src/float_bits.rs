//! Turning the bits of a 32-bit float into an integer without floating-point arithmetic.
use vstd::prelude::*;
use vstd::arithmetic::power2::{pow2, lemma_pow2_pos, lemma_pow2_strictly_increases, lemma2_to64};
use crate::utils::clamped;

verus! {

/// What `(f * 16.) as i16` gives for the 32-bit float `f` with bits `bits`: the value
/// times 16 (exact, as 16 is a power of two), truncated toward zero and brought into the
/// `i16` range, with NaN giving 0. The float's value is `mant * 2^(eff - 150)`, where `eff`
/// is its exponent field (1 for subnormals) and `mant` its significand with the implicit
/// leading bit of normal numbers.
pub open spec fn f32_times_16_as_i16(bits: u32) -> i16 {
    let neg = bits >= 0x8000_0000;
    let e = (bits / 0x80_0000) % 0x100;
    let m = bits % 0x80_0000;
    if e == 255 {
        if m != 0 {
            0i16
        } else if neg {
            -32768i16
        } else {
            32767i16
        }
    } else {
        let mant: int = if e == 0 {
            m as int
        } else {
            m + 0x80_0000
        };
        let eff: int = if e == 0 {
            1
        } else {
            e as int
        };
        let mag: int = if eff >= 146 {
            mant * pow2((eff - 146) as nat)
        } else {
            mant / (pow2((146 - eff) as nat) as int)
        };
        clamped(
            if neg {
                -mag
            } else {
                mag
            },
            -32768,
            32767,
        ) as i16
    }
}

/// `(f * 16.) as i16` for the 32-bit float `f` with bits `bits`.
pub fn f32_bits_times_16_as_i16(bits: u32) -> (r: i16)
    ensures
        r == f32_times_16_as_i16(bits),
{
    let neg = bits >= 0x8000_0000;
    let e = (bits / 0x80_0000) % 0x100;
    let m = bits % 0x80_0000;
    if e == 255 {
        if m != 0 {
            return 0;
        } else if neg {
            return -32768;
        } else {
            return 32767;
        }
    }
    let mant: u64 = if e == 0 {
        m as u64
    } else {
        m as u64 + 0x80_0000
    };
    let eff: u32 = if e == 0 {
        1
    } else {
        e
    };
    // The magnitude, or a stand-in at least 32768 where it is that large.
    let mag: u64 = if eff >= 146 {
        proof {
            lemma_pow2_pos((eff - 146) as nat);
            assert(mant * pow2((eff - 146) as nat) >= mant) by (nonlinear_arith)
                requires
                    pow2((eff - 146) as nat) >= 1,
            ;
        }
        0x8000
    } else {
        let sh: u64 = (146 - eff) as u64;
        if sh >= 24 {
            proof {
                lemma2_to64();
                if sh > 24 {
                    lemma_pow2_strictly_increases(24, sh as nat);
                }
                assert(mant < pow2(24));
                assert((mant as int) / (pow2(sh as nat) as int) == 0) by (nonlinear_arith)
                    requires
                        0 <= mant < pow2(sh as nat),
                ;
            }
            0
        } else {
            proof {
                vstd::bits::lemma_u64_shr_is_div(mant, sh);
            }
            mant >> sh
        }
    };
    proof {
        lemma2_to64();
    }
    if mag >= 0x8000 {
        if neg {
            -32768
        } else {
            32767
        }
    } else if neg {
        -(mag as i16)
    } else {
        mag as i16
    }
}

} // verus!
