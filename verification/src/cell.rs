//! Cell scalars as IEEE-754 double bit patterns.
//!
//! A cell's value is a double in [0.0, 1.0].  The engine stores the raw bit
//! pattern (a `u64`) and never does floating-point arithmetic on it: for
//! non-negative doubles the bit-pattern order agrees with the numeric order,
//! so clamping into [0.0, 1.0] and bounds checks are exact integer operations
//! on the pattern.

use vstd::prelude::*;

verus! {

use vstd::arithmetic::mul::{lemma_mul_inequality, lemma_mul_upper_bound};
use vstd::arithmetic::power2::{
    lemma2_to64,
    lemma2_to64_rest,
    lemma_pow2_pos,
    lemma_pow2_strictly_increases,
    lemma_pow2_unfold,
    pow2,
};

/// Bit pattern of the double 1.0; every in-range cell pattern is <= this.
pub const UNIT_ONE_BITS: u64 = 0x3FF0_0000_0000_0000;

/// Sign bit of a double; a pattern at or above it encodes a negative value.
pub const SIGN_BIT: u64 = 0x8000_0000_0000_0000;

/// Low 52 bits: the fraction field of a double.
pub const FRAC_MASK: u64 = 0x000F_FFFF_FFFF_FFFF;

/// Clamp of a cell pattern into [0.0, 1.0], on representations: negative
/// values go to 0.0, values above 1.0 go to 1.0, in-range patterns are kept.
pub open spec fn clamped_word(w: u64) -> u64 {
    if w >= SIGN_BIT {
        0u64
    } else if w > UNIT_ONE_BITS {
        UNIT_ONE_BITS
    } else {
        w
    }
}

/// Executable clamp of a cell pattern into [0.0, 1.0].
pub fn clamp_word(w: u64) -> (r: u64)
    ensures
        r == clamped_word(w),
        r <= UNIT_ONE_BITS,
{
    if w >= SIGN_BIT {
        0
    } else if w > UNIT_ONE_BITS {
        UNIT_ONE_BITS
    } else {
        w
    }
}

/// The colour-table index an in-range cell pattern selects: the integer
/// nearest to `255 * value` (halves rounding up).
///
/// An in-range pattern `c` encodes the value `m * 2^-s`, where `m` is the
/// fraction field with the implicit leading bit restored and `s` follows
/// from the exponent field (subnormals use the fixed scale `2^-1074`).  The
/// nearest integer to `255 * m * 2^-s` is `floor((510 * m + 2^s) / 2^(s+1))`,
/// which is exact integer arithmetic on the fields.
pub open spec fn word_color_index(c: u64) -> int
    recommends
        c <= UNIT_ONE_BITS,
{
    let e = (c >> 52u64) as int;
    let m = if e == 0 {
        (c & FRAC_MASK) as int
    } else {
        (c & FRAC_MASK) + pow2(52)
    };
    let s: nat = if e == 0 {
        1074nat
    } else {
        (1075 - e) as nat
    };
    (510 * m + pow2(s)) / (pow2(s + 1) as int)
}

/// The colour-table index of an arbitrary proposed pattern: clamp into
/// [0, 1] first, as the display rule does.
pub open spec fn color_index_spec(w: u64) -> int {
    word_color_index(clamped_word(w))
}

/// Map a cell pattern to its colour-table index, `round(clamp(value, 0, 1) * 255)`.
pub fn color_index(w: u64) -> (i: usize)
    ensures
        i == color_index_spec(w),
        i <= 255,
{
    let c = clamp_word(w);
    proof {
        assert(c >> 52u64 <= 1023) by (bit_vector)
            requires
                c <= 0x3FF0_0000_0000_0000u64,
        ;
        assert(c >> 52u64 == 1023 ==> c & 0x000F_FFFF_FFFF_FFFFu64 == 0) by (bit_vector)
            requires
                c <= 0x3FF0_0000_0000_0000u64,
        ;
        assert(c & 0x000F_FFFF_FFFF_FFFFu64 < 0x0010_0000_0000_0000u64) by (bit_vector);
        lemma2_to64();
        lemma2_to64_rest();
    }
    let e: u64 = c >> 52u64;
    let frac: u64 = c & FRAC_MASK;
    let m: u64 = if e == 0 {
        frac
    } else {
        frac + 0x0010_0000_0000_0000
    };
    let s: u64 = if e == 0 {
        1074
    } else {
        1075 - e
    };
    let ghost mi: int = if e == 0 {
        (c & FRAC_MASK) as int
    } else {
        (c & FRAC_MASK) + pow2(52)
    };
    let ghost sn: nat = if e == 0 {
        1074nat
    } else {
        (1075 - e) as nat
    };
    proof {
        assert(m == mi);
        assert(m < 0x0020_0000_0000_0000);
        lemma_m_le_pow2_s(c, mi, sn);
    }
    if s >= 64 {
        proof {
            lemma_pow2_strictly_increases(62, sn);
            lemma_mul_upper_bound(510, 510, mi, 0x001F_FFFF_FFFF_FFFF);
            lemma_pow2_unfold(sn + 1);
            vstd::arithmetic::div_mod::lemma_basic_div(
                510 * mi + pow2(sn),
                pow2(sn + 1) as int,
            );
        }
        0
    } else {
        proof {
            lemma_mul_upper_bound(510, 510, mi, 0x001F_FFFF_FFFF_FFFF);
            vstd::bits::lemma_u64_pow2_no_overflow(s as nat);
            vstd::bits::lemma_u64_shl_is_mul(1u64, s);
        }
        let half: u64 = 1u64 << s;
        let num: u128 = 510u128 * (m as u128) + (half as u128);
        let q: u128 = num >> (s + 1);
        proof {
            vstd::bits::lemma_u128_shr_is_div(num, (s + 1) as u128);
            // q == (510 m + 2^s) / 2^(s+1), the spec index
            assert(num == 510 * mi + pow2(sn));
            // the index is at most 255: num <= 511 * 2^s < 256 * 2^(s+1)
            lemma_mul_inequality(mi, pow2(sn) as int, 510);
            vstd::arithmetic::mul::lemma_mul_is_commutative(510, mi);
            vstd::arithmetic::mul::lemma_mul_is_commutative(510, pow2(sn) as int);
            lemma_pow2_unfold(sn + 1);
            assert(num < 256 * (pow2(sn + 1) as int)) by {
                assert(510 * mi <= 510 * (pow2(sn) as int));
                assert(num <= 511 * (pow2(sn) as int));
                assert(256 * (pow2(sn + 1) as int) == 512 * (pow2(sn) as int))
                    by (nonlinear_arith)
                    requires
                        pow2(sn + 1) == 2 * pow2(sn),
                ;
                lemma_pow2_pos(sn);
                assert(511 * (pow2(sn) as int) < 512 * (pow2(sn) as int))
                    by (nonlinear_arith)
                    requires
                        pow2(sn) >= 1,
                ;
            }
            vstd::arithmetic::div_mod::lemma_multiply_divide_lt(
                num as int,
                pow2(sn + 1) as int,
                256,
            );
        }
        q as usize
    }
}

/// The restored mantissa of an in-range pattern never exceeds its scale:
/// the encoded value is at most 1.
proof fn lemma_m_le_pow2_s(c: u64, mi: int, sn: nat)
    requires
        c <= UNIT_ONE_BITS,
        mi == (if c >> 52u64 == 0 {
            (c & FRAC_MASK) as int
        } else {
            (c & FRAC_MASK) + pow2(52)
        }),
        sn == (if c >> 52u64 == 0 {
            1074nat
        } else {
            (1075 - (c >> 52u64)) as nat
        }),
        c >> 52u64 <= 1023,
        c >> 52u64 == 1023 ==> c & FRAC_MASK == 0,
        c & FRAC_MASK < 0x0010_0000_0000_0000,
    ensures
        mi <= pow2(sn),
        sn >= 52,
{
    lemma2_to64();
    lemma2_to64_rest();
    let e = c >> 52u64;
    if e == 0 {
        lemma_pow2_strictly_increases(52, 1074);
    } else if e == 1023 {
        assert(mi == pow2(52));
    } else {
        assert(sn >= 53);
        if sn > 53 {
            lemma_pow2_strictly_increases(53, sn);
        }
        assert(mi < pow2(53));
    }
}

/// Position of the most significant set bit (0 for 0 and 1).
pub open spec fn msb_pos(k: u64) -> nat
    decreases k,
{
    if k <= 1 {
        0
    } else {
        1 + msb_pos(k / 2)
    }
}

proof fn lemma_msb_pos_le(k: u64, n: nat)
    requires
        k < pow2(n + 1),
    ensures
        msb_pos(k) <= n,
    decreases k,
{
    if k > 1 {
        lemma_pow2_unfold(n + 1);
        if n == 0 {
            lemma2_to64();
        } else {
            lemma_msb_pos_le(k / 2, (n - 1) as nat);
        }
    }
}

/// Bit pattern of the double `k * 2^-53`, for a 53-bit sample `k`.
///
/// This is the value the seeded generator's uniform draw from [0, 1) denotes:
/// `k` has at most 53 significant bits, so the product is exact.  For `k == 0`
/// the pattern is 0.0; otherwise the leading bit of `k` becomes the implicit
/// mantissa bit and the exponent field is `msb_pos(k) + 970`.
pub open spec fn sample_word_spec(k: u64) -> u64
    recommends
        k < 0x20_0000_0000_0000,
{
    if k == 0 {
        0u64
    } else {
        let p = msb_pos(k);
        ((((p + 970) as u64) << 52u64) | ((k << ((52 - p) as u64)) & FRAC_MASK))
    }
}

/// Encode a 53-bit uniform sample as the pattern of the double `k * 2^-53`.
pub fn sample_word(k: u64) -> (r: u64)
    requires
        k < 0x20_0000_0000_0000,
    ensures
        r == sample_word_spec(k),
        r < UNIT_ONE_BITS,
{
    if k == 0 {
        return 0;
    }
    proof {
        assert(0x20_0000_0000_0000u64 == pow2(53)) by {
            lemma2_to64();
            lemma2_to64_rest();
        }
        lemma_msb_pos_le(k, 52);
    }
    let mut p: u64 = 0;
    let mut t: u64 = k;
    while t > 1
        invariant
            1 <= t <= k,
            msb_pos(k) == p + msb_pos(t),
            msb_pos(k) <= 52,
        decreases t,
    {
        proof {
            assert(msb_pos(t) >= 1);
        }
        t = t / 2;
        p = p + 1;
    }
    proof {
        assert(msb_pos(t) == 0);
        assert(p <= 52);
    }
    let e: u64 = p + 970;
    let r: u64 = (e << 52u64) | ((k << (52 - p)) & FRAC_MASK);
    proof {
        assert((((p + 970) as u64) << 52u64) | ((k << ((52 - p) as u64)) & FRAC_MASK)
            < UNIT_ONE_BITS) by (bit_vector)
            requires
                p <= 52,
        ;
    }
    r
}

} // verus!
