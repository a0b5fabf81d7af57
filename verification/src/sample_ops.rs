//! Samples as IEEE 754 single-precision bit patterns, with the arithmetic
//! the pipeline needs carried out in verified integer code.
//!
//! A sample is the `u32` bit pattern of a single-precision value: bit 31 the
//! sign, bits 30..23 the biased exponent, bits 22..0 the fraction. A finite
//! nonzero value is `sig * 2^exp` with `sig` the (sub)normal significand and
//! `exp` its scale; the operations below decode to that form, compute exactly
//! in 64-bit integers, and re-encode with round-to-nearest-even. The one
//! deliberate deviation from hardware arithmetic: every NaN result is the
//! canonical quiet NaN, so each operation is a function of the operand bits.

use vstd::arithmetic::div_mod::{
    lemma_div_is_ordered, lemma_div_is_ordered_by_denominator, lemma_div_multiples_vanish,
    lemma_div_pos_is_pos, lemma_fundamental_div_mod,
};
use vstd::arithmetic::mul::{lemma_mul_inequality, lemma_mul_is_commutative};
use vstd::arithmetic::power2::{
    lemma_pow2_adds, lemma_pow2_pos, lemma_pow2_strictly_increases, lemma2_to64, lemma2_to64_rest,
    pow2,
};
use vstd::bits::{lemma_u64_pow2_no_overflow, lemma_u64_shl_is_mul};
use vstd::prelude::*;

verus! {

/// Bit pattern of positive zero.
pub const POS_ZERO: u32 = 0x0000_0000;

/// Bit pattern of negative zero.
pub const NEG_ZERO: u32 = 0x8000_0000;

/// Bit pattern of `1.0`.
pub const ONE_BITS: u32 = 0x3F80_0000;

/// Bit pattern of `2.0`.
pub const TWO_BITS: u32 = 0x4000_0000;

/// Bit pattern of positive infinity.
pub const INF_BITS: u32 = 0x7F80_0000;

/// The canonical quiet NaN: the one NaN pattern these operations produce.
pub const QNAN_BITS: u32 = 0x7FC0_0000;

/// Bit pattern of `32767.0`, the `i16` quantization scale.
pub const I16_SCALE_BITS: u32 = 0x46FF_FE00;

/// Bit pattern of `2147483647f32` as rounded on encoding, which is `2^31`:
/// the `i32` quantization scale.
pub const I32_SCALE_BITS: u32 = 0x4F00_0000;

/// The sign of the encoded value: true when negative.
pub open spec fn sign_of(b: u32) -> bool {
    b / 0x8000_0000 == 1
}

/// The biased exponent field.
pub open spec fn biased_exp(b: u32) -> u32 {
    (b / 0x0080_0000) % 0x100
}

/// The fraction field.
pub open spec fn frac_field(b: u32) -> u32 {
    b % 0x0080_0000
}

/// The magnitude bits: the pattern with the sign bit cleared. For patterns
/// other than NaN, integer order of magnitude bits is numeric order of the
/// encoded magnitudes.
pub open spec fn abs_bits(b: u32) -> u32 {
    b % 0x8000_0000
}

/// Whether `b` encodes a zero (either sign).
pub open spec fn is_zero_bits(b: u32) -> bool {
    abs_bits(b) == 0
}

/// Whether `b` encodes a NaN.
pub open spec fn is_nan_bits(b: u32) -> bool {
    biased_exp(b) == 0xFF && frac_field(b) != 0
}

/// Whether `b` encodes an infinity.
pub open spec fn is_inf_bits(b: u32) -> bool {
    biased_exp(b) == 0xFF && frac_field(b) == 0
}

/// The same magnitude with the opposite sign.
pub open spec fn flip_sign(b: u32) -> u32 {
    if b >= 0x8000_0000 {
        (b - 0x8000_0000) as u32
    } else {
        (b + 0x8000_0000) as u32
    }
}

/// The significand of a finite value: the fraction with the implicit leading
/// bit for normal numbers.
pub open spec fn sig_of(b: u32) -> u64 {
    if biased_exp(b) == 0 {
        frac_field(b) as u64
    } else {
        (frac_field(b) + 0x0080_0000) as u64
    }
}

/// The scale of a finite value: `value magnitude == sig_of(b) * 2^exp_of(b)`.
pub open spec fn exp_of(b: u32) -> int {
    if biased_exp(b) == 0 {
        -149
    } else {
        biased_exp(b) - 150
    }
}

/// An encoded zero of the given sign.
pub open spec fn pack_zero(sign: bool) -> u32 {
    if sign {
        NEG_ZERO
    } else {
        POS_ZERO
    }
}

/// An encoded infinity of the given sign.
pub open spec fn pack_inf(sign: bool) -> u32 {
    if sign {
        (NEG_ZERO + INF_BITS) as u32
    } else {
        INF_BITS
    }
}

/// The pattern with the given sign, biased exponent field and fraction field.
pub open spec fn pack_parts(sign: bool, be: u32, frac: u32) -> u32 {
    ((if sign {
        0x8000_0000u32
    } else {
        0u32
    }) + be * 0x0080_0000 + frac) as u32
}

/// `sig * 2^e` renormalized so the significand lies in `[2^62, 2^63)`,
/// for `1 <= sig < 2^63`.
pub closed spec fn norm_sig(sig: u64, e: int) -> (u64, int) {
    let (s1, e1): (u64, int) = if sig < 0x8000_0000 {
        ((sig * 0x1_0000_0000) as u64, e - 32)
    } else {
        (sig, e)
    };
    let (s2, e2): (u64, int) = if s1 < 0x8000_0000_0000 {
        ((s1 * 0x1_0000) as u64, e1 - 16)
    } else {
        (s1, e1)
    };
    let (s3, e3): (u64, int) = if s2 < 0x0080_0000_0000_0000 {
        ((s2 * 0x100) as u64, e2 - 8)
    } else {
        (s2, e2)
    };
    let (s4, e4): (u64, int) = if s3 < 0x0800_0000_0000_0000 {
        ((s3 * 0x10) as u64, e3 - 4)
    } else {
        (s3, e3)
    };
    let (s5, e5): (u64, int) = if s4 < 0x2000_0000_0000_0000 {
        ((s4 * 4) as u64, e4 - 2)
    } else {
        (s4, e4)
    };
    if s5 < 0x4000_0000_0000_0000 {
        ((s5 * 2) as u64, e5 - 1)
    } else {
        (s5, e5)
    }
}

/// `x / 2^d`, with any discarded nonzero bits jammed into the lowest result
/// bit so that rounding decisions below keep seeing them.
pub closed spec fn shift_jam(x: u64, d: nat) -> u64 {
    if d >= 64 {
        if x == 0 {
            0u64
        } else {
            1u64
        }
    } else {
        let q = (x as nat / pow2(d)) as u64;
        if x as nat % pow2(d) == 0 {
            q
        } else if q % 2 == 1 {
            q
        } else {
            (q + 1) as u64
        }
    }
}

/// `sig * 2^e` (with `1 <= sig < 2^63`, the lowest bit possibly a jammed
/// sticky bit) encoded as a single-precision pattern of the given sign,
/// rounded to nearest, ties to even; overflows to infinity, underflows
/// through the subnormals to zero.
pub closed spec fn round_pack(sign: bool, sig0: u64, e0: int) -> u32 {
    let norm = norm_sig(sig0, e0);
    let sig = norm.0;
    let e = norm.1;
    let be = e + 62 + 127;
    if be >= 255 {
        pack_inf(sign)
    } else if be >= 1 {
        let frac = sig / 0x80_0000_0000;
        let rem = sig % 0x80_0000_0000;
        let frac2 = if rem > 0x40_0000_0000 || (rem == 0x40_0000_0000 && frac % 2 == 1) {
            (frac + 1) as u64
        } else {
            frac
        };
        if frac2 == 0x100_0000 {
            if be + 1 >= 255 {
                pack_inf(sign)
            } else {
                pack_parts(sign, (be + 1) as u32, 0)
            }
        } else {
            pack_parts(sign, be as u32, (frac2 - 0x80_0000) as u32)
        }
    } else {
        let sh = 40 - be;
        if sh >= 64 {
            pack_zero(sign)
        } else {
            let psh = pow2(sh as nat) as u64;
            let frac = sig / psh;
            let rem = sig % psh;
            let half = pow2((sh - 1) as nat) as u64;
            let frac2 = if rem > half || (rem == half && frac % 2 == 1) {
                (frac + 1) as u64
            } else {
                frac
            };
            pack_parts(sign, 0, frac2 as u32)
        }
    }
}

/// `2^n` as an executable `u64`.
pub(crate) fn p2_64(n: u64) -> (r: u64)
    requires
        n < 64,
    ensures
        r == pow2(n as nat),
        r >= 1,
{
    proof {
        lemma_u64_pow2_no_overflow(n as nat);
        lemma_u64_shl_is_mul(1u64, n);
        lemma_pow2_pos(n as nat);
    }
    1u64 << n
}

/// The sign, biased exponent field and fraction field of a pattern.
pub(crate) fn decode(b: u32) -> (r: (bool, u32, u32))
    ensures
        r.0 == sign_of(b),
        r.1 == biased_exp(b),
        r.2 == frac_field(b),
        r.1 < 0x100,
        r.2 < 0x0080_0000,
{
    (b / 0x8000_0000 == 1, (b / 0x0080_0000) % 0x100, b % 0x0080_0000)
}

/// The significand and scale of a finite value, as [`sig_of`] and [`exp_of`].
pub(crate) fn decode_finite(b: u32) -> (r: (u64, i32))
    requires
        biased_exp(b) != 0xFF,
    ensures
        r.0 == sig_of(b),
        r.1 as int == exp_of(b),
        r.0 < 0x100_0000,
        -149 <= r.1 < 105,
{
    let (_s, e, m) = decode(b);
    if e == 0 {
        (m as u64, -149)
    } else {
        ((m + 0x0080_0000) as u64, e as i32 - 150)
    }
}

/// Executable [`norm_sig`].
pub(crate) fn norm_sig_run(sig: u64, e: i32) -> (r: (u64, i32))
    requires
        1 <= sig < 0x8000_0000_0000_0000,
        -100_000 <= e <= 100_000,
    ensures
        r.0 == norm_sig(sig, e as int).0,
        r.1 as int == norm_sig(sig, e as int).1,
        0x4000_0000_0000_0000 <= r.0 < 0x8000_0000_0000_0000,
        e - 63 <= r.1 <= e,
{
    let (s1, e1): (u64, i32) = if sig < 0x8000_0000 {
        (sig * 0x1_0000_0000, e - 32)
    } else {
        (sig, e)
    };
    let (s2, e2): (u64, i32) = if s1 < 0x8000_0000_0000 {
        (s1 * 0x1_0000, e1 - 16)
    } else {
        (s1, e1)
    };
    let (s3, e3): (u64, i32) = if s2 < 0x0080_0000_0000_0000 {
        (s2 * 0x100, e2 - 8)
    } else {
        (s2, e2)
    };
    let (s4, e4): (u64, i32) = if s3 < 0x0800_0000_0000_0000 {
        (s3 * 0x10, e3 - 4)
    } else {
        (s3, e3)
    };
    let (s5, e5): (u64, i32) = if s4 < 0x2000_0000_0000_0000 {
        (s4 * 4, e4 - 2)
    } else {
        (s4, e4)
    };
    if s5 < 0x4000_0000_0000_0000 {
        (s5 * 2, e5 - 1)
    } else {
        (s5, e5)
    }
}

/// Executable [`shift_jam`].
pub(crate) fn shift_jam_run(x: u64, d: u64) -> (r: u64)
    ensures
        r == shift_jam(x, d as nat),
        r <= x,
        x > 0 ==> r >= 1,
{
    if d >= 64 {
        if x == 0 {
            0
        } else {
            1
        }
    } else if d == 0 {
        proof {
            lemma2_to64();
            assert(pow2(0) == 1);
        }
        x
    } else {
        let p = p2_64(d);
        let q = x / p;
        let lost = x % p;
        proof {
            lemma_pow2_strictly_increases(0, d as nat);
            lemma2_to64();
            lemma_div_is_ordered_by_denominator(x as int, 2, p as int);
        }
        if lost == 0 {
            proof {
                lemma_fundamental_div_mod(x as int, p as int);
                vstd::arithmetic::mul::lemma_mul_basics(p as int);
                assert(q == 0 ==> x == 0);
            }
            q
        } else if q % 2 == 1 {
            q
        } else {
            proof {
                lemma_fundamental_div_mod(x as int, p as int);
                lemma_mul_inequality(2, p as int, q as int);
                assert(x >= 2 * q + 1);
            }
            q + 1
        }
    }
}

/// Executable [`round_pack`].
pub(crate) fn round_pack_run(sign: bool, sig0: u64, e0: i32) -> (r: u32)
    requires
        1 <= sig0 < 0x8000_0000_0000_0000,
        -100_000 <= e0 <= 100_000,
    ensures
        r == round_pack(sign, sig0, e0 as int),
{
    let (sig, e) = norm_sig_run(sig0, e0);
    let sign_word: u32 = if sign {
        0x8000_0000
    } else {
        0
    };
    let be: i32 = e + 62 + 127;
    if be >= 255 {
        sign_word + INF_BITS
    } else if be >= 1 {
        let frac = sig / 0x80_0000_0000;
        let rem = sig % 0x80_0000_0000;
        let frac2: u64 = if rem > 0x40_0000_0000 || (rem == 0x40_0000_0000 && frac % 2 == 1) {
            frac + 1
        } else {
            frac
        };
        if frac2 == 0x100_0000 {
            if be + 1 >= 255 {
                sign_word + INF_BITS
            } else {
                sign_word + ((be + 1) as u32) * 0x0080_0000
            }
        } else {
            sign_word + (be as u32) * 0x0080_0000 + ((frac2 - 0x80_0000) as u32)
        }
    } else {
        let sh: i32 = 40 - be;
        if sh >= 64 {
            sign_word
        } else {
            let psh = p2_64(sh as u64);
            let frac = sig / psh;
            let rem = sig % psh;
            let half = p2_64((sh - 1) as u64);
            proof {
                lemma_pow2_adds((sh - 1) as nat, 1);
                lemma2_to64();
                assert(psh == 2 * half);
                lemma_pow2_strictly_increases(39, sh as nat);
                lemma2_to64_rest();
                lemma_div_is_ordered_by_denominator(sig as int, pow2(39) as int, psh as int);
            }
            let frac2: u64 = if rem > half || (rem == half && frac % 2 == 1) {
                frac + 1
            } else {
                frac
            };
            sign_word + (frac2 as u32)
        }
    }
}

/// `sig * 2^e` renormalized so the significand lies in `[2^23, 2^24)`,
/// for `1 <= sig < 2^24`.
pub closed spec fn norm24(sig: u64, e: int) -> (u64, int) {
    let (s1, e1): (u64, int) = if sig < 0x100 {
        ((sig * 0x1_0000) as u64, e - 16)
    } else {
        (sig, e)
    };
    let (s2, e2): (u64, int) = if s1 < 0x1_0000 {
        ((s1 * 0x100) as u64, e1 - 8)
    } else {
        (s1, e1)
    };
    let (s3, e3): (u64, int) = if s2 < 0x10_0000 {
        ((s2 * 0x10) as u64, e2 - 4)
    } else {
        (s2, e2)
    };
    let (s4, e4): (u64, int) = if s3 < 0x40_0000 {
        ((s3 * 4) as u64, e3 - 2)
    } else {
        (s3, e3)
    };
    if s4 < 0x80_0000 {
        ((s4 * 2) as u64, e4 - 1)
    } else {
        (s4, e4)
    }
}

/// Executable [`norm24`].
pub(crate) fn norm24_run(sig: u64, e: i32) -> (r: (u64, i32))
    requires
        1 <= sig < 0x100_0000,
        -1000 <= e <= 1000,
    ensures
        r.0 == norm24(sig, e as int).0,
        r.1 as int == norm24(sig, e as int).1,
        0x80_0000 <= r.0 < 0x100_0000,
        e - 23 <= r.1 <= e,
{
    let (s1, e1): (u64, i32) = if sig < 0x100 {
        (sig * 0x1_0000, e - 16)
    } else {
        (sig, e)
    };
    let (s2, e2): (u64, i32) = if s1 < 0x1_0000 {
        (s1 * 0x100, e1 - 8)
    } else {
        (s1, e1)
    };
    let (s3, e3): (u64, i32) = if s2 < 0x10_0000 {
        (s2 * 0x10, e2 - 4)
    } else {
        (s2, e2)
    };
    let (s4, e4): (u64, i32) = if s3 < 0x40_0000 {
        (s3 * 4, e3 - 2)
    } else {
        (s3, e3)
    };
    if s4 < 0x80_0000 {
        (s4 * 2, e4 - 1)
    } else {
        (s4, e4)
    }
}

/// The sum of two encoded values: exact magnitude arithmetic on aligned
/// significands, rounded to nearest, ties to even. An exact zero sum is
/// positive zero; NaN operands and `inf - inf` give the canonical NaN.
pub closed spec fn add_bits(a: u32, b: u32) -> u32 {
    if is_nan_bits(a) || is_nan_bits(b) {
        QNAN_BITS
    } else if is_inf_bits(a) && is_inf_bits(b) {
        if sign_of(a) == sign_of(b) {
            a
        } else {
            QNAN_BITS
        }
    } else if is_inf_bits(a) {
        a
    } else if is_inf_bits(b) {
        b
    } else if is_zero_bits(a) && is_zero_bits(b) {
        if sign_of(a) && sign_of(b) {
            NEG_ZERO
        } else {
            POS_ZERO
        }
    } else if is_zero_bits(a) {
        b
    } else if is_zero_bits(b) {
        a
    } else {
        let sa = sign_of(a);
        let sb = sign_of(b);
        let siga = (sig_of(a) * 0x40_0000_0000) as u64;
        let sigb = (sig_of(b) * 0x40_0000_0000) as u64;
        let ea = exp_of(a) - 38;
        let eb = exp_of(b) - 38;
        let e = if ea >= eb {
            ea
        } else {
            eb
        };
        let aa = shift_jam(siga, (e - ea) as nat);
        let bb = shift_jam(sigb, (e - eb) as nat);
        if sa == sb {
            round_pack(sa, (aa + bb) as u64, e)
        } else if aa > bb {
            round_pack(sa, (aa - bb) as u64, e)
        } else if bb > aa {
            round_pack(sb, (bb - aa) as u64, e)
        } else {
            POS_ZERO
        }
    }
}

/// The difference of two encoded values: the sum with the second sign flipped.
pub closed spec fn sub_bits(a: u32, b: u32) -> u32 {
    add_bits(a, flip_sign(b))
}

/// The sign of a product or quotient.
pub open spec fn opp_sign(a: u32, b: u32) -> bool {
    sign_of(a) != sign_of(b)
}

/// The product of two encoded values: the exact 48-bit significand product,
/// rounded to nearest, ties to even. NaN operands and `inf * 0` give the
/// canonical NaN.
pub closed spec fn mul_bits(a: u32, b: u32) -> u32 {
    if is_nan_bits(a) || is_nan_bits(b) {
        QNAN_BITS
    } else if is_inf_bits(a) {
        if is_zero_bits(b) {
            QNAN_BITS
        } else {
            pack_inf(opp_sign(a, b))
        }
    } else if is_inf_bits(b) {
        if is_zero_bits(a) {
            QNAN_BITS
        } else {
            pack_inf(opp_sign(a, b))
        }
    } else if is_zero_bits(a) || is_zero_bits(b) {
        pack_zero(opp_sign(a, b))
    } else {
        let na = norm24(sig_of(a), exp_of(a));
        let nb = norm24(sig_of(b), exp_of(b));
        round_pack(opp_sign(a, b), (na.0 * nb.0) as u64, na.1 + nb.1)
    }
}

/// The quotient of two encoded values: a 39-extra-bit integer quotient with
/// any remainder jammed into the lowest bit, rounded to nearest, ties to
/// even. NaN operands, `0 / 0` and `inf / inf` give the canonical NaN;
/// a finite nonzero value over zero gives a signed infinity.
pub closed spec fn div_bits(a: u32, b: u32) -> u32 {
    if is_nan_bits(a) || is_nan_bits(b) {
        QNAN_BITS
    } else if is_inf_bits(a) && is_inf_bits(b) {
        QNAN_BITS
    } else if is_inf_bits(a) {
        pack_inf(opp_sign(a, b))
    } else if is_inf_bits(b) {
        pack_zero(opp_sign(a, b))
    } else if is_zero_bits(a) && is_zero_bits(b) {
        QNAN_BITS
    } else if is_zero_bits(b) {
        pack_inf(opp_sign(a, b))
    } else if is_zero_bits(a) {
        pack_zero(opp_sign(a, b))
    } else {
        let na = norm24(sig_of(a), exp_of(a));
        let nb = norm24(sig_of(b), exp_of(b));
        let n = (na.0 * 0x80_0000_0000) as u64;
        let q = (n / nb.0) as u64;
        let rem = n % nb.0;
        let qj = if rem == 0 {
            q
        } else if q % 2 == 1 {
            q
        } else {
            (q + 1) as u64
        };
        round_pack(opp_sign(a, b), qj, na.1 - 39 - nb.1)
    }
}

/// The encoded single-precision value nearest to the integer `x`.
pub closed spec fn f32_of_u32(x: u32) -> u32 {
    if x == 0 {
        POS_ZERO
    } else {
        round_pack(false, x as u64, 0)
    }
}

/// The magnitude of a finite encoded value truncated toward zero, with
/// `2^32` standing in for anything that large or larger.
pub closed spec fn trunc_mag(b: u32) -> u64 {
    let sig = sig_of(b);
    let e = exp_of(b);
    if e >= 9 {
        0x1_0000_0000u64
    } else if e >= 0 {
        (sig * pow2(e as nat)) as u64
    } else if e <= -24 {
        0u64
    } else {
        (sig as nat / pow2((-e) as nat)) as u64
    }
}

/// The `i16` an encoded value converts to: truncated toward zero, saturated
/// at the type's bounds, zero for NaN.
pub closed spec fn trunc_i16_bits(b: u32) -> i16 {
    if is_nan_bits(b) {
        0i16
    } else {
        let mag = if is_inf_bits(b) {
            0x1_0000_0000u64
        } else {
            trunc_mag(b)
        };
        if sign_of(b) {
            if mag >= 32768 {
                -32768i16
            } else {
                (-(mag as int)) as i16
            }
        } else {
            if mag >= 32767 {
                32767i16
            } else {
                mag as i16
            }
        }
    }
}

/// The `i32` an encoded value converts to: truncated toward zero, saturated
/// at the type's bounds, zero for NaN.
pub closed spec fn trunc_i32_bits(b: u32) -> i32 {
    if is_nan_bits(b) {
        0i32
    } else {
        let mag = if is_inf_bits(b) {
            0x1_0000_0000u64
        } else {
            trunc_mag(b)
        };
        if sign_of(b) {
            if mag >= 0x8000_0000 {
                i32::MIN
            } else {
                (-(mag as int)) as i32
            }
        } else {
            if mag >= 0x7FFF_FFFF {
                0x7FFF_FFFFi32
            } else {
                mag as i32
            }
        }
    }
}

/// The `u64` bit pattern of the double-precision value equal to the encoded
/// single-precision value: an exact widening.
pub closed spec fn widen_bits(b: u32) -> u64 {
    let sw: u64 = if sign_of(b) {
        0x8000_0000_0000_0000u64
    } else {
        0u64
    };
    if biased_exp(b) == 0xFF {
        (sw + 0x7FF0_0000_0000_0000 + (frac_field(b) as u64) * 0x2000_0000) as u64
    } else if is_zero_bits(b) {
        sw
    } else {
        let n = norm24(sig_of(b), exp_of(b));
        (sw + ((n.1 + 23 + 1023) as u64) * 0x10_0000_0000_0000 + (n.0 - 0x80_0000)
            * 0x2000_0000) as u64
    }
}

/// The bit pattern of `b` clamped to `[-1.0, 1.0]`: NaN and in-range values
/// are unchanged, anything of larger magnitude becomes `1.0` with the
/// original sign. Magnitude bits compare as the magnitudes do.
pub open spec fn clamp_unit_bits(b: u32) -> u32 {
    if is_nan_bits(b) {
        b
    } else if abs_bits(b) > ONE_BITS {
        if sign_of(b) {
            (NEG_ZERO + ONE_BITS) as u32
        } else {
            ONE_BITS
        }
    } else {
        b
    }
}

/// Executable [`add_bits`].
#[verifier::rlimit(100)]
pub fn sample_add(a: u32, b: u32) -> (r: u32)
    ensures
        r == add_bits(a, b),
{
    let (sa, ea_f, ma) = decode(a);
    let (sb, eb_f, mb) = decode(b);
    if ea_f == 0xFF && ma != 0 || eb_f == 0xFF && mb != 0 {
        QNAN_BITS
    } else if ea_f == 0xFF && eb_f == 0xFF {
        if sa == sb {
            a
        } else {
            QNAN_BITS
        }
    } else if ea_f == 0xFF {
        a
    } else if eb_f == 0xFF {
        b
    } else if ea_f == 0 && ma == 0 && eb_f == 0 && mb == 0 {
        if sa && sb {
            NEG_ZERO
        } else {
            POS_ZERO
        }
    } else if ea_f == 0 && ma == 0 {
        b
    } else if eb_f == 0 && mb == 0 {
        a
    } else {
        let (siga0, ea0) = decode_finite(a);
        let (sigb0, eb0) = decode_finite(b);
        let siga = siga0 * 0x40_0000_0000;
        let sigb = sigb0 * 0x40_0000_0000;
        let ea = ea0 - 38;
        let eb = eb0 - 38;
        let e = if ea >= eb {
            ea
        } else {
            eb
        };
        let aa = shift_jam_run(siga, (e - ea) as u64);
        let bb = shift_jam_run(sigb, (e - eb) as u64);
        if sa == sb {
            round_pack_run(sa, aa + bb, e)
        } else if aa > bb {
            round_pack_run(sa, aa - bb, e)
        } else if bb > aa {
            round_pack_run(sb, bb - aa, e)
        } else {
            POS_ZERO
        }
    }
}

/// The same magnitude with the opposite sign, as [`flip_sign`].
pub fn sample_flip_sign(b: u32) -> (r: u32)
    ensures
        r == flip_sign(b),
{
    if b >= 0x8000_0000 {
        b - 0x8000_0000
    } else {
        b + 0x8000_0000
    }
}

/// Executable [`sub_bits`].
pub fn sample_sub(a: u32, b: u32) -> (r: u32)
    ensures
        r == sub_bits(a, b),
{
    sample_add(a, sample_flip_sign(b))
}

/// Executable [`mul_bits`].
#[verifier::rlimit(100)]
pub fn sample_mul(a: u32, b: u32) -> (r: u32)
    ensures
        r == mul_bits(a, b),
{
    let (sa, ea_f, ma) = decode(a);
    let (sb, eb_f, mb) = decode(b);
    let sign = sa != sb;
    if ea_f == 0xFF && ma != 0 || eb_f == 0xFF && mb != 0 {
        QNAN_BITS
    } else if ea_f == 0xFF {
        if eb_f == 0 && mb == 0 {
            QNAN_BITS
        } else if sign {
            NEG_ZERO + INF_BITS
        } else {
            INF_BITS
        }
    } else if eb_f == 0xFF {
        if ea_f == 0 && ma == 0 {
            QNAN_BITS
        } else if sign {
            NEG_ZERO + INF_BITS
        } else {
            INF_BITS
        }
    } else if ea_f == 0 && ma == 0 || eb_f == 0 && mb == 0 {
        if sign {
            NEG_ZERO
        } else {
            POS_ZERO
        }
    } else {
        let (siga0, ea0) = decode_finite(a);
        let (sigb0, eb0) = decode_finite(b);
        let (na, ea) = norm24_run(siga0, ea0);
        let (nb, eb) = norm24_run(sigb0, eb0);
        proof {
            lemma_mul_inequality(na as int, 0xFF_FFFF, nb as int);
            lemma_mul_inequality(nb as int, 0xFF_FFFF, 0xFF_FFFF);
            lemma_mul_is_commutative(na as int, nb as int);
            lemma_mul_inequality(0x80_0000, na as int, nb as int);
            lemma_mul_is_commutative(na as int, 0xFF_FFFF as int);
            assert(na * nb >= 0x80_0000 * nb >= 1) by {
                lemma_mul_inequality(1, 0x80_0000, nb as int);
            }
        }
        round_pack_run(sign, na * nb, ea + eb)
    }
}

/// Executable [`div_bits`].
#[verifier::rlimit(100)]
pub fn sample_div(a: u32, b: u32) -> (r: u32)
    ensures
        r == div_bits(a, b),
{
    let (sa, ea_f, ma) = decode(a);
    let (sb, eb_f, mb) = decode(b);
    let sign = sa != sb;
    if ea_f == 0xFF && ma != 0 || eb_f == 0xFF && mb != 0 {
        QNAN_BITS
    } else if ea_f == 0xFF && eb_f == 0xFF {
        QNAN_BITS
    } else if ea_f == 0xFF {
        if sign {
            NEG_ZERO + INF_BITS
        } else {
            INF_BITS
        }
    } else if eb_f == 0xFF {
        if sign {
            NEG_ZERO
        } else {
            POS_ZERO
        }
    } else if ea_f == 0 && ma == 0 && eb_f == 0 && mb == 0 {
        QNAN_BITS
    } else if eb_f == 0 && mb == 0 {
        if sign {
            NEG_ZERO + INF_BITS
        } else {
            INF_BITS
        }
    } else if ea_f == 0 && ma == 0 {
        if sign {
            NEG_ZERO
        } else {
            POS_ZERO
        }
    } else {
        let (siga0, ea0) = decode_finite(a);
        let (sigb0, eb0) = decode_finite(b);
        let (na, ea) = norm24_run(siga0, ea0);
        let (nb, eb) = norm24_run(sigb0, eb0);
        let n = na * 0x80_0000_0000;
        let q = n / nb;
        let rem = n % nb;
        proof {
            lemma_div_is_ordered_by_denominator(n as int, nb as int, 0x100_0000);
            lemma_div_is_ordered_by_denominator(n as int, 1, nb as int);
            assert(n / 0x100_0000 >= 0x40_0000_0000);
        }
        let qj = if rem == 0 {
            q
        } else if q % 2 == 1 {
            q
        } else {
            q + 1
        };
        round_pack_run(sign, qj, ea - 39 - eb)
    }
}

/// Executable [`f32_of_u32`].
pub fn sample_of_u32(x: u32) -> (r: u32)
    ensures
        r == f32_of_u32(x),
{
    if x == 0 {
        POS_ZERO
    } else {
        round_pack_run(false, x as u64, 0)
    }
}

/// Executable [`trunc_mag`].
pub(crate) fn trunc_mag_run(b: u32) -> (r: u64)
    requires
        biased_exp(b) != 0xFF,
    ensures
        r == trunc_mag(b),
        r <= 0x1_0000_0000u64,
{
    let (sig, e) = decode_finite(b);
    if e >= 9 {
        0x1_0000_0000u64
    } else if e >= 0 {
        let p = p2_64(e as u64);
        proof {
            if e < 8 {
                lemma_pow2_strictly_increases(e as nat, 8);
            }
            lemma2_to64();
            lemma_mul_inequality(p as int, 256, sig as int);
            lemma_mul_is_commutative(p as int, sig as int);
        }
        sig * p
    } else if e <= -24 {
        0u64
    } else {
        sig / p2_64((-e) as u64)
    }
}

/// Executable [`trunc_i16_bits`].
pub fn sample_to_i16(b: u32) -> (r: i16)
    ensures
        r == trunc_i16_bits(b),
{
    let (s, e_f, m) = decode(b);
    if e_f == 0xFF && m != 0 {
        0
    } else {
        let mag = if e_f == 0xFF {
            0x1_0000_0000u64
        } else {
            trunc_mag_run(b)
        };
        if s {
            if mag >= 32768 {
                -32768
            } else {
                -(mag as i16)
            }
        } else {
            if mag >= 32767 {
                32767
            } else {
                mag as i16
            }
        }
    }
}

/// Executable [`trunc_i32_bits`].
pub fn sample_to_i32(b: u32) -> (r: i32)
    ensures
        r == trunc_i32_bits(b),
{
    let (s, e_f, m) = decode(b);
    if e_f == 0xFF && m != 0 {
        0
    } else {
        let mag = if e_f == 0xFF {
            0x1_0000_0000u64
        } else {
            trunc_mag_run(b)
        };
        if s {
            if mag >= 0x8000_0000 {
                i32::MIN
            } else {
                -(mag as i32)
            }
        } else {
            if mag >= 0x7FFF_FFFF {
                0x7FFF_FFFF
            } else {
                mag as i32
            }
        }
    }
}

/// Executable [`widen_bits`].
pub fn sample_widen(b: u32) -> (r: u64)
    ensures
        r == widen_bits(b),
{
    let (s, e_f, m) = decode(b);
    let sw: u64 = if s {
        0x8000_0000_0000_0000
    } else {
        0
    };
    if e_f == 0xFF {
        sw + 0x7FF0_0000_0000_0000 + (m as u64) * 0x2000_0000
    } else if e_f == 0 && m == 0 {
        sw
    } else {
        let (sig0, e0) = decode_finite(b);
        let (sig, e) = norm24_run(sig0, e0);
        sw + ((e + 23 + 1023) as u64) * 0x10_0000_0000_0000 + (sig - 0x80_0000) * 0x2000_0000
    }
}

/// Executable [`clamp_unit_bits`].
pub fn clamp_unit(b: u32) -> (r: u32)
    ensures
        r == clamp_unit_bits(b),
{
    let (s, e_f, m) = decode(b);
    if e_f == 0xFF && m != 0 {
        b
    } else if b % 0x8000_0000 > ONE_BITS {
        if s {
            NEG_ZERO + ONE_BITS
        } else {
            ONE_BITS
        }
    } else {
        b
    }
}

/// The magnitude bits of a sample, as [`abs_bits`].
pub fn sample_abs(b: u32) -> (r: u32)
    ensures
        r == abs_bits(b),
{
    b % 0x8000_0000
}

/// `log2(10) / 20` in unsigned Q64 fixed point: the scale that turns a gain
/// in dB into a base-two exponent.
pub const GF_K64: u64 = 0x2A85_4B42_5C38_B566;

/// Taylor coefficients of `2^x` on `[0, 1)`, `ln(2)^k / k!` in unsigned Q62
/// fixed point, from the constant term up to degree ten.
pub const GF_C0: u64 = 0x4000_0000_0000_0000;

pub const GF_C1: u64 = 0x2C5C_85FD_F473_DE6B;

pub const GF_C2: u64 = 0x0F5F_DEFF_C162_C754;

pub const GF_C3: u64 = 0x038D_611A_E094_17F1;

pub const GF_C4: u64 = 0x009D_955B_7DD2_73B9;

pub const GF_C5: u64 = 0x0015_D87F_E78A_6731;

pub const GF_C6: u64 = 0x0002_8612_25F0_D8F1;

pub const GF_C7: u64 = 0x0000_3FF9_7F8B_1162;

pub const GF_C8: u64 = 0x0000_058B_0088_E972;

pub const GF_C9: u64 = 0x0000_006D_494F_4E58;

pub const GF_C10: u64 = 0x0000_0007_933D_4563;

/// Multiplying a Q64 fraction in and scaling back out cannot grow a value.
proof fn lemma_mul_shift_le(a: int, f: int)
    requires
        0 <= a,
        0 <= f < 0x1_0000_0000_0000_0000,
    ensures
        a * f <= a * 0x1_0000_0000_0000_0000,
        0 <= (a * f) / 0x1_0000_0000_0000_0000 <= a,
{
    lemma_mul_inequality(f, 0x1_0000_0000_0000_0000, a);
    lemma_mul_is_commutative(a, f);
    lemma_mul_is_commutative(a, 0x1_0000_0000_0000_0000);
    lemma_div_is_ordered(a * f, a * 0x1_0000_0000_0000_0000, 0x1_0000_0000_0000_0000);
    lemma_div_multiples_vanish(a, 0x1_0000_0000_0000_0000);
    if a * f > 0 {
        lemma_div_pos_is_pos(a * f, 0x1_0000_0000_0000_0000);
    }
}

/// `2^(f / 2^64)` in unsigned Q62 fixed point, by a degree-ten polynomial:
/// the result lies in `[2^62, 2^63)`.
pub closed spec fn pow2_frac(f: u64) -> int {
    let a10 = GF_C10 as int;
    let a9 = GF_C9 + (a10 * f) / 0x1_0000_0000_0000_0000;
    let a8 = GF_C8 + (a9 * f) / 0x1_0000_0000_0000_0000;
    let a7 = GF_C7 + (a8 * f) / 0x1_0000_0000_0000_0000;
    let a6 = GF_C6 + (a7 * f) / 0x1_0000_0000_0000_0000;
    let a5 = GF_C5 + (a6 * f) / 0x1_0000_0000_0000_0000;
    let a4 = GF_C4 + (a5 * f) / 0x1_0000_0000_0000_0000;
    let a3 = GF_C3 + (a4 * f) / 0x1_0000_0000_0000_0000;
    let a2 = GF_C2 + (a3 * f) / 0x1_0000_0000_0000_0000;
    let a1 = GF_C1 + (a2 * f) / 0x1_0000_0000_0000_0000;
    GF_C0 + (a1 * f) / 0x1_0000_0000_0000_0000
}

/// Executable [`pow2_frac`].
pub(crate) fn pow2_frac_run(f: u64) -> (r: u64)
    ensures
        r == pow2_frac(f),
        0x4000_0000_0000_0000 <= r < 0x8000_0000_0000_0000,
{
    let fw = f as u128;
    let a10: u128 = GF_C10 as u128;
    proof {
        lemma_mul_shift_le(a10 as int, f as int);
    }
    let a9: u128 = GF_C9 as u128 + (a10 * fw) / 0x1_0000_0000_0000_0000;
    proof {
        lemma_mul_shift_le(a9 as int, f as int);
    }
    let a8: u128 = GF_C8 as u128 + (a9 * fw) / 0x1_0000_0000_0000_0000;
    proof {
        lemma_mul_shift_le(a8 as int, f as int);
    }
    let a7: u128 = GF_C7 as u128 + (a8 * fw) / 0x1_0000_0000_0000_0000;
    proof {
        lemma_mul_shift_le(a7 as int, f as int);
    }
    let a6: u128 = GF_C6 as u128 + (a7 * fw) / 0x1_0000_0000_0000_0000;
    proof {
        lemma_mul_shift_le(a6 as int, f as int);
    }
    let a5: u128 = GF_C5 as u128 + (a6 * fw) / 0x1_0000_0000_0000_0000;
    proof {
        lemma_mul_shift_le(a5 as int, f as int);
    }
    let a4: u128 = GF_C4 as u128 + (a5 * fw) / 0x1_0000_0000_0000_0000;
    proof {
        lemma_mul_shift_le(a4 as int, f as int);
    }
    let a3: u128 = GF_C3 as u128 + (a4 * fw) / 0x1_0000_0000_0000_0000;
    proof {
        lemma_mul_shift_le(a3 as int, f as int);
    }
    let a2: u128 = GF_C2 as u128 + (a3 * fw) / 0x1_0000_0000_0000_0000;
    proof {
        lemma_mul_shift_le(a2 as int, f as int);
    }
    let a1: u128 = GF_C1 as u128 + (a2 * fw) / 0x1_0000_0000_0000_0000;
    proof {
        lemma_mul_shift_le(a1 as int, f as int);
    }
    let a0: u128 = GF_C0 as u128 + (a1 * fw) / 0x1_0000_0000_0000_0000;
    a0 as u64
}

/// `2^n` as an executable `u128`.
pub(crate) fn p2_128(n: u64) -> (r: u128)
    requires
        n < 128,
    ensures
        r == pow2(n as nat),
        r >= 1,
{
    if n < 64 {
        p2_64(n) as u128
    } else {
        proof {
            lemma_pow2_adds(64, (n - 64) as nat);
            lemma2_to64();
            lemma2_to64_rest();
            lemma_mul_is_commutative(pow2(64) as int, pow2((n - 64) as nat) as int);
            lemma_u64_pow2_no_overflow((n - 64) as nat);
        }
        (p2_64(n - 64) as u128) * 0x1_0000_0000_0000_0000
    }
}

/// The linear gain factor for a gain of `g` dB: `10^(g/20)`, computed as
/// `2^(g * log2(10)/20)` in fixed point and rounded to single precision.
/// A NaN gain gives the canonical NaN, positive infinity gives infinity,
/// negative infinity gives zero, and a zero gain gives exactly `1.0`.
pub closed spec fn gain_factor_bits(g: u32) -> u32 {
    if is_nan_bits(g) {
        QNAN_BITS
    } else if is_inf_bits(g) {
        if sign_of(g) {
            POS_ZERO
        } else {
            INF_BITS
        }
    } else if is_zero_bits(g) {
        ONE_BITS
    } else {
        let e = exp_of(g);
        let pk = sig_of(g) * GF_K64;
        let tif: (int, int) = if e > 11 {
            (160, 0)
        } else if e >= 0 {
            let t = pk * (pow2(e as nat) as int);
            (t / 0x1_0000_0000_0000_0000, t % 0x1_0000_0000_0000_0000)
        } else if e <= -90 {
            (0, 0)
        } else {
            let t = pk / (pow2((-e) as nat) as int);
            (t / 0x1_0000_0000_0000_0000, t % 0x1_0000_0000_0000_0000)
        };
        let ti = if tif.0 > 160 {
            160
        } else {
            tif.0
        };
        let e2f: (int, int) = if !sign_of(g) {
            (ti, tif.1)
        } else if tif.1 == 0 {
            (-ti, 0)
        } else {
            (-ti - 1, 0x1_0000_0000_0000_0000 - tif.1)
        };
        round_pack(false, pow2_frac(e2f.1 as u64) as u64, e2f.0 - 62)
    }
}

/// Executable [`gain_factor_bits`].
pub fn sample_gain_factor(g: u32) -> (r: u32)
    ensures
        r == gain_factor_bits(g),
{
    let (s, e_f, m) = decode(g);
    if e_f == 0xFF && m != 0 {
        QNAN_BITS
    } else if e_f == 0xFF {
        if s {
            POS_ZERO
        } else {
            INF_BITS
        }
    } else if e_f == 0 && m == 0 {
        ONE_BITS
    } else {
        let (sig, e) = decode_finite(g);
        proof {
            lemma_mul_inequality(sig as int, 0xFF_FFFF, GF_K64 as int);
        }
        let pk: u128 = (sig as u128) * (GF_K64 as u128);
        let (ti0, fr): (u64, u64) = if e > 11 {
            (160, 0)
        } else if e >= 0 {
            let p = p2_64(e as u64);
            proof {
                if e < 11 {
                    lemma_pow2_strictly_increases(e as nat, 11);
                }
                lemma2_to64();
                lemma_mul_inequality(p as int, 2048, pk as int);
                lemma_mul_is_commutative(p as int, pk as int);
            }
            let t = pk * (p as u128);
            ((t / 0x1_0000_0000_0000_0000) as u64, (t % 0x1_0000_0000_0000_0000) as u64)
        } else if e <= -90 {
            (0, 0)
        } else {
            let t = pk / p2_128((0 - e) as u64);
            proof {
                lemma_div_is_ordered_by_denominator(pk as int, 1, pow2((-e) as nat) as int);
            }
            ((t / 0x1_0000_0000_0000_0000) as u64, (t % 0x1_0000_0000_0000_0000) as u64)
        };
        let ti: u64 = if ti0 > 160 {
            160
        } else {
            ti0
        };
        let (e2, fq): (i32, u64) = if !s {
            (ti as i32, fr)
        } else if fr == 0 {
            (0 - (ti as i32), 0)
        } else {
            (0 - (ti as i32) - 1, (0xFFFF_FFFF_FFFF_FFFF - fr) + 1)
        };
        let p = pow2_frac_run(fq);
        round_pack_run(false, p, e2 - 62)
    }
}

} // verus!

