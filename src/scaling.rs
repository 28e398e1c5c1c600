//! The scaling half of scaling-and-squaring: the exponent `s` for which
//! `A / 2^s` has norm below one, taken from the bit pattern of the norm, and
//! the squarings that undo the scaling.
use vstd::arithmetic::power2::{lemma2_to64, lemma_pow2_adds, lemma_pow2_strictly_increases, pow2};
use vstd::prelude::*;

verus! {

const FRACTION_MASK: u64 = 0x000f_ffff_ffff_ffff;

const SIGN_MASK: u64 = 0x8000_0000_0000_0000;

const HIDDEN_BIT: u64 = 0x0010_0000_0000_0000;

/// Biased exponent field 0x3fe: a significand in `[1/2, 1)`.
const HALF_EXPONENT: u64 = 0x3fe0_0000_0000_0000;

/// Biased exponent field of an IEEE-754 double.
pub open spec fn biased_exponent(b: u64) -> u64 {
    (b >> 52u64) & 0x7ffu64
}

/// Fraction field of an IEEE-754 double.
pub open spec fn fraction(b: u64) -> u64 {
    b & 0xf_ffff_ffff_ffffu64
}

pub open spec fn sign_of(b: u64) -> u64 {
    b >> 63u64
}

/// Zero of either sign, an infinity or a NaN.
pub open spec fn is_zero_or_special(b: u64) -> bool {
    biased_exponent(b) == 0x7ff || (biased_exponent(b) == 0 && fraction(b) == 0)
}

/// Integer significand: the fraction, with the hidden bit for normal numbers.
pub open spec fn significand(b: u64) -> nat {
    if biased_exponent(b) == 0 {
        fraction(b) as nat
    } else {
        (fraction(b) + pow2(52)) as nat
    }
}

pub open spec fn scale_offset(b: u64) -> nat {
    if biased_exponent(b) == 0 {
        0
    } else {
        (biased_exponent(b) - 1) as nat
    }
}

/// `|x| · 2^1074` for a finite double `x`: an integer, since the smallest
/// subnormal is `2^-1074`.
pub open spec fn scaled_magnitude(b: u64) -> nat {
    significand(b) * pow2(scale_offset(b))
}

proof fn lemma_pow2_52()
    ensures
        pow2(0) == 1,
        pow2(1) == 2,
        pow2(52) == 0x10_0000_0000_0000,
{
    lemma2_to64();
    lemma_pow2_adds(32, 20);
}

/// Splits the double with bit pattern `bits` into `m · 2^e` with `|m|` in
/// `[1/2, 1)` and the sign of the input, returned as `m`'s bit pattern and
/// `e`. Zeros, infinities and NaNs come back unchanged, with `e == 0`.
pub fn frexp(bits: u64) -> (r: (u64, i32))
    ensures
        is_zero_or_special(bits) ==> r == (bits, 0i32),
        !is_zero_or_special(bits) ==> {
            &&& biased_exponent(r.0) == 0x3fe
            &&& sign_of(r.0) == sign_of(bits)
            &&& -1073 <= r.1 <= 1024
            &&& scaled_magnitude(bits) * pow2(1073) == significand(r.0) * pow2((r.1 + 2094) as nat)
        },
{
    let ee: u64 = (bits >> 52) & 0x7ff;
    if ee == 0x7ff {
        return (bits, 0);
    }
    if ee == 0 {
        let frac: u64 = bits & FRACTION_MASK;
        if frac == 0 {
            return (bits, 0);
        }
        proof {
            lemma_pow2_52();
            assert(frac < 0x10_0000_0000_0000) by (bit_vector)
                requires
                    frac == bits & 0xf_ffff_ffff_ffffu64,
            ;
        }
        let mut f: u64 = frac;
        let mut shift: u32 = 0;
        while f & HIDDEN_BIT == 0
            invariant
                0 < frac < 0x10_0000_0000_0000,
                f == frac * pow2(shift as nat),
                pow2(shift as nat) <= f < 0x20_0000_0000_0000,
                shift <= 52,
            decreases 52 - shift,
        {
            proof {
                assert(f < 0x10_0000_0000_0000) by (bit_vector)
                    requires
                        f < 0x20_0000_0000_0000u64,
                        f & 0x10_0000_0000_0000u64 == 0,
                ;
                lemma_pow2_52();
                if shift >= 52 {
                    if shift > 52 {
                        lemma_pow2_strictly_increases(52, shift as nat);
                    }
                    assert(false);
                }
                lemma_pow2_adds(shift as nat, 1);
                lemma_pow2_52();
                assert(f * 2 == frac * pow2((shift + 1) as nat)) by (nonlinear_arith)
                    requires
                        f == frac * pow2(shift as nat),
                        pow2((shift + 1) as nat) == pow2(shift as nat) * 2,
                ;
                assert(f << 1u64 == f * 2) by (bit_vector)
                    requires
                        f < 0x10_0000_0000_0000u64,
                ;
            }
            f = f << 1;
            shift = shift + 1;
        }
        let m: u64 = (bits & SIGN_MASK) | HALF_EXPONENT | (f & FRACTION_MASK);
        let e: i32 = -1021 - shift as i32;
        proof {
            assert(biased_exponent(m) == 0x3fe && sign_of(m) == sign_of(bits) && fraction(m) == f
                & 0xf_ffff_ffff_ffffu64) by (bit_vector)
                requires
                    m == (bits & 0x8000_0000_0000_0000u64) | 0x3fe0_0000_0000_0000u64 | (f
                        & 0xf_ffff_ffff_ffffu64),
            ;
            assert((f & 0xf_ffff_ffff_ffffu64) + 0x10_0000_0000_0000u64 == f) by (bit_vector)
                requires
                    f < 0x20_0000_0000_0000u64,
                    f & 0x10_0000_0000_0000u64 != 0,
            ;
            lemma_pow2_52();
            assert(significand(m) == f);
            assert(scaled_magnitude(bits) == frac) by {
                assert(pow2(0) == 1);
            }
            lemma_pow2_adds(shift as nat, (1073 - shift) as nat);
            assert(significand(m) * pow2((e + 2094) as nat) == frac * pow2(1073)) by (
            nonlinear_arith)
                requires
                    significand(m) == frac * pow2(shift as nat),
                    (e + 2094) as nat == (1073 - shift) as nat,
                    pow2(shift as nat) * pow2((1073 - shift) as nat) == pow2(1073),
            ;
        }
        return (m, e);
    }
    let m: u64 = (bits & 0x800f_ffff_ffff_ffff) | HALF_EXPONENT;
    proof {
        assert(ee <= 0x7ff) by (bit_vector)
            requires
                ee == (bits >> 52u64) & 0x7ffu64,
        ;
        assert(biased_exponent(m) == 0x3fe && sign_of(m) == sign_of(bits) && fraction(m)
            == fraction(bits)) by (bit_vector)
            requires
                m == (bits & 0x800f_ffff_ffff_ffffu64) | 0x3fe0_0000_0000_0000u64,
        ;
        lemma_pow2_adds((ee - 1) as nat, 1073);
        assert(significand(m) == significand(bits));
        assert(scaled_magnitude(bits) * pow2(1073) == significand(bits) * pow2((ee + 1072) as nat))
            by (nonlinear_arith)
            requires
                scaled_magnitude(bits) == significand(bits) * pow2((ee - 1) as nat),
                pow2((ee - 1) as nat) * pow2(1073) == pow2((ee - 1 + 1073) as nat),
        ;
    }
    (m, ee as i32 - 0x3fe)
}

/// From `X · 2^1073 == M · 2^(e+2094)` with `M` a normal significand:
/// `2^(e+1073) <= X < 2^(e+1074)`.
proof fn lemma_magnitude_bounds(x: nat, m: nat, e: int)
    requires
        -1073 <= e <= 1024,
        pow2(52) <= m < 2 * pow2(52),
        x * pow2(1073) == m * pow2((e + 2094) as nat),
    ensures
        pow2((e + 1073) as nat) <= x < pow2((e + 1074) as nat),
{
    let lo = (e + 1073) as nat;
    lemma_pow2_adds(52, (e + 2094) as nat);
    lemma_pow2_adds(1, (e + 2146) as nat);
    lemma_pow2_adds(lo, 1073);
    lemma_pow2_adds((lo + 1) as nat, 1073);
    lemma_pow2_52();
    let p = pow2(1073);
    let q = pow2((e + 2094) as nat);
    assert(p > 0) by {
        vstd::arithmetic::power2::lemma_pow2_pos(1073);
    }
    assert(pow2(52) * q <= m * q && m * q < 2 * pow2(52) * q) by (nonlinear_arith)
        requires
            pow2(52) <= m < 2 * pow2(52),
            q >= 0,
            q == pow2((e + 2094) as nat),
            m * q >= 0,
    {
        vstd::arithmetic::power2::lemma_pow2_pos((e + 2094) as nat);
    }
    assert(2 * pow2(52) * q == 2 * (pow2(52) * q)) by (nonlinear_arith);
    assert(pow2(lo) * p <= x * p);
    assert(x * p < pow2((lo + 1) as nat) * p);
    assert(pow2(lo) <= x) by (nonlinear_arith)
        requires
            pow2(lo) * p <= x * p,
            p > 0,
    ;
    assert(x < pow2((lo + 1) as nat)) by (nonlinear_arith)
        requires
            x * p < pow2((lo + 1) as nat) * p,
            p > 0,
    ;
}

/// The scaling exponent `s = max(0, floor(log2(norm)) + 1)` of a norm given
/// by its bit pattern: the least `s` with `norm < 2^s`, so that `A / 2^s` has
/// norm below one. A zero, infinite or NaN norm gives `s == 0`.
pub fn scaling_exponent(norm_bits: u64) -> (s: u32)
    ensures
        is_zero_or_special(norm_bits) ==> s == 0,
        !is_zero_or_special(norm_bits) ==> {
            &&& scaled_magnitude(norm_bits) < pow2(s as nat + 1074)
            &&& (s == 0 || pow2(s as nat + 1073) <= scaled_magnitude(norm_bits))
        },
{
    let (m, e) = frexp(norm_bits);
    let s: u32 = if e > 0 {
        e as u32
    } else {
        0
    };
    proof {
        if !is_zero_or_special(norm_bits) {
            lemma_pow2_52();
            assert(significand(m) == fraction(m) + pow2(52));
            assert(fraction(m) < 0x10_0000_0000_0000) by (bit_vector);
            lemma_magnitude_bounds(scaled_magnitude(norm_bits), significand(m), e as int);
            if e < s {
                lemma_pow2_strictly_increases((e + 1074) as nat, s as nat + 1074);
            }
        }
    }
    s
}

/// How the squaring phase undoes a scaling by `2^s`: `double_squarings`
/// rounds of two squarings each, then one more squaring when `s` is odd.
#[derive(Clone, Copy, Debug, PartialEq, Eq, Structural)]
pub struct SquaringPlan {
    pub double_squarings: u32,
    pub final_squaring: bool,
}

impl SquaringPlan {
    /// Number of single squarings the plan performs.
    pub open spec fn squarings(self) -> nat {
        (2 * self.double_squarings + if self.final_squaring {
            1nat
        } else {
            0nat
        }) as nat
    }
}

/// Splits the `s` squarings that raise `exp(A / 2^s)` to `exp(A)` into
/// `floor(s / 2)` double rounds and, for odd `s`, one final squaring.
pub fn squaring_plan(s: u32) -> (plan: SquaringPlan)
    ensures
        plan.double_squarings == s / 2,
        plan.final_squaring == (s % 2 == 1),
        plan.squarings() == s,
{
    SquaringPlan { double_squarings: s / 2, final_squaring: s % 2 == 1 }
}

} // verus!
