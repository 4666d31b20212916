//! The bytes that the channels of a colour are written as.
use crate::interval::Interval;
use crate::rank::{
    exponent,
    fraction,
    rank,
    rank_of,
    scaled,
    significand_stands_for,
    stands_for,
};
use vstd::arithmetic::div_mod::{lemma_fundamental_div_mod, lemma_fundamental_div_mod_converse};
use vstd::arithmetic::power2::{
    lemma2_to64,
    lemma2_to64_rest,
    lemma_pow2_adds,
    lemma_pow2_pos,
    lemma_pow2_strictly_increases,
    pow2,
};
use vstd::bits::lemma_u64_shr_is_div;
use vstd::prelude::*;

verus! {

/// The rank of `0.999`, the greatest intensity that is written.
pub const BRIGHTEST: i64 = 0x3fef_f7ce_d916_872b;

/// The double of rank `BRIGHTEST` stands for 999 thousandths.
pub proof fn brightest_is_999_thousandths()
    ensures
        stands_for(BRIGHTEST as u64, 999, 1000),
{
    lemma2_to64_rest();
    let brightest = BRIGHTEST as u64;
    assert(exponent(brightest) == 1022 && fraction(brightest) == 0xf_f7ce_d916_872b && brightest
        & 0x8000_0000_0000_0000 == 0) by {
        assert((0x3fef_f7ce_d916_872bu64 >> 52) & 0x7ff == 1022 && 0x3fef_f7ce_d916_872bu64
            & 0x000f_ffff_ffff_ffff == 0xf_f7ce_d916_872b && 0x3fef_f7ce_d916_872bu64
            & 0x8000_0000_0000_0000 == 0) by (bit_vector);
    }
    significand_stands_for(brightest, 999, 1000);
}

/// The bits of the intensity that is written for a channel of the intensity
/// with the given bits: the intensity itself, kept between zero and `0.999`.
/// A NaN is written as zero.
pub open spec fn kept(intensity: u64) -> u64 {
    match rank_of(intensity) {
        Some(k) => (Interval { min: 0, max: BRIGHTEST }).clamp(k) as u64,
        None => 0,
    }
}

/// The byte that is written for a channel of the intensity with the given
/// bits: the whole part of 256 times the intensity kept.
///
/// The intensity kept is `scaled * 2^-1074`, so 256 times it is
/// `scaled / 2^1066`.
pub open spec fn quantized(intensity: u64) -> nat {
    scaled(kept(intensity)) / pow2(1066)
}

/// The byte that is written for a channel of the intensity with the given
/// bits: the whole part of 256 times the intensity, kept between zero and
/// `0.999`. Zero is written for a NaN.
pub fn quantize(intensity: u64) -> (byte: u8)
    ensures
        byte == quantized(intensity),
        byte * pow2(1066) <= scaled(kept(intensity)) < (byte + 1) * pow2(1066),
{
    let k: i64 = match rank(intensity) {
        Some(k) => Interval::new(0, BRIGHTEST).clamp(k),
        None => 0,
    };
    let c: u64 = k as u64;
    let e: u64 = c >> 52;
    let f: u64 = c & 0x000f_ffff_ffff_ffff;
    proof {
        assert(e == (c >> 52) & 0x7ff && e <= 1022 && f < 0x10_0000_0000_0000 && (
        0x10_0000_0000_0000u64 | f) == 0x10_0000_0000_0000 + f) by (bit_vector)
            requires
                c <= 0x3fef_f7ce_d916_872bu64,
                e == c >> 52,
                f == c & 0x000f_ffff_ffff_ffff,
        ;
        lemma2_to64();
        lemma2_to64_rest();
        lemma_pow2_pos(1066);
    }
    if e < 1015 {
        proof {
            if e == 0 {
                lemma_pow2_strictly_increases(52, 1066);
            } else {
                let low = pow2((e - 1) as nat);
                lemma_pow2_pos((e - 1) as nat);
                lemma_pow2_adds(53, (e - 1) as nat);
                if e + 52 < 1066 {
                    lemma_pow2_strictly_increases((e + 52) as nat, 1066);
                }
                assert((pow2(52) + f) * low < pow2(53) * low) by (nonlinear_arith)
                    requires
                        f < pow2(52),
                        pow2(53) == 2 * pow2(52),
                        low > 0,
                ;
            }
            lemma_fundamental_div_mod_converse(
                scaled(c) as int,
                pow2(1066) as int,
                0,
                scaled(c) as int,
            );
        }
        0
    } else {
        let m: u64 = 0x10_0000_0000_0000 | f;
        let shift: u64 = 1067 - e;
        let q: u64 = m >> shift;
        proof {
            let low = pow2((e - 1) as nat);
            let step = pow2(shift as nat);
            lemma_u64_shr_is_div(m, shift);
            lemma_pow2_pos(shift as nat);
            lemma_pow2_pos((e - 1) as nat);
            lemma_pow2_adds(shift as nat, (e - 1) as nat);
            lemma_fundamental_div_mod(m as int, step as int);
            let rest = m as int % step as int;
            if 45 < shift {
                lemma_pow2_strictly_increases(45, shift as nat);
            }
            assert(q < 256) by (nonlinear_arith)
                requires
                    m == step * q + rest,
                    0 <= rest,
                    m < 0x20_0000_0000_0000,
                    step >= 0x2000_0000_0000,
            ;
            let unit = pow2(1066) as int;
            let whole = m * low;
            assert(q * unit <= whole < q * unit + unit) by (nonlinear_arith)
                requires
                    m == step * q + rest,
                    0 <= rest < step,
                    low > 0,
                    unit == step * low,
                    whole == m * low,
            ;
            assert((q + 1) * unit == q * unit + unit) by (nonlinear_arith);
            lemma_fundamental_div_mod_converse(whole, unit, q as int, whole - q * unit);
        }
        q as u8
    }
}

} // verus!
