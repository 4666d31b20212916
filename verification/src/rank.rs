//! Ranks of IEEE-754 doubles.
//!
//! A double is given by its 64 bits: a sign bit, eleven bits of exponent and
//! fifty-two bits of fraction. The exponent and the fraction together, read
//! as one integer, are its magnitude. Among doubles that are numbers,
//! magnitudes order as absolute values do, so the magnitude with the sign
//! before it, the rank, orders as the doubles do.
use vstd::arithmetic::power2::{
    lemma2_to64_rest,
    lemma_pow2_adds,
    lemma_pow2_pos,
    lemma_pow2_strictly_increases,
    lemma_pow2_unfold,
    pow2,
};
use vstd::prelude::*;

verus! {

/// The sign bit of a double.
pub const SIGN: u64 = 0x8000_0000_0000_0000;

/// The bits of positive infinity. Larger magnitudes are not numbers.
pub const INFINITY_BITS: u64 = 0x7ff0_0000_0000_0000;

/// The rank of positive infinity, the largest rank there is.
pub const INFINITY: i64 = 0x7ff0_0000_0000_0000;

/// Whether the sign bit is set.
pub open spec fn negative(bits: u64) -> bool {
    bits & SIGN != 0
}

/// The exponent field of a double.
pub open spec fn exponent(bits: u64) -> nat {
    ((bits >> 52) & 0x7ff) as nat
}

/// The fraction field of a double.
pub open spec fn fraction(bits: u64) -> nat {
    (bits & 0x000f_ffff_ffff_ffff) as nat
}

/// The magnitude of a double: its bits without the sign.
pub open spec fn magnitude(bits: u64) -> u64 {
    bits & !SIGN
}

/// Whether the double is finite: a number, and not an infinity.
pub open spec fn is_finite(bits: u64) -> bool {
    exponent(bits) < 0x7ff
}

/// Whether the double is an infinity.
pub open spec fn is_infinite(bits: u64) -> bool {
    exponent(bits) == 0x7ff && fraction(bits) == 0
}

/// Whether the double is a number: anything but a NaN.
pub open spec fn is_number(bits: u64) -> bool {
    is_finite(bits) || is_infinite(bits)
}

/// The absolute value of the finite double with these fields, in units of
/// `2^-1074`.
///
/// With an exponent field of zero the double is subnormal and its absolute
/// value is `fraction * 2^-1074`. Else it is
/// `(1 + fraction / 2^52) * 2^(exponent - 1023)`.
pub open spec fn scale(exponent: nat, fraction: nat) -> nat {
    if exponent == 0 {
        fraction
    } else {
        (pow2(52) + fraction) * pow2((exponent - 1) as nat)
    }
}

/// The absolute value of a finite double, in units of `2^-1074`.
pub open spec fn scaled(bits: u64) -> nat {
    scale(exponent(bits), fraction(bits))
}

/// The spacing of the doubles about a finite double, in units of `2^-1074`.
pub open spec fn spacing(bits: u64) -> nat {
    if exponent(bits) == 0 {
        1
    } else {
        pow2((exponent(bits) - 1) as nat)
    }
}

/// Whether the finite, positive double with these bits stands for the
/// fraction `numerator / denominator`: it differs from the fraction by half
/// the spacing of the doubles about it at the most.
pub open spec fn stands_for(bits: u64, numerator: nat, denominator: nat) -> bool {
    let gap = denominator * scaled(bits) - numerator * pow2(1074);
    &&& is_finite(bits)
    &&& !negative(bits)
    &&& denominator > 0
    &&& -(denominator * spacing(bits)) <= 2 * gap <= denominator * spacing(bits)
}

/// Whether the double is a zero.
pub open spec fn is_zero(bits: u64) -> bool {
    is_finite(bits) && scaled(bits) == 0
}

/// Whether the absolute value of the number `a` is less than that of the
/// number `b`.
pub open spec fn smaller(a: u64, b: u64) -> bool {
    if is_finite(b) {
        is_finite(a) && scaled(a) < scaled(b)
    } else {
        is_finite(a)
    }
}

/// Whether the number `a` is less than the number `b`: by sign first, then
/// by absolute value, the two zeros being equal.
pub open spec fn less(a: u64, b: u64) -> bool {
    if negative(a) {
        if negative(b) {
            smaller(b, a)
        } else {
            !(is_zero(a) && is_zero(b))
        }
    } else {
        !negative(b) && smaller(a, b)
    }
}

/// The rank of a double, where it is a number: its magnitude, with its sign
/// before it.
pub open spec fn rank_of(bits: u64) -> Option<i64> {
    if !is_number(bits) {
        None
    } else if negative(bits) {
        Some((-(magnitude(bits) as int)) as i64)
    } else {
        Some(magnitude(bits) as i64)
    }
}

/// The bits of the double of rank `k`, zero being the positive zero.
pub open spec fn bits_of(k: i64) -> Option<u64> {
    if 0 <= k <= INFINITY {
        Some(k as u64)
    } else if -INFINITY <= k < 0 {
        Some(((-k) as u64) | SIGN)
    } else {
        None
    }
}

/// The magnitude of a double is made of its exponent and its fraction, and
/// the numbers are the doubles of magnitude up to that of infinity.
pub proof fn magnitude_is_made_of_fields(bits: u64)
    ensures
        magnitude(bits) == exponent(bits) * pow2(52) + fraction(bits),
        fraction(bits) < pow2(52),
        exponent(bits) <= 0x7ff,
        is_number(bits) <==> magnitude(bits) <= INFINITY_BITS,
        is_zero(bits) <==> magnitude(bits) == 0,
{
    lemma2_to64_rest();
    let e = (bits >> 52) & 0x7ff;
    let f = bits & 0x000f_ffff_ffff_ffff;
    let m = bits & !0x8000_0000_0000_0000u64;
    assert(m == e * 0x10_0000_0000_0000 + f && f < 0x10_0000_0000_0000 && e <= 0x7ff)
        by (bit_vector)
        requires
            e == (bits >> 52) & 0x7ff,
            f == bits & 0x000f_ffff_ffff_ffff,
            m == bits & !0x8000_0000_0000_0000u64,
    ;
    if e != 0 {
        lemma_pow2_pos((e - 1) as nat);
        assert((pow2(52) + f) * pow2((e - 1) as nat) > 0) by (nonlinear_arith)
            requires
                pow2(52) > 0,
                pow2((e - 1) as nat) > 0,
        ;
    }
    assert(e * 0x10_0000_0000_0000 + f <= 0x7ff0_0000_0000_0000 <==> e < 0x7ff || (e == 0x7ff && f
        == 0)) by (nonlinear_arith)
        requires
            f < 0x10_0000_0000_0000,
            e <= 0x7ff,
    ;
    assert(e * 0x10_0000_0000_0000 + f == 0 <==> e == 0 && f == 0) by (nonlinear_arith)
        requires
            0 <= f,
            0 <= e,
    ;
}

/// Of two finite doubles, the one with the lesser exponent, or with the same
/// exponent and the lesser fraction, has the lesser absolute value.
proof fn scale_increases(e1: nat, f1: nat, e2: nat, f2: nat)
    requires
        f1 < pow2(52),
        f2 < pow2(52),
        e1 < e2 || (e1 == e2 && f1 < f2),
    ensures
        scale(e1, f1) < scale(e2, f2),
{
    let unit = pow2(52);
    lemma_pow2_pos(52);
    if e1 == e2 {
        if e1 > 0 {
            let step = pow2((e1 - 1) as nat);
            lemma_pow2_pos((e1 - 1) as nat);
            assert((unit + f1) * step < (unit + f2) * step) by (nonlinear_arith)
                requires
                    f1 < f2,
                    step > 0,
            ;
        }
    } else {
        let high = pow2((e2 - 1) as nat);
        lemma_pow2_pos((e2 - 1) as nat);
        if e1 == 0 {
            assert(f1 < (unit + f2) * high) by (nonlinear_arith)
                requires
                    f1 < unit,
                    high > 0,
                    0 <= f2,
            ;
        } else {
            let low = pow2((e1 - 1) as nat);
            lemma_pow2_pos((e1 - 1) as nat);
            lemma_pow2_unfold(e1);
            if e1 < e2 - 1 {
                lemma_pow2_strictly_increases(e1, (e2 - 1) as nat);
            }
            assert((unit + f1) * low < (unit + f2) * high) by (nonlinear_arith)
                requires
                    f1 < unit,
                    0 <= f2,
                    0 < low,
                    2 * low <= high,
            ;
        }
    }
}

/// Magnitudes order as absolute values do: of two numbers, the first is
/// smaller than the second exactly when its magnitude is less.
pub proof fn magnitude_orders(a: u64, b: u64)
    requires
        is_number(a),
        is_number(b),
    ensures
        smaller(a, b) <==> magnitude(a) < magnitude(b),
{
    magnitude_is_made_of_fields(a);
    magnitude_is_made_of_fields(b);
    let (ea, fa) = (exponent(a), fraction(a));
    let (eb, fb) = (exponent(b), fraction(b));
    let unit = pow2(52);
    assert(ea * unit + fa < eb * unit + fb <==> ea < eb || (ea == eb && fa < fb))
        by (nonlinear_arith)
        requires
            fa < unit,
            fb < unit,
    ;
    if is_finite(a) && is_finite(b) {
        if ea < eb || (ea == eb && fa < fb) {
            scale_increases(ea, fa, eb, fb);
        } else if eb < ea || (eb == ea && fb < fa) {
            scale_increases(eb, fb, ea, fa);
        }
    }
}

/// A normal, positive double below `2^53` stands for a fraction where its
/// significand, the fraction field with a one before it, stands for the
/// fraction scaled by the power of two that the exponent field tells.
pub proof fn significand_stands_for(bits: u64, numerator: nat, denominator: nat)
    requires
        0 < exponent(bits) <= 1075,
        !negative(bits),
        denominator > 0,
        -denominator <= 2 * (denominator * (pow2(52) + fraction(bits)) - numerator * pow2(
            (1075 - exponent(bits)) as nat,
        )) <= denominator,
    ensures
        stands_for(bits, numerator, denominator),
{
    let e = exponent(bits);
    let low = pow2((e - 1) as nat);
    let high = pow2((1075 - e) as nat);
    let significand = pow2(52) + fraction(bits);
    lemma_pow2_pos((e - 1) as nat);
    lemma_pow2_adds((1075 - e) as nat, (e - 1) as nat);
    let gap = denominator * scaled(bits) - numerator * pow2(1074);
    let narrow = denominator * significand - numerator * high;
    assert(gap == narrow * low) by (nonlinear_arith)
        requires
            gap == denominator * (significand * low) - numerator * (high * low),
            narrow == denominator * significand - numerator * high,
    ;
    assert(-(denominator * low) <= 2 * (narrow * low) <= denominator * low) by (nonlinear_arith)
        requires
            -denominator <= 2 * narrow <= denominator,
            low > 0,
    ;
}

/// The rank of the double with the given bits, or nothing for a NaN.
pub fn rank(bits: u64) -> (r: Option<i64>)
    ensures
        r == rank_of(bits),
        r matches Some(k) ==> -INFINITY <= k <= INFINITY,
{
    proof {
        magnitude_is_made_of_fields(bits);
    }
    let mag: u64 = bits & !SIGN;
    if mag > INFINITY_BITS {
        None
    } else if bits & SIGN != 0 {
        Some(-(mag as i64))
    } else {
        Some(mag as i64)
    }
}

/// The bits of the double of rank `k`, or nothing where no double has that
/// rank. Of the two zeros the positive one is given.
pub fn bits(k: i64) -> (b: Option<u64>)
    ensures
        b == bits_of(k),
        b is Some <==> -INFINITY <= k <= INFINITY,
{
    if 0 <= k && k <= INFINITY {
        Some(k as u64)
    } else if -INFINITY <= k && k < 0 {
        Some(((-k) as u64) | SIGN)
    } else {
        None
    }
}

/// Ranks order as the doubles do: of two numbers, the first is less than the
/// second exactly when its rank is, and the two are equal, neither less than
/// the other, exactly when their ranks are.
pub proof fn rank_orders(a: u64, b: u64)
    requires
        is_number(a),
        is_number(b),
    ensures
        less(a, b) <==> rank_of(a).unwrap() < rank_of(b).unwrap(),
        !less(a, b) && !less(b, a) <==> rank_of(a).unwrap() == rank_of(b).unwrap(),
{
    magnitude_is_made_of_fields(a);
    magnitude_is_made_of_fields(b);
    magnitude_orders(a, b);
    magnitude_orders(b, a);
}

/// Flipping the sign of a number negates its rank.
pub proof fn rank_negates(bits: u64)
    requires
        is_number(bits),
    ensures
        is_number(bits ^ SIGN),
        rank_of(bits ^ SIGN).unwrap() == -rank_of(bits).unwrap(),
{
    magnitude_is_made_of_fields(bits);
    magnitude_is_made_of_fields(bits ^ SIGN);
    assert((bits ^ 0x8000_0000_0000_0000u64) & !0x8000_0000_0000_0000u64 == bits
        & !0x8000_0000_0000_0000u64) by (bit_vector);
    assert(((bits ^ 0x8000_0000_0000_0000u64) & 0x8000_0000_0000_0000u64 != 0) <==> !(bits
        & 0x8000_0000_0000_0000u64 != 0)) by (bit_vector);
}

/// The zeros, and only they, have rank zero; the positive infinity, and only
/// it, has the largest rank.
pub proof fn rank_of_zero_and_infinity(bits: u64)
    ensures
        rank_of(bits) == Some(0i64) <==> is_zero(bits),
        rank_of(bits) == Some(INFINITY) <==> is_infinite(bits) && !negative(bits),
{
    magnitude_is_made_of_fields(bits);
    lemma2_to64_rest();
    let (e, f) = (exponent(bits), fraction(bits));
    assert(e * 0x10_0000_0000_0000 + f == 0x7ff0_0000_0000_0000 <==> e == 0x7ff && f == 0)
        by (nonlinear_arith)
        requires
            f < 0x10_0000_0000_0000,
    ;
}

/// The double of a rank has that rank.
pub proof fn rank_of_bits_of(k: i64)
    requires
        -INFINITY <= k <= INFINITY,
    ensures
        bits_of(k) matches Some(b) && rank_of(b) == Some(k),
{
    let b = bits_of(k).unwrap();
    magnitude_is_made_of_fields(b);
    if k < 0 {
        let m = (-k) as u64;
        assert((m | 0x8000_0000_0000_0000u64) & !0x8000_0000_0000_0000u64 == m && (m
            | 0x8000_0000_0000_0000u64) & 0x8000_0000_0000_0000u64 != 0) by (bit_vector)
            requires
                m <= 0x7ff0_0000_0000_0000u64,
        ;
    } else {
        let m = k as u64;
        assert(m & !0x8000_0000_0000_0000u64 == m && m & 0x8000_0000_0000_0000u64 == 0)
            by (bit_vector)
            requires
                m <= 0x7ff0_0000_0000_0000u64,
        ;
    }
}

/// A number is the double of its rank, but for the negative zero, whose rank
/// is that of the positive one.
pub proof fn bits_of_rank_of(b: u64)
    requires
        is_number(b),
        b != SIGN,
    ensures
        rank_of(b) matches Some(k) && bits_of(k) == Some(b),
{
    magnitude_is_made_of_fields(b);
    let m = b & !0x8000_0000_0000_0000u64;
    assert(b & 0x8000_0000_0000_0000u64 != 0 ==> b == m | 0x8000_0000_0000_0000u64)
        by (bit_vector)
        requires
            m == b & !0x8000_0000_0000_0000u64,
    ;
    assert(b & 0x8000_0000_0000_0000u64 == 0 ==> b == m) by (bit_vector)
        requires
            m == b & !0x8000_0000_0000_0000u64,
    ;
    assert(m == 0 ==> b == 0 || b == 0x8000_0000_0000_0000u64) by (bit_vector)
        requires
            m == b & !0x8000_0000_0000_0000u64,
    ;
}

} // verus!
