use raytracer::camera::SHADOW_GUARD;
use raytracer::material::{NEGLIGIBLE, ONE};
use raytracer::rank::{bits, rank, INFINITY_BITS, INFINITY, SIGN};

fn rank_of(x: f64) -> i64 {
    rank(x.to_bits()).unwrap()
}

#[test]
fn ranks_order_as_numbers_do() {
    let ascending = [
        f64::NEG_INFINITY,
        -1.0e300,
        -2.5,
        -1.0,
        -1.0e-300,
        -5.0e-324,
        0.0,
        5.0e-324,
        1.0e-8,
        0.001,
        0.5,
        1.0,
        1.5,
        1.0e300,
        f64::INFINITY,
    ];
    for pair in ascending.windows(2) {
        assert!(rank_of(pair[0]) < rank_of(pair[1]), "{} and {}", pair[0], pair[1]);
    }
}

#[test]
fn rank_compares_as_the_numbers_compare() {
    let samples = [-7.25, -0.0, 0.0, 3.0e-9, 0.1, 0.1 + 0.2, 0.3, 2.0, 1.0e17];
    for a in samples {
        for b in samples {
            assert_eq!(rank_of(a) < rank_of(b), a < b, "{a} < {b}");
            assert_eq!(rank_of(a) == rank_of(b), a == b, "{a} == {b}");
        }
    }
}

#[test]
fn both_zeros_have_rank_zero() {
    assert_eq!(rank(0.0f64.to_bits()), Some(0));
    assert_eq!(rank((-0.0f64).to_bits()), Some(0));
    assert_eq!(rank(0), Some(0));
    assert_eq!(rank(SIGN), Some(0));
}

#[test]
fn rank_of_exact_bit_patterns() {
    assert_eq!(rank(1), Some(1));
    assert_eq!(rank(SIGN | 1), Some(-1));
    assert_eq!(rank(0x4000_0000_0000_0000), Some(0x4000_0000_0000_0000));
    assert_eq!(rank(0xc000_0000_0000_0000), Some(-0x4000_0000_0000_0000));
    assert_eq!(rank(INFINITY_BITS), Some(INFINITY));
    assert_eq!(rank(SIGN | INFINITY_BITS), Some(-INFINITY));
}

#[test]
fn a_nan_has_no_rank() {
    assert_eq!(rank(f64::NAN.to_bits()), None);
    assert_eq!(rank((-f64::NAN).to_bits()), None);
    assert_eq!(rank(INFINITY_BITS + 1), None);
    assert_eq!(rank(SIGN | (INFINITY_BITS + 1)), None);
    assert_eq!(rank(u64::MAX), None);
    assert_eq!(rank(0x7fff_ffff_ffff_ffff), None);
}

#[test]
fn negation_negates_the_rank() {
    for x in [0.0, 1.0, 0.001, 123.456, 1.0e-310, f64::INFINITY, f64::MAX, f64::MIN_POSITIVE] {
        assert_eq!(rank_of(-x), -rank_of(x), "{x}");
    }
}

#[test]
fn named_ranks_are_those_of_their_numbers() {
    assert_eq!(rank_of(f64::INFINITY), INFINITY);
    assert_eq!(rank_of(1.0), ONE);
    assert_eq!(rank_of(1.0e-8), NEGLIGIBLE);
    assert_eq!(rank_of(0.001), SHADOW_GUARD);
}

#[test]
fn bits_of_a_rank_are_those_of_its_number() {
    for x in [0.0, 1.0, -1.0, 0.001, -2.5e-7, 6.02e23, f64::INFINITY, f64::NEG_INFINITY] {
        let k = rank_of(x);
        assert_eq!(bits(k), Some(x.to_bits()));
        assert_eq!(f64::from_bits(bits(k).unwrap()), x);
    }
}

#[test]
fn bits_of_rank_zero_are_the_positive_zero() {
    assert_eq!(bits(0), Some(0));
    assert_eq!(bits(rank_of(-0.0)), Some(0.0f64.to_bits()));
}

#[test]
fn bits_of_exact_ranks() {
    assert_eq!(bits(1), Some(1));
    assert_eq!(bits(-1), Some(SIGN | 1));
    assert_eq!(bits(INFINITY), Some(INFINITY_BITS));
    assert_eq!(bits(-INFINITY), Some(SIGN | INFINITY_BITS));
}

#[test]
fn integers_beyond_infinity_are_no_ranks() {
    assert_eq!(bits(INFINITY + 1), None);
    assert_eq!(bits(-INFINITY - 1), None);
    assert_eq!(bits(i64::MAX), None);
    assert_eq!(bits(i64::MIN), None);
}

#[test]
fn rank_undoes_bits() {
    for k in [0, 1, -1, 42, -42, ONE, -ONE, SHADOW_GUARD, INFINITY, -INFINITY] {
        assert_eq!(rank(bits(k).unwrap()), Some(k));
    }
}
