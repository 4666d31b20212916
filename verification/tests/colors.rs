use raytracer::color::{quantize, BRIGHTEST};
use raytracer::rank::rank;

/// The byte as floating-point arithmetic gives it.
fn by_arithmetic(x: f64) -> u8 {
    let kept = if x < 0.0 {
        0.0
    } else if x > 0.999 {
        0.999
    } else {
        x
    };
    (256.0 * kept) as u8
}

#[test]
fn the_brightest_intensity_has_its_rank() {
    assert_eq!(rank(0.999f64.to_bits()), Some(BRIGHTEST));
}

#[test]
fn bytes_of_exact_intensities() {
    assert_eq!(quantize(0.0f64.to_bits()), 0);
    assert_eq!(quantize((1.0f64 / 256.0).to_bits()), 1);
    assert_eq!(quantize(0.25f64.to_bits()), 64);
    assert_eq!(quantize(0.5f64.to_bits()), 128);
    assert_eq!(quantize(0.75f64.to_bits()), 192);
    assert_eq!(quantize((255.0f64 / 256.0).to_bits()), 255);
    assert_eq!(quantize(0.999f64.to_bits()), 255);
}

#[test]
fn the_part_after_the_point_is_cut_off() {
    assert_eq!(quantize((0.999f64 / 256.0).to_bits()), 0);
    assert_eq!(quantize((1.999f64 / 256.0).to_bits()), 1);
    assert_eq!(quantize((127.5f64 / 256.0).to_bits()), 127);
    assert_eq!(quantize((128.0f64 / 256.0).to_bits()), 128);
    assert_eq!(quantize(f64::from_bits(0.5f64.to_bits() - 1).to_bits()), 127);
    assert_eq!(quantize(f64::from_bits((1.0f64 / 256.0).to_bits() - 1).to_bits()), 0);
}

#[test]
fn intensities_beyond_the_brightest_are_written_as_the_brightest() {
    for x in [0.9990000000000001, 1.0, 1.5, 256.0, 1.0e300, f64::MAX, f64::INFINITY] {
        assert_eq!(quantize(x.to_bits()), 255, "{x}");
    }
}

#[test]
fn intensities_below_zero_are_written_as_zero() {
    for x in [-0.0, -5.0e-324, -0.001, -0.5, -1.0, -1.0e300, f64::NEG_INFINITY] {
        assert_eq!(quantize(x.to_bits()), 0, "{x}");
    }
}

#[test]
fn a_nan_is_written_as_zero() {
    assert_eq!(quantize(f64::NAN.to_bits()), 0);
    assert_eq!(quantize((-f64::NAN).to_bits()), 0);
    assert_eq!(quantize(u64::MAX), 0);
    assert_eq!(by_arithmetic(f64::NAN), 0);
}

#[test]
fn faint_intensities_are_written_as_zero() {
    for x in [5.0e-324, 2.2e-308, f64::MIN_POSITIVE, 1.0e-300, 1.0e-20, 1.0e-5, 0.0039] {
        assert_eq!(quantize(x.to_bits()), 0, "{x}");
    }
}

#[test]
fn every_byte_begins_at_its_256th() {
    for byte in 0..=255u32 {
        let least = byte as f64 / 256.0;
        assert_eq!(quantize(least.to_bits()), by_arithmetic(least));
        assert_eq!(u32::from(quantize(least.to_bits())), byte);
        if byte > 0 {
            let under = f64::from_bits(least.to_bits() - 1);
            assert_eq!(u32::from(quantize(under.to_bits())), byte - 1);
        }
    }
}

#[test]
fn bytes_are_those_of_floating_point_arithmetic() {
    // A walk over the intensities, dense about the range that is written.
    let mut x: f64 = -0.25;
    while x < 1.25 {
        assert_eq!(quantize(x.to_bits()), by_arithmetic(x), "{x}");
        x += 0.000_137;
    }
    // A walk over the bit patterns of all doubles.
    let mut bits: u64 = 0;
    for _ in 0..200_000 {
        let x = f64::from_bits(bits);
        assert_eq!(quantize(bits), by_arithmetic(x), "{bits:#x}");
        bits = bits.wrapping_add(0x0000_53a7_9f3b_1d2f);
    }
}
