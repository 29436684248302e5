use wavegen::scalar::Scalar;

fn scalar(value: f32) -> Scalar {
    Scalar::from_bits(value.to_bits())
}

fn number(value: Scalar) -> f32 {
    f32::from_bits(value.to_bits())
}

/// Bit patterns around every boundary of the encoding, and a spread of
/// others.
fn patterns() -> Vec<u32> {
    let mut all = vec![
        0x0000_0000, 0x0000_0001, 0x007F_FFFF, 0x0080_0000, 0x3EFF_FFFF, 0x3F00_0000,
        0x3F00_0001, 0x3F7F_FFFF, 0x3F80_0000, 0x3F80_0001, 0x3FC0_0000, 0x7F7F_FFFF,
        0x7F80_0000, 0x7F80_0001, 0x7FC0_0000, 0x7FFF_FFFF,
    ];
    let positive: Vec<u32> = all.clone();
    for bits in positive {
        all.push(bits | 0x8000_0000);
    }
    let mut state: u32 = 0x1234_5678;
    for _ in 0..200 {
        state = state.wrapping_mul(1_664_525).wrapping_add(1_013_904_223);
        all.push(state);
    }
    all
}

#[test]
fn constants_are_the_numbers_they_are_named_after() {
    assert_eq!(number(Scalar::zero()), 0.0);
    assert!(number(Scalar::zero()).is_sign_positive());
    assert_eq!(number(Scalar::half()), 0.5);
    assert_eq!(number(Scalar::one()), 1.0);
    assert_eq!(number(Scalar::minus_one()), -1.0);
}

#[test]
fn bits_go_in_and_out_unchanged() {
    for bits in patterns() {
        assert_eq!(Scalar::from_bits(bits).to_bits(), bits);
        assert_eq!(Scalar::from_bits(bits).bits, bits);
    }
}

#[test]
fn nan_is_recognised() {
    for bits in patterns() {
        assert_eq!(Scalar::from_bits(bits).is_nan(), f32::from_bits(bits).is_nan(), "{:#x}", bits);
    }
    assert!(scalar(f32::NAN).is_nan());
    assert!(!scalar(f32::INFINITY).is_nan());
    assert!(!scalar(f32::NEG_INFINITY).is_nan());
}

#[test]
fn comparison_agrees_with_the_machine() {
    let all = patterns();
    for &a in &all {
        for &b in &all {
            let (x, y) = (f32::from_bits(a), f32::from_bits(b));
            assert_eq!(Scalar::from_bits(a).lt(Scalar::from_bits(b)), x < y, "{:#x} < {:#x}", a, b);
        }
    }
}

#[test]
fn comparison_of_chosen_numbers() {
    assert!(scalar(0.25).lt(scalar(0.5)));
    assert!(!scalar(0.5).lt(scalar(0.5)));
    assert!(scalar(-2.0).lt(scalar(-1.0)));
    assert!(scalar(-1.0).lt(scalar(0.0)));
    assert!(!scalar(-0.0).lt(scalar(0.0)));
    assert!(!scalar(0.0).lt(scalar(-0.0)));
    assert!(!scalar(f32::NAN).lt(scalar(1.0)));
    assert!(!scalar(1.0).lt(scalar(f32::NAN)));
    assert!(!scalar(f32::NAN).lt(scalar(f32::NAN)));
    assert!(scalar(f32::NEG_INFINITY).lt(scalar(f32::MIN)));
    assert!(scalar(f32::MAX).lt(scalar(f32::INFINITY)));
}

#[test]
fn clamp_agrees_with_the_machine() {
    let bounds = [(0.0f32, 1.0f32), (-1.0, 1.0), (20.0, 20000.0), (0.5, 0.5)];
    for bits in patterns() {
        for (min, max) in bounds {
            let expected = f32::from_bits(bits).clamp(min, max);
            let got = Scalar::from_bits(bits).clamp(scalar(min), scalar(max));
            assert_eq!(got.to_bits(), expected.to_bits(), "{:#x} into [{}, {}]", bits, min, max);
        }
    }
}

#[test]
fn clamp_of_chosen_numbers() {
    assert_eq!(number(scalar(1.5).clamp(scalar(0.0), scalar(1.0))), 1.0);
    assert_eq!(number(scalar(-0.5).clamp(scalar(0.0), scalar(1.0))), 0.0);
    assert_eq!(number(scalar(0.3).clamp(scalar(0.0), scalar(1.0))), 0.3);
    assert_eq!(number(scalar(f32::INFINITY).clamp(scalar(0.0), scalar(1.0))), 1.0);
    assert_eq!(number(scalar(f32::NEG_INFINITY).clamp(scalar(0.0), scalar(1.0))), 0.0);
    assert!(number(scalar(f32::NAN).clamp(scalar(0.0), scalar(1.0))).is_nan());
}

#[test]
fn finite_numbers_above_zero_are_recognised() {
    for bits in patterns() {
        let value = f32::from_bits(bits);
        assert_eq!(Scalar::from_bits(bits).is_positive(), value > 0.0 && value.is_finite(), "{:#x}", bits);
    }
}

#[test]
fn digits_and_doublings_give_the_number() {
    for bits in patterns() {
        let value = f32::from_bits(bits);
        if !value.is_finite() {
            continue;
        }
        let digits = Scalar::from_bits(bits).significand_bits();
        let doublings = Scalar::from_bits(bits).doubling_count();
        // digits * 2^(doublings - 149), worked out in double precision
        let size = digits as f64 * 2.0f64.powi(doublings as i32 - 149);
        assert_eq!(size, value.abs() as f64, "{:#x}", bits);
    }
    assert_eq!(scalar(1.0).significand_bits(), 0x0080_0000);
    assert_eq!(scalar(1.0).doubling_count(), 126);
    assert_eq!(scalar(1.5).significand_bits(), 0x00C0_0000);
    assert_eq!(Scalar::from_bits(1).significand_bits(), 1);
    assert_eq!(Scalar::from_bits(1).doubling_count(), 0);
    assert_eq!(scalar(0.0).significand_bits(), 0);
}
