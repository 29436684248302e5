use wavegen::phase::{wrap_phase, PhaseAccumulator};
use wavegen::scalar::Scalar;

fn scalar(value: f32) -> Scalar {
    Scalar::from_bits(value.to_bits())
}

fn number(value: Scalar) -> f32 {
    f32::from_bits(value.to_bits())
}

/// What a sum wraps to, worked out with the machine's arithmetic.
fn expected_wrap(sum: f32) -> f32 {
    if sum.is_nan() || sum < 0.0 || sum.is_infinite() {
        0.0
    } else if sum < 1.0 {
        sum
    } else {
        sum - sum.floor()
    }
}

/// One step of an oscillator: the phase moves on by `frequency / sample_rate`.
fn step(accumulator: &mut PhaseAccumulator, frequency: f32, sample_rate: f32) {
    let phase = number(accumulator.phase());
    accumulator.advance(scalar(phase + frequency / sample_rate));
}

#[test]
fn wrap_of_chosen_sums() {
    assert_eq!(number(wrap_phase(scalar(0.0))), 0.0);
    assert_eq!(number(wrap_phase(scalar(0.25))), 0.25);
    assert_eq!(number(wrap_phase(scalar(0.99999994))), 0.99999994);
    assert_eq!(number(wrap_phase(scalar(1.0))), 0.0);
    assert_eq!(number(wrap_phase(scalar(1.25))), 0.25);
    assert_eq!(number(wrap_phase(scalar(1.5))), 0.5);
    assert_eq!(number(wrap_phase(scalar(2.0))), 0.0);
    assert_eq!(number(wrap_phase(scalar(3.75))), 0.75);
    assert_eq!(number(wrap_phase(scalar(1000.125))), 0.125);
    assert_eq!(number(wrap_phase(scalar(8388607.5))), 0.5);
    assert_eq!(number(wrap_phase(scalar(8388608.0))), 0.0);
    assert_eq!(number(wrap_phase(scalar(16777216.0))), 0.0);
    assert_eq!(number(wrap_phase(scalar(1.0e30))), 0.0);
    assert_eq!(number(wrap_phase(scalar(f32::MAX))), 0.0);
    assert_eq!(number(wrap_phase(scalar(1.0000001))), 1.0000001f32 - 1.0);
}

#[test]
fn wrap_of_sums_that_are_no_phase_starts_again() {
    for sum in [-0.25f32, -1.0, -1.0e30, f32::NEG_INFINITY, f32::INFINITY, f32::NAN, -f32::NAN] {
        let wrapped = wrap_phase(scalar(sum));
        assert_eq!(wrapped.to_bits(), 0, "{}", sum);
    }
    assert_eq!(wrap_phase(scalar(-0.0)).to_bits(), (-0.0f32).to_bits());
    assert_eq!(wrap_phase(scalar(f32::MIN_POSITIVE)).to_bits(), f32::MIN_POSITIVE.to_bits());
    assert_eq!(wrap_phase(Scalar::from_bits(1)).to_bits(), 1);
}

#[test]
fn wrap_agrees_with_the_machine() {
    let mut state: u32 = 0x2545_F491;
    let mut checked = 0;
    for round in 0..2_000_000u32 {
        state ^= state << 13;
        state ^= state >> 17;
        state ^= state << 5;
        // Every other pattern is drawn from the range where wrapping has work to do.
        let bits = if round % 2 == 0 { state } else { 0x3F00_0000 + state % 0x0D00_0000 };
        let sum = f32::from_bits(bits);
        let wrapped = wrap_phase(Scalar::from_bits(bits));
        assert_eq!(wrapped.to_bits(), expected_wrap(sum).to_bits(), "{:#x}", bits);
        let phase = number(wrapped);
        assert!(phase >= 0.0 && phase < 1.0, "{:#x}", bits);
        checked += 1;
    }
    assert_eq!(checked, 2_000_000);
}

#[test]
fn wrap_agrees_with_taking_one_off_again_and_again() {
    let mut sum = 0.0f32;
    while sum < 300.0 {
        let mut by_steps = sum;
        while by_steps >= 1.0 {
            by_steps -= 1.0;
        }
        assert_eq!(number(wrap_phase(scalar(sum))).to_bits(), by_steps.to_bits(), "{}", sum);
        sum += 0.013671875;
    }
}

#[test]
fn accumulator_starts_at_zero() {
    let accumulator = PhaseAccumulator::new();
    assert_eq!(accumulator.phase().to_bits(), 0);
    assert_eq!(accumulator.last_phase().to_bits(), 0);
}

#[test]
fn accumulator_remembers_the_phase_before_the_step() {
    let mut accumulator = PhaseAccumulator::new();
    accumulator.advance(scalar(0.25));
    assert_eq!(number(accumulator.phase()), 0.25);
    assert_eq!(number(accumulator.last_phase()), 0.0);
    accumulator.advance(scalar(0.75));
    assert_eq!(number(accumulator.phase()), 0.75);
    assert_eq!(number(accumulator.last_phase()), 0.25);
    accumulator.advance(scalar(1.25));
    assert_eq!(number(accumulator.phase()), 0.25);
    assert_eq!(number(accumulator.last_phase()), 0.75);
    accumulator.reset_phase();
    assert_eq!(number(accumulator.phase()), 0.0);
    assert_eq!(number(accumulator.last_phase()), 0.75);
}

#[test]
fn phase_stays_in_range_for_any_frequency() {
    for (frequency, sample_rate) in [
        (440.0f32, 44100.0f32),
        (30000.0, 44100.0),
        (44100.0, 44100.0),
        (1.0e9, 44100.0),
        (1.0e30, 1.0),
        (f32::MAX, f32::MIN_POSITIVE),
        (1.0e-30, 1.0e30),
        (0.001, 192000.0),
    ] {
        let mut accumulator = PhaseAccumulator::new();
        for _ in 0..5000 {
            step(&mut accumulator, frequency, sample_rate);
            let phase = number(accumulator.phase());
            assert!(phase >= 0.0 && phase < 1.0, "{} at {} Hz", phase, frequency);
        }
    }
}

#[test]
fn phase_comes_back_after_a_full_period() {
    // 44100 Hz sampling, 441 Hz signal: 100 steps a period.
    let mut accumulator = PhaseAccumulator::new();
    for _ in 0..100 {
        step(&mut accumulator, 441.0, 44100.0);
    }
    let phase = number(accumulator.phase());
    let distance = phase.min(1.0 - phase);
    assert!(distance < 1.0e-4, "{}", phase);
    // A quarter of the sample rate is exact: four steps a period.
    let mut accumulator = PhaseAccumulator::new();
    for round in 0..400 {
        step(&mut accumulator, 11025.0, 44100.0);
        assert_eq!(number(accumulator.phase()), ((round + 1) % 4) as f32 * 0.25);
    }
}
