use wavegen::scalar::Scalar;
use wavegen::synthesis::{
    select, smoothing_applies, smoothing_factor, square_naive, Generator, Harmonic, Options, Plan,
    Scale, Series,
};
use wavegen::waveform::Waveform;

fn scalar(value: f32) -> Scalar {
    Scalar::from_bits(value.to_bits())
}

fn number(value: Scalar) -> f32 {
    f32::from_bits(value.to_bits())
}

/// The sum of a series at a phase, as the generator forms it.
fn band_limited(series: Series, phase: f32, frequency: f32, sample_rate: f32) -> f32 {
    let mut sum = 0.0f32;
    let mut index = 1u32;
    while let Some(term) = series.audible_harmonic(index, scalar(frequency), scalar(sample_rate)) {
        let part = (2.0 * std::f32::consts::PI * phase * term.number as f32).sin()
            / term.divisor as f32;
        sum += if term.negative { -part } else { part };
        index += 1;
    }
    let scale = series.scale();
    sum * scale.numerator as f32 / std::f32::consts::PI.powi(scale.pi_power as i32)
}

#[test]
fn plain_generators_follow_the_waveform() {
    let (f, r) = (scalar(440.0), scalar(44100.0));
    assert_eq!(select(Waveform::Sine, false, f, r), Generator::Sine);
    assert_eq!(select(Waveform::Sawtooth, false, f, r), Generator::Sawtooth);
    assert_eq!(select(Waveform::Triangle, false, f, r), Generator::Triangle);
    assert_eq!(select(Waveform::Square, false, f, r), Generator::Square);
    assert_eq!(select(Waveform::Noise, false, f, r), Generator::Noise);
}

#[test]
fn band_limiting_picks_the_series() {
    let (f, r) = (scalar(440.0), scalar(44100.0));
    assert_eq!(select(Waveform::Sine, true, f, r), Generator::Sine);
    assert_eq!(select(Waveform::Sawtooth, true, f, r), Generator::Additive(Series::Sawtooth));
    assert_eq!(select(Waveform::Triangle, true, f, r), Generator::Additive(Series::Triangle));
    assert_eq!(select(Waveform::Square, true, f, r), Generator::Additive(Series::Square));
    assert_eq!(select(Waveform::Noise, true, f, r), Generator::Noise);
}

#[test]
fn band_limited_series_is_silent_without_positive_frequency_and_rate() {
    let rate = scalar(44100.0);
    for frequency in [0.0f32, -0.0, -440.0, f32::NEG_INFINITY, f32::INFINITY, f32::NAN] {
        for waveform in [Waveform::Sawtooth, Waveform::Triangle, Waveform::Square] {
            assert_eq!(select(waveform, true, scalar(frequency), rate), Generator::Silence);
            assert_ne!(select(waveform, false, scalar(frequency), rate), Generator::Silence);
        }
        assert_eq!(select(Waveform::Sine, true, scalar(frequency), rate), Generator::Sine);
        assert_eq!(select(Waveform::Noise, true, scalar(frequency), rate), Generator::Noise);
    }
    for rate in [0.0f32, -44100.0, f32::INFINITY, f32::NAN] {
        assert_eq!(
            select(Waveform::Square, true, scalar(440.0), scalar(rate)),
            Generator::Silence
        );
    }
    assert_eq!(
        select(Waveform::Square, true, scalar(f32::MIN_POSITIVE), scalar(f32::MAX)),
        Generator::Additive(Series::Square)
    );
}

#[test]
fn smoothing_is_skipped_for_noise() {
    assert!(smoothing_applies(true, Waveform::Sine));
    assert!(smoothing_applies(true, Waveform::Sawtooth));
    assert!(smoothing_applies(true, Waveform::Triangle));
    assert!(smoothing_applies(true, Waveform::Square));
    assert!(!smoothing_applies(true, Waveform::Noise));
    for waveform in [Waveform::Sine, Waveform::Square, Waveform::Noise] {
        assert!(!smoothing_applies(false, waveform));
    }
}

#[test]
fn series_limits() {
    assert_eq!(Series::Sawtooth.limit(), 64);
    assert_eq!(Series::Triangle.limit(), 32);
    assert_eq!(Series::Square.limit(), 32);
}

#[test]
fn sawtooth_terms() {
    assert_eq!(Series::Sawtooth.harmonic(0), None);
    assert_eq!(
        Series::Sawtooth.harmonic(1),
        Some(Harmonic { number: 1, divisor: 1, negative: false })
    );
    assert_eq!(
        Series::Sawtooth.harmonic(2),
        Some(Harmonic { number: 2, divisor: 2, negative: false })
    );
    assert_eq!(
        Series::Sawtooth.harmonic(64),
        Some(Harmonic { number: 64, divisor: 64, negative: false })
    );
    assert_eq!(Series::Sawtooth.harmonic(65), None);
    assert_eq!(Series::Sawtooth.harmonic(u32::MAX), None);
}

#[test]
fn triangle_terms() {
    assert_eq!(Series::Triangle.harmonic(0), None);
    assert_eq!(
        Series::Triangle.harmonic(1),
        Some(Harmonic { number: 1, divisor: 1, negative: false })
    );
    assert_eq!(
        Series::Triangle.harmonic(2),
        Some(Harmonic { number: 3, divisor: 9, negative: true })
    );
    assert_eq!(
        Series::Triangle.harmonic(3),
        Some(Harmonic { number: 5, divisor: 25, negative: false })
    );
    assert_eq!(
        Series::Triangle.harmonic(32),
        Some(Harmonic { number: 63, divisor: 3969, negative: true })
    );
    assert_eq!(Series::Triangle.harmonic(33), None);
}

#[test]
fn square_terms() {
    assert_eq!(Series::Square.harmonic(0), None);
    assert_eq!(
        Series::Square.harmonic(1),
        Some(Harmonic { number: 1, divisor: 1, negative: false })
    );
    assert_eq!(
        Series::Square.harmonic(2),
        Some(Harmonic { number: 3, divisor: 3, negative: false })
    );
    assert_eq!(
        Series::Square.harmonic(32),
        Some(Harmonic { number: 63, divisor: 63, negative: false })
    );
    assert_eq!(Series::Square.harmonic(33), None);
}

#[test]
fn plain_square_is_one_then_minus_one() {
    assert_eq!(number(square_naive(scalar(0.0))), 1.0);
    assert_eq!(number(square_naive(scalar(0.25))), 1.0);
    assert_eq!(number(square_naive(scalar(0.49999997))), 1.0);
    assert_eq!(number(square_naive(scalar(0.5))), -1.0);
    assert_eq!(number(square_naive(scalar(0.75))), -1.0);
    assert_eq!(number(square_naive(scalar(0.99999994))), -1.0);
    assert_eq!(number(square_naive(scalar(f32::NAN))), -1.0);
}

#[test]
fn band_limited_square_ripples_below_the_plain_one() {
    let plain = number(square_naive(scalar(0.25)));
    assert_eq!(plain, 1.0);
    let summed = band_limited(Series::Square, 0.25, 100.0, 44100.0);
    assert!(summed.abs() < 1.0, "{}", summed);
    assert!((-1.2..=1.2).contains(&summed));
    assert!((summed - 0.990).abs() < 0.002, "{}", summed);
}

#[test]
fn band_limited_series_stop_below_half_the_sample_rate() {
    // At 1 kHz and 8 kHz sampling the sawtooth keeps harmonics 1 to 4.
    assert_eq!(audible(Series::Sawtooth, 1000.0, 8000.0), 4);
    // The odd harmonics 1 and 3 stay at or below 4 kHz, 5 does not.
    assert_eq!(audible(Series::Square, 1000.0, 8000.0), 2);
    assert_eq!(audible(Series::Triangle, 1000.0, 8000.0), 2);
    // A harmonic exactly at half the sample rate is kept.
    assert_eq!(audible(Series::Sawtooth, 1000.0, 2000.0), 1);
    assert_eq!(audible(Series::Sawtooth, 1000.0, 1999.9999), 0);
    // Low notes are cut off by the limit of the series.
    assert_eq!(audible(Series::Sawtooth, 100.0, 44100.0), 64);
    assert_eq!(audible(Series::Triangle, 100.0, 44100.0), 32);
    assert_eq!(audible(Series::Square, 100.0, 44100.0), 32);
    assert_eq!(audible(Series::Sawtooth, 440.0, 44100.0), 50);
    assert_eq!(audible(Series::Square, 440.0, 44100.0), 25);
    // A triangle at a quarter period is at its peak.
    let peak = band_limited(Series::Triangle, 0.25, 100.0, 44100.0);
    assert!((peak - 1.0).abs() < 0.01, "{}", peak);
    // The summed sawtooth crosses zero in the middle of its period and
    // stands at one half a quarter period before.
    let middle = band_limited(Series::Sawtooth, 0.5, 100.0, 44100.0);
    assert!(middle.abs() < 0.01, "{}", middle);
    let quarter = band_limited(Series::Sawtooth, 0.25, 100.0, 44100.0);
    assert!((quarter - 0.5).abs() < 0.02, "{}", quarter);
}

#[test]
fn engine_starts_band_limited_and_unsmoothed() {
    let options = Options::new();
    assert!(options.band_limited);
    assert!(!options.smoothing);
}

#[test]
fn plan_joins_generator_and_smoothing() {
    let (f, r) = (scalar(440.0), scalar(44100.0));
    let plan = Options::new().plan(Waveform::Square, f, r);
    assert_eq!(plan, Plan { generator: Generator::Additive(Series::Square), smooth: false });
    let both = Options { band_limited: true, smoothing: true };
    assert_eq!(
        both.plan(Waveform::Triangle, f, r),
        Plan { generator: Generator::Additive(Series::Triangle), smooth: true }
    );
    assert_eq!(both.plan(Waveform::Noise, f, r), Plan { generator: Generator::Noise, smooth: false });
    assert_eq!(
        both.plan(Waveform::Sawtooth, scalar(0.0), r),
        Plan { generator: Generator::Silence, smooth: true }
    );
    let plain = Options { band_limited: false, smoothing: true };
    assert_eq!(
        plain.plan(Waveform::Sawtooth, scalar(0.0), r),
        Plan { generator: Generator::Sawtooth, smooth: true }
    );
    assert_eq!(plain.plan(Waveform::Sine, f, r), Plan { generator: Generator::Sine, smooth: true });
}

/// Number of terms that a series sums.
fn audible(series: Series, frequency: f32, sample_rate: f32) -> u32 {
    let mut index = 1u32;
    while series.audible_harmonic(index, scalar(frequency), scalar(sample_rate)).is_some() {
        index += 1;
    }
    index - 1
}

#[test]
fn audible_harmonics_are_those_at_or_below_half_the_sample_rate() {
    let frequencies = [
        0.0f32, -0.0, 1.0e-40, 1.0e-30, 0.5, 20.0, 100.0, 345.67, 440.0, 1102.5, 11025.0,
        22050.0, 22050.002, 44100.0, 1.0e9, f32::MAX, f32::INFINITY, -440.0, f32::NAN,
    ];
    let rates = [
        0.0f32, 1.0e-40, 1.0, 8000.0, 22050.0, 44100.0, 48000.0, 192000.0, 1.0e30,
        f32::INFINITY, -44100.0, f32::NAN,
    ];
    for series in [Series::Sawtooth, Series::Triangle, Series::Square] {
        for frequency in frequencies {
            for rate in rates {
                for index in 0..=70u32 {
                    let expected = match series.harmonic(index) {
                        Some(term)
                            if frequency > 0.0
                                && frequency.is_finite()
                                && rate > 0.0
                                && rate.is_finite()
                                && frequency as f64 * term.number as f64 <= rate as f64 / 2.0 =>
                        {
                            Some(term)
                        }
                        _ => None,
                    };
                    let got = series.audible_harmonic(index, scalar(frequency), scalar(rate));
                    assert_eq!(got, expected, "{:?} {} at {} Hz, {} Hz", series, index, frequency, rate);
                }
            }
        }
    }
}

#[test]
fn series_scales() {
    assert_eq!(Series::Sawtooth.scale(), Scale { numerator: 2, pi_power: 1 });
    assert_eq!(Series::Triangle.scale(), Scale { numerator: 8, pi_power: 2 });
    assert_eq!(Series::Square.scale(), Scale { numerator: 4, pi_power: 1 });
}

#[test]
fn smoothing_moves_a_tenth_of_the_way() {
    assert_eq!(number(smoothing_factor()), 0.1);
    let previous = 0.0f32;
    let raw = 1.0f32;
    let smoothed = previous + (raw - previous) * number(smoothing_factor());
    assert_eq!(smoothed, 0.1);
}
