//! Which generator produces a sample, and the harmonics that a
//! band-limited generator sums.
use vstd::prelude::*;
use crate::exact::scaled_le;
use crate::scalar::{positive_patterns, Scalar};
use crate::waveform::Waveform;

verus! {

/// Number of harmonics that a band-limited sawtooth sums at most.
pub const SAWTOOTH_HARMONICS: u32 = 64;

/// Number of harmonics that a band-limited triangle or square sums at most.
pub const ODD_HARMONICS: u32 = 32;

/// A waveform built by adding sine harmonics.
#[derive(Debug, Copy, Clone, PartialEq, Eq, Structural)]
pub enum Series {
    /// Every harmonic `n`, each divided by `n`.
    Sawtooth,
    /// The odd harmonics `n`, each divided by `n * n`, with alternating
    /// sign.
    Triangle,
    /// The odd harmonics `n`, each divided by `n`.
    Square,
}

/// One term of a series: the sine of `number` times the fundamental angle,
/// divided by `divisor`, subtracted where `negative` is set.
#[derive(Debug, Copy, Clone, PartialEq, Eq, Structural)]
pub struct Harmonic {
    /// Multiple of the fundamental frequency.
    pub number: u32,
    /// What the sine is divided by.
    pub divisor: u32,
    /// Whether the term is subtracted.
    pub negative: bool,
}

/// A factor written as a whole number over a power of pi.
#[derive(Debug, Copy, Clone, PartialEq, Eq, Structural)]
pub struct Scale {
    /// The number above the line.
    pub numerator: u32,
    /// How many times pi stands below the line.
    pub pi_power: u32,
}

/// Whether frequency and sample rate are both finite numbers above zero.
pub open spec fn spec_both_positive(frequency: Scalar, sample_rate: Scalar) -> bool {
    frequency.spec_is_positive() && sample_rate.spec_is_positive()
}

/// Whether the harmonic `number` of a signal stays within what the sample
/// rate can carry: frequency and sample rate are finite and above zero, and
/// `number` times the frequency is at most half the sample rate.
pub open spec fn spec_within_band(number: nat, frequency: Scalar, sample_rate: Scalar) -> bool {
    spec_both_positive(frequency, sample_rate) && 2 * number * frequency.units()
        <= sample_rate.units()
}

/// Whether frequency and sample rate are both finite numbers above zero.
pub fn both_positive(frequency: Scalar, sample_rate: Scalar) -> (r: bool)
    ensures
        r == spec_both_positive(frequency, sample_rate),
{
    frequency.is_positive() && sample_rate.is_positive()
}

/// Whether the harmonic `number` of a signal stays within what the sample
/// rate can carry.
fn within_band(number: u32, frequency: Scalar, sample_rate: Scalar) -> (r: bool)
    requires
        number <= SAWTOOTH_HARMONICS,
    ensures
        r == spec_within_band(number as nat, frequency, sample_rate),
{
    if !both_positive(frequency, sample_rate) {
        return false;
    }
    proof {
        positive_patterns(frequency);
        positive_patterns(sample_rate);
    }
    let digits = frequency.significand_bits() as u64;
    let twice: u64 = 2 * (number as u64);
    assert(twice * digits <= 128 * 0x0100_0000) by (nonlinear_arith)
        requires
            0 <= twice <= 128,
            0 <= digits < 0x0100_0000,
    ;
    let doubled: u64 = twice * digits;
    let ghost weight = vstd::arithmetic::power2::pow2(frequency.doublings()) as int;
    assert(doubled * weight == 2 * number * (digits * weight)) by (nonlinear_arith)
        requires
            doubled == (2 * number) * digits,
    ;
    scaled_le(
        doubled,
        frequency.doubling_count(),
        sample_rate.significand_bits() as u64,
        sample_rate.doubling_count(),
    )
}

impl Series {
    /// Number of terms that the series sums at most.
    pub open spec fn spec_limit(self) -> nat {
        match self {
            Series::Sawtooth => SAWTOOTH_HARMONICS as nat,
            Series::Triangle => ODD_HARMONICS as nat,
            Series::Square => ODD_HARMONICS as nat,
        }
    }

    /// Multiple of the fundamental that the term at `index` has. Terms
    /// are counted from 1.
    pub open spec fn spec_number(self, index: nat) -> nat {
        match self {
            Series::Sawtooth => index,
            Series::Triangle => (2 * index - 1) as nat,
            Series::Square => (2 * index - 1) as nat,
        }
    }

    /// The term at `index`, counted from 1.
    pub open spec fn spec_term(self, index: nat) -> Harmonic {
        let number = self.spec_number(index);
        match self {
            Series::Sawtooth => Harmonic {
                number: number as u32,
                divisor: number as u32,
                negative: false,
            },
            Series::Triangle => Harmonic {
                number: number as u32,
                divisor: (number * number) as u32,
                negative: index % 2 == 0,
            },
            Series::Square => Harmonic {
                number: number as u32,
                divisor: number as u32,
                negative: false,
            },
        }
    }

    /// The term at `index` where the series has one.
    pub open spec fn spec_harmonic(self, index: nat) -> Option<Harmonic> {
        if 1 <= index <= self.spec_limit() {
            Some(self.spec_term(index))
        } else {
            None
        }
    }

    /// The term at `index` where the series has one that a signal of the
    /// given frequency can carry at the given sample rate.
    pub open spec fn spec_audible_harmonic(
        self,
        index: nat,
        frequency: Scalar,
        sample_rate: Scalar,
    ) -> Option<Harmonic> {
        if 1 <= index <= self.spec_limit() && spec_within_band(
            self.spec_number(index),
            frequency,
            sample_rate,
        ) {
            Some(self.spec_term(index))
        } else {
            None
        }
    }

    /// What the sum of the series is multiplied by: 2/pi for the
    /// sawtooth, 8/pi^2 for the triangle, 4/pi for the square.
    pub open spec fn spec_scale(self) -> Scale {
        match self {
            Series::Sawtooth => Scale { numerator: 2, pi_power: 1 },
            Series::Triangle => Scale { numerator: 8, pi_power: 2 },
            Series::Square => Scale { numerator: 4, pi_power: 1 },
        }
    }

    /// Number of terms that the series sums at most.
    pub fn limit(self) -> (r: u32)
        ensures
            r == self.spec_limit(),
    {
        match self {
            Series::Sawtooth => SAWTOOTH_HARMONICS,
            Series::Triangle => ODD_HARMONICS,
            Series::Square => ODD_HARMONICS,
        }
    }

    /// The term at `index`, counted from 1, or `None` past the last term.
    pub fn harmonic(self, index: u32) -> (r: Option<Harmonic>)
        ensures
            r == self.spec_harmonic(index as nat),
    {
        if index < 1 || index > self.limit() {
            return None;
        }
        match self {
            Series::Sawtooth => Some(Harmonic { number: index, divisor: index, negative: false }),
            Series::Triangle => {
                let number: u32 = 2 * index - 1;
                assert(number * number <= 63 * 63) by (nonlinear_arith)
                    requires
                        0 <= number <= 63,
                ;
                Some(Harmonic { number, divisor: number * number, negative: index % 2 == 0 })
            },
            Series::Square => {
                let number: u32 = 2 * index - 1;
                Some(Harmonic { number, divisor: number, negative: false })
            },
        }
    }

    /// The term at `index`, counted from 1, if the series has one and a
    /// signal of the given frequency can carry it at the given sample
    /// rate.
    pub fn audible_harmonic(self, index: u32, frequency: Scalar, sample_rate: Scalar) -> (r: Option<
        Harmonic,
    >)
        ensures
            r == self.spec_audible_harmonic(index as nat, frequency, sample_rate),
    {
        match self.harmonic(index) {
            Some(term) => {
                if within_band(term.number, frequency, sample_rate) {
                    Some(term)
                } else {
                    None
                }
            },
            None => None,
        }
    }

    /// What the sum of the series is multiplied by, so that the waveform
    /// spans from -1 to 1.
    pub fn scale(self) -> (r: Scale)
        ensures
            r == self.spec_scale(),
    {
        match self {
            Series::Sawtooth => Scale { numerator: 2, pi_power: 1 },
            Series::Triangle => Scale { numerator: 8, pi_power: 2 },
            Series::Square => Scale { numerator: 4, pi_power: 1 },
        }
    }
}

/// How one raw sample is produced.
#[derive(Debug, Copy, Clone, PartialEq, Eq, Structural)]
pub enum Generator {
    /// The sample is zero.
    Silence,
    /// The sine of the phase.
    Sine,
    /// A ramp from -1 to 1 over the period.
    Sawtooth,
    /// A ramp up over the first half of the period and down over the
    /// second.
    Triangle,
    /// 1 over the first half of the period, -1 over the second.
    Square,
    /// A sum of sine harmonics below half the sample rate.
    Additive(Series),
    /// A random value between -1 and 1.
    Noise,
}

/// The series that stands for a waveform under band-limiting, if it has
/// one.
pub open spec fn spec_series_of(waveform: Waveform) -> Option<Series> {
    match waveform {
        Waveform::Sawtooth => Some(Series::Sawtooth),
        Waveform::Triangle => Some(Series::Triangle),
        Waveform::Square => Some(Series::Square),
        _ => None,
    }
}

/// The generator that follows the bare formula of a waveform.
pub open spec fn spec_plain(waveform: Waveform) -> Generator {
    match waveform {
        Waveform::Sine => Generator::Sine,
        Waveform::Sawtooth => Generator::Sawtooth,
        Waveform::Triangle => Generator::Triangle,
        Waveform::Square => Generator::Square,
        Waveform::Noise => Generator::Noise,
    }
}

/// The generator for one sample. With band-limiting on, a sawtooth,
/// triangle or square is summed from harmonics, and is silent unless
/// frequency and sample rate are both finite and above zero. Everything
/// else follows the bare formula of its waveform.
pub open spec fn spec_select(
    waveform: Waveform,
    band_limited: bool,
    frequency: Scalar,
    sample_rate: Scalar,
) -> Generator {
    match spec_series_of(waveform) {
        Some(series) if band_limited => {
            if spec_both_positive(frequency, sample_rate) {
                Generator::Additive(series)
            } else {
                Generator::Silence
            }
        },
        _ => spec_plain(waveform),
    }
}

/// The generator for one sample.
pub fn select(waveform: Waveform, band_limited: bool, frequency: Scalar, sample_rate: Scalar) -> (r:
    Generator)
    ensures
        r == spec_select(waveform, band_limited, frequency, sample_rate),
{
    let series = match waveform {
        Waveform::Sine => {
            return Generator::Sine;
        },
        Waveform::Noise => {
            return Generator::Noise;
        },
        Waveform::Sawtooth => Series::Sawtooth,
        Waveform::Triangle => Series::Triangle,
        Waveform::Square => Series::Square,
    };
    if !band_limited {
        match series {
            Series::Sawtooth => Generator::Sawtooth,
            Series::Triangle => Generator::Triangle,
            Series::Square => Generator::Square,
        }
    } else if both_positive(frequency, sample_rate) {
        Generator::Additive(series)
    } else {
        Generator::Silence
    }
}

/// The switches of the engine.
#[derive(Debug, Copy, Clone, PartialEq, Eq, Structural)]
pub struct Options {
    /// Whether sawtooth, triangle and square are summed from harmonics.
    pub band_limited: bool,
    /// Whether each sample is blended towards the previous output.
    pub smoothing: bool,
}

/// What is to be done for one sample.
#[derive(Debug, Copy, Clone, PartialEq, Eq, Structural)]
pub struct Plan {
    /// How the raw sample is produced.
    pub generator: Generator,
    /// Whether the raw sample is blended towards the previous output.
    pub smooth: bool,
}

impl Options {
    /// The switches that an engine starts with: band-limiting on,
    /// smoothing off.
    pub open spec fn spec_new() -> Options {
        Options { band_limited: true, smoothing: false }
    }

    /// What is to be done for one sample under these switches.
    pub open spec fn spec_plan(self, waveform: Waveform, frequency: Scalar, sample_rate: Scalar) -> Plan {
        Plan {
            generator: spec_select(waveform, self.band_limited, frequency, sample_rate),
            smooth: spec_smoothing_applies(self.smoothing, waveform),
        }
    }

    /// The switches that an engine starts with.
    pub fn new() -> (r: Options)
        ensures
            r == Options::spec_new(),
    {
        Options { band_limited: true, smoothing: false }
    }

    /// What is to be done for one sample under these switches.
    pub fn plan(self, waveform: Waveform, frequency: Scalar, sample_rate: Scalar) -> (r: Plan)
        ensures
            r == self.spec_plan(waveform, frequency, sample_rate),
    {
        Plan {
            generator: select(waveform, self.band_limited, frequency, sample_rate),
            smooth: smoothing_applies(self.smoothing, waveform),
        }
    }
}

/// Pattern of the single-precision number nearest to one tenth.
pub const TENTH_BITS: u32 = 0x3DCC_CCCD;

/// How far a raw sample moves the output when it is blended towards the
/// previous output: one tenth of the way.
pub open spec fn spec_smoothing_factor() -> Scalar {
    Scalar { bits: TENTH_BITS }
}

/// How far a raw sample moves the output when it is blended towards the
/// previous output.
pub fn smoothing_factor() -> (r: Scalar)
    ensures
        r == spec_smoothing_factor(),
{
    Scalar { bits: TENTH_BITS }
}

/// The smoothing factor is the single-precision number nearest to one
/// tenth. Its neighbours stand 2^122 units from it, and ten times the
/// factor misses one by less than ten times half that distance.
pub proof fn smoothing_factor_is_a_tenth()
    ensures
        spec_smoothing_factor().spec_is_positive(),
        spec_smoothing_factor().units() == 0xCC_CCCD * vstd::arithmetic::power2::pow2(122),
        -5 * vstd::arithmetic::power2::pow2(122) < 10 * spec_smoothing_factor().units()
            - Scalar::spec_one().units() < 5 * vstd::arithmetic::power2::pow2(122),
{
    let factor = spec_smoothing_factor();
    let weight = vstd::arithmetic::power2::pow2(122) as int;
    crate::scalar::constants_encode_their_numbers();
    vstd::arithmetic::power2::lemma2_to64();
    vstd::arithmetic::power2::lemma_pow2_adds(27, 122);
    assert(factor.exponent() == 123);
    assert(factor.fraction() == 0x4C_CCCD);
    assert(factor.significand() == 0xCC_CCCD);
    vstd::arithmetic::power2::lemma_pow2_pos(122);
    assert(10 * (0xCC_CCCD * weight) - 0x800_0000 * weight == 2 * weight) by (nonlinear_arith);
}

/// Whether a raw sample is blended towards the previous output: smoothing
/// is on and the waveform is not noise.
pub open spec fn spec_smoothing_applies(enabled: bool, waveform: Waveform) -> bool {
    enabled && waveform != Waveform::Noise
}

/// Whether a raw sample is blended towards the previous output.
pub fn smoothing_applies(enabled: bool, waveform: Waveform) -> (r: bool)
    ensures
        r == spec_smoothing_applies(enabled, waveform),
{
    enabled && waveform != Waveform::Noise
}

/// The plain square wave: one while the phase is below one half, minus one
/// from there on.
pub open spec fn spec_square_naive(phase: Scalar) -> Scalar {
    if phase.spec_lt(Scalar::spec_half()) {
        Scalar::spec_one()
    } else {
        Scalar::spec_minus_one()
    }
}

/// The plain square wave at the given phase.
pub fn square_naive(phase: Scalar) -> (r: Scalar)
    ensures
        r == spec_square_naive(phase),
{
    if phase.lt(Scalar::half()) {
        Scalar::one()
    } else {
        Scalar::minus_one()
    }
}

/// Every term of a series carries an odd multiple of the fundamental,
/// except in the sawtooth, and no divisor is zero.
pub proof fn harmonics_are_well_formed(series: Series, index: nat)
    requires
        1 <= index <= series.spec_limit(),
    ensures
        series.spec_term(index).number == series.spec_number(index),
        series.spec_term(index).divisor >= 1,
        series != Series::Sawtooth ==> series.spec_term(index).number % 2 == 1,
        series == Series::Triangle ==> series.spec_term(index).divisor == series.spec_number(index)
            * series.spec_number(index),
        series != Series::Triangle ==> series.spec_term(index).divisor == series.spec_number(index),
        series.spec_term(index).negative == (series == Series::Triangle && index % 2 == 0),
{
    let number = series.spec_number(index);
    assert(1 <= number <= 64);
    assert(1 <= number * number <= 64 * 64) by (nonlinear_arith)
        requires
            1 <= number <= 64,
    ;
}

/// The harmonics that a signal can carry are the first ones of its series:
/// where the term at one index is within the band, so is every term before
/// it.
pub proof fn audible_harmonics_come_first(
    series: Series,
    earlier: nat,
    later: nat,
    frequency: Scalar,
    sample_rate: Scalar,
)
    requires
        1 <= earlier <= later,
        series.spec_audible_harmonic(later, frequency, sample_rate) is Some,
    ensures
        series.spec_audible_harmonic(earlier, frequency, sample_rate) is Some,
{
    positive_patterns(frequency);
    let low = series.spec_number(earlier) as int;
    let high = series.spec_number(later) as int;
    let step = frequency.units();
    assert(low <= high);
    assert(2 * low * step <= 2 * high * step) by (nonlinear_arith)
        requires
            0 <= low <= high,
            step > 0,
    ;
}

} // verus!
