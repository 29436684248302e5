//! The sampler that watches the output stream and, every few periods,
//! hands out a thinned copy of what it saw.
use vstd::prelude::*;
use crate::exact::rounded_quotient;
use crate::scalar::{positive_patterns, Scalar};
use crate::waveform::Waveform;

verus! {

/// Number of periods that make one snapshot.
pub const PERIODS_PER_SNAPSHOT: usize = 3;

/// Number of points that a snapshot aims at.
pub const SNAPSHOT_POINTS: usize = 300;

/// Every how many noise samples one is shown.
pub const NOISE_STRIDE: usize = 100;

/// Whether the phase went round between two samples: it stood above one
/// half before and stands below one half now.
pub open spec fn spec_phase_wrapped(last_phase: Scalar, phase: Scalar) -> bool {
    Scalar::spec_half().spec_lt(last_phase) && phase.spec_lt(Scalar::spec_half())
}

/// Whether the phase went round between two samples.
pub fn phase_wrapped(last_phase: Scalar, phase: Scalar) -> (r: bool)
    ensures
        r == spec_phase_wrapped(last_phase, phase),
{
    Scalar::half().lt(last_phase) && phase.lt(Scalar::half())
}

/// Number of samples in one period: the sample rate divided by the
/// frequency, rounded to the nearest whole number, halves upwards. Unless
/// both are finite numbers above zero, it is 0.
pub open spec fn spec_period(sample_rate: Scalar, frequency: Scalar) -> int {
    if sample_rate.spec_is_positive() && frequency.spec_is_positive() {
        (2 * sample_rate.units() + frequency.units()) / (2 * frequency.units())
    } else {
        0
    }
}

/// Number of samples in one period as the machine counts it: no more than
/// `usize::MAX`.
pub open spec fn spec_counted_period(sample_rate: Scalar, frequency: Scalar) -> nat {
    if spec_period(sample_rate, frequency) > usize::MAX {
        usize::MAX as nat
    } else {
        spec_period(sample_rate, frequency) as nat
    }
}

/// Number of samples in one period, or `usize::MAX` if that is less.
pub fn period_of(sample_rate: Scalar, frequency: Scalar) -> (r: usize)
    ensures
        r == spec_counted_period(sample_rate, frequency),
{
    if !(sample_rate.is_positive() && frequency.is_positive()) {
        return 0;
    }
    proof {
        positive_patterns(sample_rate);
        positive_patterns(frequency);
    }
    rounded_quotient(
        sample_rate.significand_bits(),
        sample_rate.doubling_count(),
        frequency.significand_bits(),
        frequency.doubling_count(),
    )
}

/// Where the sample rate is a whole multiple of the frequency, the period
/// is that multiple; and in any case the period times the frequency is no
/// further from the sample rate than half the frequency.
pub proof fn period_is_the_nearest_whole_ratio(sample_rate: Scalar, frequency: Scalar, ratio: nat)
    requires
        sample_rate.spec_is_positive(),
        frequency.spec_is_positive(),
    ensures
        sample_rate.units() == ratio * frequency.units() ==> spec_period(sample_rate, frequency)
            == ratio,
        2 * spec_period(sample_rate, frequency) * frequency.units() <= 2 * sample_rate.units()
            + frequency.units(),
        2 * sample_rate.units() - frequency.units() < 2 * spec_period(sample_rate, frequency)
            * frequency.units(),
{
    positive_patterns(sample_rate);
    positive_patterns(frequency);
    let step = frequency.units();
    let above = 2 * sample_rate.units() + step;
    let below = 2 * step;
    let period = above / below;
    vstd::arithmetic::div_mod::lemma_fundamental_div_mod(above, below);
    vstd::arithmetic::div_mod::lemma_mod_pos_bound(above, below);
    assert(below * period == 2 * period * step) by (nonlinear_arith)
        requires
            below == 2 * step,
    ;
    if sample_rate.units() == ratio * step {
        assert(above == (ratio as int) * below + step) by (nonlinear_arith)
            requires
                above == 2 * (ratio * step) + step,
                below == 2 * step,
        ;
        vstd::arithmetic::div_mod::lemma_fundamental_div_mod_converse(
            above,
            below,
            ratio as int,
            step,
        );
    }
}

/// Number of samples that a snapshot is collected from.
pub open spec fn target_len(period: nat) -> nat {
    PERIODS_PER_SNAPSHOT as nat * period
}

/// Distance between the samples that a snapshot keeps.
pub open spec fn stride_for(period: nat) -> nat {
    if target_len(period) / (SNAPSHOT_POINTS as nat) >= 1 {
        target_len(period) / (SNAPSHOT_POINTS as nat)
    } else {
        1
    }
}

/// Number of samples kept when every `stride`-th of `len` is taken,
/// starting with the first.
pub open spec fn thinned_len(len: nat, stride: nat) -> nat
    recommends
        stride >= 1,
{
    ((len + stride - 1) / (stride as int)) as nat
}

/// Every `stride`-th sample of `samples`, starting with the first.
pub open spec fn thin<T>(samples: Seq<T>, stride: nat) -> Seq<T>
    recommends
        stride >= 1,
{
    Seq::new(thinned_len(samples.len(), stride), |i: int| samples[i * stride])
}

/// Thinning keeps at least the first sample of a sequence that has one, no
/// more samples than there were, and as many as it takes to come within
/// one stride of the end.
pub proof fn thinned_len_bounds(len: nat, stride: nat)
    requires
        stride >= 1,
    ensures
        len > 0 ==> thinned_len(len, stride) >= 1,
        thinned_len(len, stride) <= len,
        thinned_len(len, stride) * stride >= len,
        len > 0 ==> (thinned_len(len, stride) - 1) * stride < len,
        len == 0 ==> thinned_len(len, stride) == 0,
{
    let n = len + stride - 1;
    let q = n / (stride as int);
    assert(n == stride * q + n % (stride as int)) by {
        vstd::arithmetic::div_mod::lemma_fundamental_div_mod(n, stride as int);
    }
    assert(0 <= n % (stride as int) < stride) by {
        vstd::arithmetic::div_mod::lemma_mod_pos_bound(n, stride as int);
    }
    assert(q >= 0) by {
        vstd::arithmetic::div_mod::lemma_div_pos_is_pos(n, stride as int);
    }
    assert(q * stride == stride * q) by (nonlinear_arith);
    assert((q - 1) * stride == q * stride - stride) by (nonlinear_arith);
    if q > len {
        assert(stride * q >= stride * (len + 1)) by (nonlinear_arith)
            requires
                q >= len + 1,
                stride >= 1,
        ;
        assert(stride * (len + 1) >= len + 1 + (stride - 1)) by (nonlinear_arith)
            requires
                stride >= 1,
        ;
    }
    if len > 0 && q < 1 {
        assert(stride * q == 0) by (nonlinear_arith)
            requires
                q == 0,
        ;
    }
}

/// Thinning keeps every sample whose position is a multiple of the
/// stride: the sample at such a position `index` stands at position
/// `index / stride` of what is kept.
pub proof fn thin_keeps_multiples<T>(samples: Seq<T>, stride: nat, index: int)
    requires
        stride >= 1,
        0 <= index < samples.len(),
        index % (stride as int) == 0,
    ensures
        0 <= index / (stride as int) < thin(samples, stride).len(),
        thin(samples, stride)[index / (stride as int)] == samples[index],
{
    let step = stride as int;
    let count = thinned_len(samples.len(), stride) as int;
    let place = index / step;
    thinned_len_bounds(samples.len(), stride);
    assert(index == step * place + index % step) by {
        vstd::arithmetic::div_mod::lemma_fundamental_div_mod(index, step);
    }
    assert(place >= 0) by {
        vstd::arithmetic::div_mod::lemma_div_pos_is_pos(index, step);
    }
    assert(place * step == step * place) by (nonlinear_arith);
    if place >= count {
        assert(place * step >= count * step) by (nonlinear_arith)
            requires
                place >= count,
                step >= 1,
        ;
    }
}

/// Thinning keeps nothing else: what stands at position `kept` of the
/// result is the sample at position `kept * stride`, a multiple of the
/// stride.
pub proof fn thin_keeps_only_multiples<T>(samples: Seq<T>, stride: nat, kept: int)
    requires
        stride >= 1,
        0 <= kept < thin(samples, stride).len(),
    ensures
        0 <= kept * stride < samples.len(),
        (kept * stride) % (stride as int) == 0,
        thin(samples, stride)[kept] == samples[kept * stride],
{
    let step = stride as int;
    let count = thinned_len(samples.len(), stride) as int;
    thinned_len_bounds(samples.len(), stride);
    assert(kept * step <= (count - 1) * step) by (nonlinear_arith)
        requires
            kept <= count - 1,
            step >= 1,
    ;
    assert(0 <= kept * step) by (nonlinear_arith)
        requires
            kept >= 0,
            step >= 1,
    ;
    vstd::arithmetic::div_mod::lemma_mod_multiples_basic(kept, step);
}

/// Copies every `stride`-th sample of `samples`, starting with the first.
pub fn thin_samples<T: Copy>(samples: &Vec<T>, stride: usize) -> (r: Vec<T>)
    requires
        stride >= 1,
    ensures
        r@ == thin(samples@, stride as nat),
{
    let mut kept: Vec<T> = Vec::new();
    let len = samples.len();
    let mut index: usize = 0;
    proof {
        thinned_len_bounds(len as nat, stride as nat);
        let none = kept@.len() as int;
        assert(none * stride == 0) by (nonlinear_arith)
            requires
                none == 0,
        ;
    }
    while index < len
        invariant
            stride >= 1,
            len == samples@.len(),
            index == kept@.len() * stride || (index == len && kept@.len() * stride >= len),
            kept@.len() <= thinned_len(len as nat, stride as nat),
            index >= len ==> kept@.len() == thinned_len(len as nat, stride as nat),
            forall|i: int| 0 <= i < kept@.len() ==> kept@[i] == samples@[i * stride],
        decreases len - index,
    {
        proof {
            thinned_len_bounds(len as nat, stride as nat);
            let k = kept@.len() as int;
            let n = thinned_len(len as nat, stride as nat) as int;
            // index == k * stride < len <= n * stride, so k < n
            if k >= n {
                assert(k * stride >= n * stride) by (nonlinear_arith)
                    requires
                        k >= n,
                        stride >= 1,
                ;
            }
        }
        kept.push(samples[index]);
        let ghost k = kept@.len() as int;
        proof {
            thinned_len_bounds(len as nat, stride as nat);
            assert(k * stride == (k - 1) * stride + stride) by (nonlinear_arith);
        }
        if stride >= len - index {
            proof {
                let n = thinned_len(len as nat, stride as nat) as int;
                // k * stride >= len, and (n - 1) * stride < len, so k > n - 1
                if k < n {
                    assert(k * stride <= (n - 1) * stride) by (nonlinear_arith)
                        requires
                            k <= n - 1,
                            stride >= 1,
                    ;
                }
            }
            index = len;
        } else {
            index = index + stride;
        }
    }
    proof {
        assert(kept@ =~= thin(samples@, stride as nat));
    }
    kept
}

/// What the sampler is in the middle of.
pub struct SamplerState<T> {
    /// Whether samples are being gathered for the next snapshot.
    pub collecting: bool,
    /// The samples gathered so far; empty while not collecting.
    pub cycle: Seq<T>,
    /// Position within the current run of `NOISE_STRIDE` noise samples.
    pub noise_tick: nat,
}

/// What one observed sample changes in the displayed buffer.
pub enum Emission<T> {
    /// The buffer stays as it is.
    Nothing,
    /// The buffer is overwritten with a new snapshot.
    Replace(Seq<T>),
    /// One sample is added at the end of the buffer.
    Append(T),
}

/// What the sampler asks its caller to do with the displayed buffer.
pub enum Update<T> {
    /// Leave the buffer as it is.
    Nothing,
    /// Overwrite the buffer with this snapshot.
    Replace(Vec<T>),
    /// Add this sample at the end of the buffer.
    Append(T),
}

impl<T> View for Update<T> {
    type V = Emission<T>;

    open spec fn view(&self) -> Emission<T> {
        match self {
            Update::Nothing => Emission::Nothing,
            Update::Replace(points) => Emission::Replace(points@),
            Update::Append(sample) => Emission::Append(*sample),
        }
    }
}

impl<T> SamplerState<T> {
    /// The state of a sampler that has seen nothing yet.
    pub open spec fn idle() -> SamplerState<T> {
        SamplerState { collecting: false, cycle: Seq::empty(), noise_tick: 0 }
    }

    /// Samples gathered once `sample` is taken in: it joins a collection
    /// under way, or starts a new one.
    pub open spec fn gathered(self, sample: T) -> Seq<T> {
        if self.collecting {
            self.cycle.push(sample)
        } else {
            seq![sample]
        }
    }

    /// State after one sample. Noise leaves the collection alone and moves
    /// the tick on. Any other waveform gathers the sample if a collection is
    /// under way or the phase has just wrapped, and ends the collection
    /// once three periods are in.
    pub open spec fn next(self, sample: T, wrapped: bool, period: nat, waveform: Waveform) -> SamplerState<T> {
        if waveform == Waveform::Noise {
            SamplerState {
                collecting: self.collecting,
                cycle: self.cycle,
                noise_tick: (self.noise_tick + 1) % (NOISE_STRIDE as nat),
            }
        } else if self.collecting || wrapped {
            if self.gathered(sample).len() >= target_len(period) {
                SamplerState { collecting: false, cycle: Seq::empty(), noise_tick: self.noise_tick }
            } else {
                SamplerState {
                    collecting: true,
                    cycle: self.gathered(sample),
                    noise_tick: self.noise_tick,
                }
            }
        } else {
            self
        }
    }

    /// What one sample changes in the displayed buffer. Noise adds the
    /// first sample of every run of `NOISE_STRIDE`. Any other waveform
    /// overwrites the buffer with a thinned copy of the collection at the
    /// moment three periods are in.
    pub open spec fn emits(self, sample: T, wrapped: bool, period: nat, waveform: Waveform) -> Emission<T> {
        if waveform == Waveform::Noise {
            if self.noise_tick == 0 {
                Emission::Append(sample)
            } else {
                Emission::Nothing
            }
        } else if (self.collecting || wrapped) && self.gathered(sample).len() >= target_len(period) {
            Emission::Replace(thin(self.gathered(sample), stride_for(period)))
        } else {
            Emission::Nothing
        }
    }
}

/// Watches the output stream one sample at a time.
pub struct CycleSampler<T> {
    collecting: bool,
    cycle: Vec<T>,
    noise_tick: usize,
}

impl<T> CycleSampler<T> {
    /// What the sampler is in the middle of.
    pub closed spec fn view(self) -> SamplerState<T> {
        SamplerState {
            collecting: self.collecting,
            cycle: if self.collecting {
                self.cycle@
            } else {
                Seq::empty()
            },
            noise_tick: (self.noise_tick % NOISE_STRIDE) as nat,
        }
    }
}

impl<T: Copy> CycleSampler<T> {
    /// A sampler that has seen nothing yet.
    pub fn new() -> (r: Self)
        ensures
            r@ == SamplerState::<T>::idle(),
    {
        CycleSampler { collecting: false, cycle: Vec::new(), noise_tick: 0 }
    }

    /// Whether samples are being gathered for the next snapshot.
    pub fn is_collecting(&self) -> (r: bool)
        ensures
            r == self@.collecting,
    {
        self.collecting
    }

    /// Takes in one output sample, with the phase before and after the
    /// step that produced it and the number of samples in one period, and
    /// says what to do with the displayed buffer.
    pub fn observe(
        &mut self,
        sample: T,
        last_phase: Scalar,
        phase: Scalar,
        period: usize,
        waveform: Waveform,
    ) -> (r: Update<T>)
        ensures
            final(self)@ == old(self)@.next(
                sample,
                spec_phase_wrapped(last_phase, phase),
                period as nat,
                waveform,
            ),
            r@ == old(self)@.emits(
                sample,
                spec_phase_wrapped(last_phase, phase),
                period as nat,
                waveform,
            ),
    {
        let ghost pre = self@;
        let ghost wrapped_spec = spec_phase_wrapped(last_phase, phase);
        if waveform == Waveform::Noise {
            let tick = self.noise_tick % NOISE_STRIDE;
            let due = tick == 0;
            self.noise_tick = if tick + 1 == NOISE_STRIDE {
                0
            } else {
                tick + 1
            };
            assert(self@ == pre.next(sample, wrapped_spec, period as nat, waveform));
            if due {
                Update::Append(sample)
            } else {
                Update::Nothing
            }
        } else {
            let wrapped = phase_wrapped(last_phase, phase);
            if !self.collecting {
                if !wrapped {
                    return Update::Nothing;
                }
                self.cycle.clear();
                self.collecting = true;
            }
            self.cycle.push(sample);
            assert(self.cycle@ =~= pre.gathered(sample));
            let gathered = self.cycle.len();
            match period.checked_mul(PERIODS_PER_SNAPSHOT) {
                Some(target) => {
                    assert(target == target_len(period as nat));
                    if gathered >= target {
                        let stride = if target / SNAPSHOT_POINTS >= 1 {
                            target / SNAPSHOT_POINTS
                        } else {
                            1
                        };
                        assert(stride == stride_for(period as nat));
                        let points = thin_samples(&self.cycle, stride);
                        self.collecting = false;
                        assert(self@ == pre.next(sample, wrapped_spec, period as nat, waveform));
                        Update::Replace(points)
                    } else {
                        assert(self@ == pre.next(sample, wrapped_spec, period as nat, waveform));
                        Update::Nothing
                    }
                },
                None => {
                    assert(gathered < target_len(period as nat));
                    assert(self@ == pre.next(sample, wrapped_spec, period as nat, waveform));
                    Update::Nothing
                },
            }
        }
    }
}

} // verus!
