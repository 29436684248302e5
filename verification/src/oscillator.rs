//! The oscillator around its arithmetic: what it keeps from sample to
//! sample, what it decides before a sample is worked out and what it does
//! once the sample is there.
use vstd::prelude::*;
use crate::params::Snapshot;
use crate::phase::{is_phase, wraps_to, PhaseAccumulator, PhaseState};
use crate::sampler::{
    period_of,
    spec_counted_period,
    spec_phase_wrapped,
    CycleSampler,
    SamplerState,
    Update,
};
use crate::scalar::Scalar;
use crate::synthesis::{Options, Plan};

verus! {

/// What an oscillator keeps from sample to sample.
pub struct OscillatorState<T> {
    /// Number of samples in a second.
    pub sample_rate: Scalar,
    /// The switches of the engine.
    pub options: Options,
    /// The phase now and one sample ago.
    pub phase: PhaseState,
    /// What the sampler for the display is in the middle of.
    pub sampler: SamplerState<T>,
}

/// The oscillator without its arithmetic. The caller hands the arithmetic
/// to [`Oscillator::next_sample`]; or it works out each sample as
/// [`Oscillator::plan`] says and hands it to [`Oscillator::finish_sample`]
/// together with the sum of the phase and its increment.
pub struct Oscillator<T> {
    sample_rate: Scalar,
    options: Options,
    phase: PhaseAccumulator,
    sampler: CycleSampler<T>,
}

impl<T> View for Oscillator<T> {
    type V = OscillatorState<T>;

    closed spec fn view(&self) -> OscillatorState<T> {
        OscillatorState {
            sample_rate: self.sample_rate,
            options: self.options,
            phase: self.phase@,
            sampler: self.sampler@,
        }
    }
}

impl<T: Copy> Oscillator<T> {
    /// An oscillator at the start of a period, with band-limiting on and
    /// smoothing off.
    pub fn new(sample_rate: Scalar) -> (r: Self)
        ensures
            r@.sample_rate == sample_rate,
            r@.options == Options::spec_new(),
            r@.phase.phase == Scalar::spec_zero(),
            r@.phase.last_phase == Scalar::spec_zero(),
            r@.sampler == SamplerState::<T>::idle(),
    {
        Oscillator {
            sample_rate,
            options: Options::new(),
            phase: PhaseAccumulator::new(),
            sampler: CycleSampler::new(),
        }
    }

    /// Number of samples in a second.
    pub fn sample_rate(&self) -> (r: Scalar)
        ensures
            r == self@.sample_rate,
    {
        self.sample_rate
    }

    /// The switches of the engine.
    pub fn options(&self) -> (r: Options)
        ensures
            r == self@.options,
    {
        self.options
    }

    /// Where in its period the signal stands: at least zero, below one.
    pub fn phase(&self) -> (r: Scalar)
        ensures
            r == self@.phase.phase,
            is_phase(r),
    {
        self.phase.phase()
    }

    /// Starts the period again: the phase becomes zero.
    pub fn reset_phase(&mut self)
        ensures
            final(self)@ == (OscillatorState {
                phase: PhaseState { phase: Scalar::spec_zero(), ..old(self)@.phase },
                ..old(self)@
            }),
    {
        self.phase.reset_phase();
    }

    /// Turns the blending of each sample towards the previous output on or
    /// off.
    pub fn set_interpolation(&mut self, enabled: bool)
        ensures
            final(self)@ == (OscillatorState {
                options: Options { smoothing: enabled, ..old(self)@.options },
                ..old(self)@
            }),
    {
        self.options.smoothing = enabled;
    }

    /// Chooses between the band-limited generators and the plain formulas.
    pub fn set_band_limited(&mut self, enabled: bool)
        ensures
            final(self)@ == (OscillatorState {
                options: Options { band_limited: enabled, ..old(self)@.options },
                ..old(self)@
            }),
    {
        self.options.band_limited = enabled;
    }

    /// What is to be done for the next sample under the given parameters.
    pub fn plan(&self, params: Snapshot) -> (r: Plan)
        ensures
            r == self@.options.spec_plan(params.waveform, params.frequency, self@.sample_rate),
    {
        self.options.plan(params.waveform, params.frequency, self.sample_rate)
    }

    /// Ends a sample. The output is shown to the sampler, with the phases
    /// as they stood while the sample was worked out; then the phase takes
    /// its step to what `sum`, the phase plus its increment, wraps to.
    /// Says what to do with the displayed buffer.
    pub fn finish_sample(&mut self, params: Snapshot, output: T, sum: Scalar) -> (r: Update<T>)
        ensures
            final(self)@.sample_rate == old(self)@.sample_rate,
            final(self)@.options == old(self)@.options,
            final(self)@.phase.last_phase == old(self)@.phase.phase,
            wraps_to(sum, final(self)@.phase.phase),
            is_phase(final(self)@.phase.phase),
            final(self)@.sampler == old(self)@.sampler.next(
                output,
                spec_phase_wrapped(old(self)@.phase.last_phase, old(self)@.phase.phase),
                spec_counted_period(old(self)@.sample_rate, params.frequency),
                params.waveform,
            ),
            r@ == old(self)@.sampler.emits(
                output,
                spec_phase_wrapped(old(self)@.phase.last_phase, old(self)@.phase.phase),
                spec_counted_period(old(self)@.sample_rate, params.frequency),
                params.waveform,
            ),
    {
        let period = period_of(self.sample_rate, params.frequency);
        let update = self.sampler.observe(
            output,
            self.phase.last_phase(),
            self.phase.phase(),
            period,
            params.waveform,
        );
        self.phase.advance(sum);
        update
    }

    /// Produces one sample. The arithmetic is the caller's: `synthesize`
    /// is told the plan for the sample and the phase, and gives back the
    /// output and the sum of the phase and its increment. The oscillator
    /// then ends the sample as [`Oscillator::finish_sample`] does. Gives
    /// the output and what to do with the displayed buffer.
    pub fn next_sample<F: FnOnce(Plan, Scalar) -> (T, Scalar)>(
        &mut self,
        params: Snapshot,
        synthesize: F,
    ) -> (r: (T, Update<T>))
        requires
            call_requires(
                synthesize,
                (
                    old(self)@.options.spec_plan(
                        params.waveform,
                        params.frequency,
                        old(self)@.sample_rate,
                    ),
                    old(self)@.phase.phase,
                ),
            ),
        ensures
            final(self)@.sample_rate == old(self)@.sample_rate,
            final(self)@.options == old(self)@.options,
            final(self)@.phase.last_phase == old(self)@.phase.phase,
            is_phase(final(self)@.phase.phase),
            exists|sum: Scalar|
                call_ensures(
                    synthesize,
                    (
                        old(self)@.options.spec_plan(
                            params.waveform,
                            params.frequency,
                            old(self)@.sample_rate,
                        ),
                        old(self)@.phase.phase,
                    ),
                    (r.0, sum),
                ) && wraps_to(sum, final(self)@.phase.phase),
            final(self)@.sampler == old(self)@.sampler.next(
                r.0,
                spec_phase_wrapped(old(self)@.phase.last_phase, old(self)@.phase.phase),
                spec_counted_period(old(self)@.sample_rate, params.frequency),
                params.waveform,
            ),
            r.1@ == old(self)@.sampler.emits(
                r.0,
                spec_phase_wrapped(old(self)@.phase.last_phase, old(self)@.phase.phase),
                spec_counted_period(old(self)@.sample_rate, params.frequency),
                params.waveform,
            ),
    {
        let plan = self.plan(params);
        let (output, sum) = synthesize(plan, self.phase.phase());
        let update = self.finish_sample(params, output, sum);
        (output, update)
    }
}

} // verus!
