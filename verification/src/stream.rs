//! What a run of samples leaves in the sampler and in the displayed buffer.
use vstd::prelude::*;
use crate::display::applied;
use crate::sampler::{
    Emission,
    NOISE_STRIDE,
    stride_for,
    target_len,
    thin,
    thinned_len,
    thinned_len_bounds,
    SamplerState,
    SNAPSHOT_POINTS,
};
use crate::waveform::Waveform;

verus! {

/// One sample as the sampler sees it.
pub struct Observation<T> {
    /// The output sample.
    pub sample: T,
    /// Whether the phase wrapped in the step that produced it.
    pub wrapped: bool,
    /// Number of samples in one period at that moment.
    pub period: nat,
    /// The waveform at that moment.
    pub waveform: Waveform,
}

/// The samples of a run, in order.
pub open spec fn samples_of<T>(run: Seq<Observation<T>>) -> Seq<T> {
    Seq::new(run.len(), |i: int| run[i].sample)
}

/// State of a sampler that started in `start` and saw `run`.
pub open spec fn state_after<T>(start: SamplerState<T>, run: Seq<Observation<T>>) -> SamplerState<T>
    decreases run.len(),
{
    if run.len() == 0 {
        start
    } else {
        let seen = run.last();
        state_after(start, run.drop_last()).next(
            seen.sample,
            seen.wrapped,
            seen.period,
            seen.waveform,
        )
    }
}

/// The displayed buffer after a sampler that started in `start` saw `run`,
/// when the buffer held `buffer` before and every update reached it.
pub open spec fn buffer_after<T>(
    start: SamplerState<T>,
    buffer: Seq<T>,
    run: Seq<Observation<T>>,
) -> Seq<T>
    decreases run.len(),
{
    if run.len() == 0 {
        buffer
    } else {
        let seen = run.last();
        applied(
            buffer_after(start, buffer, run.drop_last()),
            state_after(start, run.drop_last()).emits(
                seen.sample,
                seen.wrapped,
                seen.period,
                seen.waveform,
            ),
        )
    }
}

/// Whether every sample of the run belongs to a periodic waveform.
pub open spec fn all_periodic<T>(run: Seq<Observation<T>>) -> bool {
    forall|i: int| 0 <= i < run.len() ==> (#[trigger] run[i]).waveform != Waveform::Noise
}

/// Whether every sample of the run is noise.
pub open spec fn all_noise<T>(run: Seq<Observation<T>>) -> bool {
    forall|i: int| 0 <= i < run.len() ==> (#[trigger] run[i]).waveform == Waveform::Noise
}

/// What the sampler says of the sample at position `index` of a run.
pub open spec fn emission_at<T>(
    start: SamplerState<T>,
    run: Seq<Observation<T>>,
    index: int,
) -> Emission<T> {
    state_after(start, run.take(index)).emits(
        run[index].sample,
        run[index].wrapped,
        run[index].period,
        run[index].waveform,
    )
}

/// Of a run of noise, the sampler shows one sample in every
/// `NOISE_STRIDE`: it counts the samples round and round and shows those
/// at which the count stands at zero. A collection under way is left as
/// it is.
pub proof fn noise_shows_every_hundredth<T>(
    start: SamplerState<T>,
    run: Seq<Observation<T>>,
    index: int,
)
    requires
        all_noise(run),
        0 <= index < run.len(),
        start.noise_tick < NOISE_STRIDE,
    ensures
        state_after(start, run.take(index)).noise_tick == (start.noise_tick + index) % (
        NOISE_STRIDE as int),
        state_after(start, run.take(index)).collecting == start.collecting,
        state_after(start, run.take(index)).cycle == start.cycle,
        (start.noise_tick + index) % (NOISE_STRIDE as int) == 0 ==> emission_at(start, run, index)
            == Emission::Append(run[index].sample),
        (start.noise_tick + index) % (NOISE_STRIDE as int) != 0 ==> emission_at(start, run, index)
            == Emission::<T>::Nothing,
    decreases index,
{
    if index > 0 {
        noise_shows_every_hundredth(start, run, index - 1);
        let prefix = run.take(index);
        assert(prefix.drop_last() =~= run.take(index - 1));
        assert(prefix.last() == run[index - 1]);
    } else {
        assert(run.take(0).len() == 0);
    }
}

/// As long as no phase wrap is seen, a sampler that is not collecting stays
/// as it is and the displayed buffer keeps what it held.
pub proof fn no_wrap_keeps_buffer<T>(
    start: SamplerState<T>,
    buffer: Seq<T>,
    run: Seq<Observation<T>>,
)
    requires
        !start.collecting,
        all_periodic(run),
        forall|i: int| 0 <= i < run.len() ==> !(#[trigger] run[i]).wrapped,
    ensures
        state_after(start, run) == start,
        buffer_after(start, buffer, run) == buffer,
    decreases run.len(),
{
    if run.len() > 0 {
        let earlier = run.drop_last();
        assert(forall|i: int| 0 <= i < earlier.len() ==> earlier[i] == run[i]);
        no_wrap_keeps_buffer(start, buffer, earlier);
        assert(run.last() == run[run.len() - 1]);
    }
}

/// While a collection that began with the first sample of the run is still
/// short of three periods, it holds the samples seen so far and the
/// displayed buffer keeps what it held.
proof fn collection_under_way<T>(
    start: SamplerState<T>,
    buffer: Seq<T>,
    run: Seq<Observation<T>>,
    period: nat,
    seen: int,
)
    requires
        !start.collecting,
        all_periodic(run),
        forall|i: int| 0 <= i < run.len() ==> (#[trigger] run[i]).period == period,
        run.len() > 0 ==> run[0].wrapped,
        0 <= seen <= run.len(),
        seen < target_len(period),
    ensures
        buffer_after(start, buffer, run.take(seen)) == buffer,
        seen == 0 ==> state_after(start, run.take(seen)) == start,
        seen > 0 ==> state_after(start, run.take(seen)) == (SamplerState {
            collecting: true,
            cycle: samples_of(run).take(seen),
            noise_tick: start.noise_tick,
        }),
    decreases seen,
{
    let prefix = run.take(seen);
    if seen > 0 {
        collection_under_way(start, buffer, run, period, seen - 1);
        assert(prefix.drop_last() =~= run.take(seen - 1));
        assert(prefix.last() == run[seen - 1]);
        let before = state_after(start, run.take(seen - 1));
        let sample = run[seen - 1].sample;
        assert(before.gathered(sample) =~= samples_of(run).take(seen)) by {
            if seen == 1 {
                assert(before == start);
                assert(seq![sample] =~= samples_of(run).take(1));
            } else {
                assert(samples_of(run).take(seen - 1).push(sample) =~= samples_of(run).take(seen));
            }
        }
    }
}

/// After a phase wrap, a sampler that was not collecting overwrites the
/// displayed buffer exactly when three periods of samples are in, not
/// earlier, with every `stride_for(period)`-th of those samples. The
/// snapshot is not empty, and the sampler is then no longer collecting.
pub proof fn three_periods_give_snapshot<T>(
    start: SamplerState<T>,
    buffer: Seq<T>,
    run: Seq<Observation<T>>,
    period: nat,
)
    requires
        !start.collecting,
        period >= 1,
        run.len() == target_len(period),
        all_periodic(run),
        forall|i: int| 0 <= i < run.len() ==> (#[trigger] run[i]).period == period,
        run[0].wrapped,
    ensures
        forall|seen: int|
            0 <= seen < run.len() ==> #[trigger] buffer_after(start, buffer, run.take(seen))
                == buffer,
        buffer_after(start, buffer, run) == thin(samples_of(run), stride_for(period)),
        buffer_after(start, buffer, run).len() == thinned_len(target_len(period), stride_for(period)),
        buffer_after(start, buffer, run).len() > 0,
        !state_after(start, run).collecting,
{
    let total = run.len() as int;
    assert forall|seen: int| 0 <= seen < run.len() implies #[trigger] buffer_after(
        start,
        buffer,
        run.take(seen),
    ) == buffer by {
        collection_under_way(start, buffer, run, period, seen);
    }
    collection_under_way(start, buffer, run, period, total - 1);
    assert(run.drop_last() =~= run.take(total - 1));
    let before = state_after(start, run.take(total - 1));
    let sample = run[total - 1].sample;
    assert(run.last() == run[total - 1]);
    assert(before.gathered(sample) =~= samples_of(run)) by {
        if total == 1 {
            assert(before == start);
            assert(seq![sample] =~= samples_of(run));
        } else {
            assert(samples_of(run).take(total - 1).push(sample) =~= samples_of(run));
        }
    }
    thinned_len_bounds(target_len(period), stride_for(period));
}

/// A snapshot holds no more than `SNAPSHOT_POINTS` points when three
/// periods are no longer than that, or are a whole multiple of it.
pub proof fn snapshot_within_limit(period: nat)
    requires
        target_len(period) <= SNAPSHOT_POINTS || target_len(period) % (SNAPSHOT_POINTS as nat) == 0,
    ensures
        thinned_len(target_len(period), stride_for(period)) <= SNAPSHOT_POINTS,
{
    let total = target_len(period) as int;
    let stride = stride_for(period) as int;
    thinned_len_bounds(target_len(period), stride_for(period));
    if total > 300 {
        assert(total == 300 * (total / 300) + total % 300) by {
            vstd::arithmetic::div_mod::lemma_fundamental_div_mod(total, 300);
        }
        assert(stride == total / 300);
        // 300 * stride == total, so 300 strides cover everything
        let kept = thinned_len(target_len(period), stride_for(period)) as int;
        if kept > 300 {
            assert((kept - 1) * stride >= 300 * stride) by (nonlinear_arith)
                requires
                    kept - 1 >= 300,
                    stride >= 1,
            ;
        }
    }
}

/// A snapshot never holds twice `SNAPSHOT_POINTS` points or more.
pub proof fn snapshot_below_twice_limit(period: nat)
    ensures
        thinned_len(target_len(period), stride_for(period)) < 2 * SNAPSHOT_POINTS,
{
    let total = target_len(period) as int;
    let stride = stride_for(period) as int;
    thinned_len_bounds(target_len(period), stride_for(period));
    if total >= 600 {
        assert(total == 300 * (total / 300) + total % 300) by {
            vstd::arithmetic::div_mod::lemma_fundamental_div_mod(total, 300);
        }
        assert(0 <= total % 300 < 300);
        assert(stride == total / 300);
        assert(stride >= 2);
        let kept = thinned_len(target_len(period), stride_for(period)) as int;
        // total < 300 * (stride + 1) <= 600 * stride - 300 * (stride - 1)
        if kept >= 600 {
            assert((kept - 1) * stride >= 599 * stride) by (nonlinear_arith)
                requires
                    kept - 1 >= 599,
                    stride >= 1,
            ;
        }
    }
}

} // verus!
