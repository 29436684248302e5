//! The buffer that the display reads: a recent picture of the waveform.
use vstd::prelude::*;
use crate::sampler::{Emission, Update};
use crate::waveform::Waveform;

verus! {

/// Length above which the rolling window of noise samples is cut back.
pub const WINDOW_LIMIT: usize = 300;

/// Number of the oldest samples that a cut removes.
pub const WINDOW_CUT: usize = 100;

/// Number of points below which nothing can be drawn.
pub const MIN_PLOT_POINTS: usize = 2;

/// Number of points below which a periodic waveform is drawn through
/// interpolated points.
pub const SPARSE_POINTS: usize = 50;

/// Number of points that the interpolated curve of a sparse buffer is
/// drawn through.
pub const INTERPOLATED_POINTS: usize = 200;

/// A window that has grown past `WINDOW_LIMIT` loses its `WINDOW_CUT`
/// oldest samples; a shorter one stays whole.
pub open spec fn rolled<T>(samples: Seq<T>) -> Seq<T> {
    if samples.len() > WINDOW_LIMIT {
        samples.skip(WINDOW_CUT as int)
    } else {
        samples
    }
}

/// The buffer after one emission of the sampler.
pub open spec fn applied<T>(samples: Seq<T>, emission: Emission<T>) -> Seq<T> {
    match emission {
        Emission::Nothing => samples,
        Emission::Replace(points) => points,
        Emission::Append(sample) => rolled(samples.push(sample)),
    }
}

/// How the display shows a buffer.
#[derive(Debug, Copy, Clone, PartialEq, Eq, Structural)]
pub enum PlotMode {
    /// Too few points: a placeholder is shown.
    Waiting,
    /// Few points of a periodic waveform: a curve through interpolated
    /// points is shown.
    Interpolated,
    /// The points are drawn as they are.
    Direct,
}

/// How a buffer of `len` points of the given waveform is shown.
pub open spec fn spec_plot_mode(len: nat, waveform: Waveform) -> PlotMode {
    if len < MIN_PLOT_POINTS {
        PlotMode::Waiting
    } else if len < SPARSE_POINTS && waveform != Waveform::Noise {
        PlotMode::Interpolated
    } else {
        PlotMode::Direct
    }
}

/// The samples that the display reads, oldest first.
pub struct VisualizationBuffer<T> {
    samples: Vec<T>,
}

impl<T> View for VisualizationBuffer<T> {
    type V = Seq<T>;

    closed spec fn view(&self) -> Seq<T> {
        self.samples@
    }
}

impl<T> VisualizationBuffer<T> {
    /// An empty buffer.
    pub fn new() -> (r: Self)
        ensures
            r@ == Seq::<T>::empty(),
    {
        VisualizationBuffer { samples: Vec::new() }
    }

    /// Number of samples in the buffer.
    pub fn len(&self) -> (r: usize)
        ensures
            r == self@.len(),
    {
        self.samples.len()
    }

    /// The samples, oldest first.
    pub fn samples(&self) -> (r: &Vec<T>)
        ensures
            r@ == self@,
    {
        &self.samples
    }

    /// Overwrites the buffer with a new snapshot.
    pub fn replace(&mut self, points: Vec<T>)
        ensures
            final(self)@ == points@,
    {
        self.samples = points;
    }

    /// Adds one sample at the end and cuts the window back if it has grown
    /// too long.
    pub fn push_rolling(&mut self, sample: T)
        ensures
            final(self)@ == rolled(old(self)@.push(sample)),
    {
        self.samples.push(sample);
        if self.samples.len() > WINDOW_LIMIT {
            let kept = self.samples.split_off(WINDOW_CUT);
            self.samples = kept;
        }
    }

    /// Carries out what the sampler asked for.
    pub fn apply(&mut self, update: Update<T>)
        ensures
            final(self)@ == applied(old(self)@, update@),
    {
        match update {
            Update::Nothing => {},
            Update::Replace(points) => self.replace(points),
            Update::Append(sample) => self.push_rolling(sample),
        }
    }

    /// How the display shows the buffer for the given waveform.
    pub fn plot_mode(&self, waveform: Waveform) -> (r: PlotMode)
        ensures
            r == spec_plot_mode(self@.len(), waveform),
    {
        let len = self.samples.len();
        if len < MIN_PLOT_POINTS {
            PlotMode::Waiting
        } else if len < SPARSE_POINTS && waveform != Waveform::Noise {
            PlotMode::Interpolated
        } else {
            PlotMode::Direct
        }
    }
}

/// Where a point of the interpolated curve lies among the samples: between
/// the sample at `index` and the next, `weight` parts out of `span` of the
/// way from the one to the other.
#[derive(Debug, Copy, Clone, PartialEq, Eq, Structural)]
pub struct Anchor {
    /// Position of the sample before the point, or at it.
    pub index: usize,
    /// Parts of the way from that sample to the next.
    pub weight: usize,
    /// Number of parts that the way has.
    pub span: usize,
}

/// Where point `point` of `points` lies that are spread evenly from the
/// first to the last of `len` samples: `point * (len - 1) / (points - 1)`
/// samples from the first, the remainder of the division counted in parts
/// of `points - 1`.
pub open spec fn spec_anchor(point: nat, points: nat, len: nat) -> Anchor {
    Anchor {
        index: ((point * (len - 1)) / (points - 1)) as usize,
        weight: ((point * (len - 1)) % (points - 1)) as usize,
        span: (points - 1) as usize,
    }
}

/// Where point `point` of `points` lies among `len` samples.
pub fn anchor(point: usize, points: usize, len: usize) -> (r: Anchor)
    requires
        point < points,
        points >= 2,
        len >= 1,
    ensures
        r == spec_anchor(point as nat, points as nat, len as nat),
        r.index < len,
        r.weight < r.span,
        r.weight > 0 ==> r.index + 1 < len,
        point == 0 ==> r.index == 0 && r.weight == 0,
        point == points - 1 ==> r.index == len - 1 && r.weight == 0,
{
    let span = points - 1;
    let reach = len - 1;
    proof {
        assert(point * reach <= span * reach) by (nonlinear_arith)
            requires
                0 <= point <= span,
                reach >= 0,
        ;
        assert(span * reach <= usize::MAX * usize::MAX) by (nonlinear_arith)
            requires
                0 <= span <= usize::MAX,
                0 <= reach <= usize::MAX,
        ;
        assert(usize::MAX * usize::MAX <= u128::MAX) by (nonlinear_arith)
            requires
                usize::MAX <= 0xFFFF_FFFF_FFFF_FFFF,
        ;
    }
    let way: u128 = (point as u128) * (reach as u128);
    let index: u128 = way / (span as u128);
    let weight: u128 = way % (span as u128);
    proof {
        let (way, span, reach) = (way as int, span as int, reach as int);
        vstd::arithmetic::div_mod::lemma_fundamental_div_mod(way, span);
        vstd::arithmetic::div_mod::lemma_mod_pos_bound(way, span);
        vstd::arithmetic::div_mod::lemma_div_pos_is_pos(way, span);
        // way <= span * reach, so way / span <= reach
        vstd::arithmetic::div_mod::lemma_div_is_ordered(way, reach * span, span);
        assert(reach * span == span * reach) by (nonlinear_arith);
        vstd::arithmetic::div_mod::lemma_div_by_multiple(reach, span);
        if way / span == reach {
            assert(span * (way / span) == span * reach);
        }
        if point == 0 {
            assert(way == 0) by (nonlinear_arith)
                requires
                    way == point * reach,
                    point == 0,
            ;
        }
        if point == span {
            assert(way == span * reach) by (nonlinear_arith)
                requires
                    way == point * reach,
                    point == span,
            ;
            vstd::arithmetic::div_mod::lemma_fundamental_div_mod_converse(way, span, reach, 0);
        }
    }
    Anchor { index: index as usize, weight: weight as usize, span }
}

/// A window that was within `WINDOW_LIMIT` is within it again after a
/// sample has been added. What is left is the end of the window with the
/// new sample last.
pub proof fn window_stays_within_limit<T>(samples: Seq<T>, sample: T)
    requires
        samples.len() <= WINDOW_LIMIT,
    ensures
        rolled(samples.push(sample)).len() <= WINDOW_LIMIT,
        rolled(samples.push(sample)).len() >= 1,
        rolled(samples.push(sample)).last() == sample,
        rolled(samples.push(sample)) == samples.push(sample).skip(
            samples.len() + 1 - rolled(samples.push(sample)).len(),
        ),
{
    let grown = samples.push(sample);
    if grown.len() <= WINDOW_LIMIT {
        assert(grown.skip(0) =~= grown);
    }
}

} // verus!
