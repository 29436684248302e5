//! The parameters that drive the generator: waveform, frequency and volume.
use vstd::prelude::*;
use crate::scalar::{constants_encode_their_numbers, rank_orders_numbers, Scalar};
use crate::waveform::Waveform;

verus! {

/// One consistent reading of the parameters.
#[derive(Clone, Copy, Debug)]
pub struct Snapshot {
    /// Shape of the signal.
    pub waveform: Waveform,
    /// Frequency in hertz.
    pub frequency: Scalar,
    /// Volume, from 0 to 1.
    pub volume: Scalar,
}

/// What a volume becomes when it is stored: brought into `[0, 1]`.
pub open spec fn stored_volume(volume: Scalar) -> Scalar {
    volume.spec_clamp(Scalar::spec_zero(), Scalar::spec_one())
}

/// Whether a volume is neither below 0 nor above 1.
pub open spec fn spec_volume_in_range(volume: Scalar) -> bool {
    !volume.spec_lt(Scalar::spec_zero()) && !Scalar::spec_one().spec_lt(volume)
}

/// Whether a volume is neither below 0 nor above 1.
pub fn volume_in_range(volume: Scalar) -> (r: bool)
    ensures
        r == spec_volume_in_range(volume),
{
    !volume.lt(Scalar::zero()) && !Scalar::one().lt(volume)
}

/// The parameter record. The volume it holds has always been clamped.
#[derive(Clone, Copy, Debug)]
pub struct AudioParams {
    waveform: Waveform,
    frequency: Scalar,
    volume: Scalar,
}

impl View for AudioParams {
    type V = Snapshot;

    closed spec fn view(&self) -> Snapshot {
        Snapshot { waveform: self.waveform, frequency: self.frequency, volume: self.volume }
    }
}

impl AudioParams {
    #[verifier::type_invariant]
    spec fn volume_is_clamped(self) -> bool {
        self.volume.spec_is_nan() || self.volume.in_unit_interval()
    }

    /// A record with the given waveform and frequency and the volume
    /// brought into `[0, 1]`.
    pub fn new(waveform: Waveform, frequency: Scalar, volume: Scalar) -> (r: Self)
        ensures
            r@.waveform == waveform,
            r@.frequency == frequency,
            r@.volume == stored_volume(volume),
    {
        proof {
            stored_volume_is_clamped(volume);
        }
        AudioParams { waveform, frequency, volume: volume.clamp(Scalar::zero(), Scalar::one()) }
    }

    /// All three parameters in one reading. Reading changes nothing, so
    /// two readings with no write between them are equal.
    pub fn snapshot(&self) -> (r: Snapshot)
        ensures
            r == self@,
            r.volume.spec_is_nan() || r.volume.in_unit_interval(),
    {
        proof {
            use_type_invariant(self);
        }
        Snapshot { waveform: self.waveform, frequency: self.frequency, volume: self.volume }
    }

    /// Shape of the signal.
    pub fn waveform(&self) -> (r: Waveform)
        ensures
            r == self@.waveform,
    {
        self.waveform
    }

    /// Frequency in hertz.
    pub fn frequency(&self) -> (r: Scalar)
        ensures
            r == self@.frequency,
    {
        self.frequency
    }

    /// Volume: a number from 0 to 1, or a NaN if one was stored.
    pub fn volume(&self) -> (r: Scalar)
        ensures
            r == self@.volume,
            r.spec_is_nan() || r.in_unit_interval(),
    {
        proof {
            use_type_invariant(self);
        }
        self.volume
    }

    /// Changes the waveform and nothing else.
    pub fn set_waveform(&mut self, waveform: Waveform)
        ensures
            final(self)@ == (Snapshot { waveform, ..old(self)@ }),
    {
        proof {
            use_type_invariant(&*self);
        }
        self.waveform = waveform;
    }

    /// Changes the frequency and nothing else. The value is stored as it
    /// is.
    pub fn set_frequency(&mut self, frequency: Scalar)
        ensures
            final(self)@ == (Snapshot { frequency, ..old(self)@ }),
    {
        proof {
            use_type_invariant(&*self);
        }
        self.frequency = frequency;
    }

    /// Changes the volume and nothing else. The value is brought into
    /// `[0, 1]` before it is stored.
    pub fn set_volume(&mut self, volume: Scalar)
        ensures
            final(self)@ == (Snapshot { volume: stored_volume(volume), ..old(self)@ }),
    {
        proof {
            stored_volume_is_clamped(volume);
        }
        self.volume = volume.clamp(Scalar::zero(), Scalar::one());
    }
}

/// A stored volume that is a number lies between 0 and 1. A volume above 1
/// is stored as 1 and one below 0 as 0; every other volume, and no volume
/// but these, is stored unchanged.
pub proof fn stored_volume_is_clamped(volume: Scalar)
    ensures
        !volume.spec_is_nan() ==> stored_volume(volume).in_unit_interval(),
        volume.in_unit_interval() ==> stored_volume(volume) == volume,
        volume.spec_is_nan() ==> stored_volume(volume) == volume,
        Scalar::spec_one().spec_lt(volume) ==> stored_volume(volume) == Scalar::spec_one(),
        volume.spec_lt(Scalar::spec_zero()) ==> stored_volume(volume) == Scalar::spec_zero(),
        spec_volume_in_range(volume) <==> stored_volume(volume) == volume,
        Scalar::spec_zero().spec_le(Scalar::spec_one()),
{
    constants_encode_their_numbers();
    rank_orders_numbers(Scalar::spec_zero(), Scalar::spec_one());
    rank_orders_numbers(volume, Scalar::spec_zero());
    rank_orders_numbers(Scalar::spec_one(), volume);
}

} // verus!
