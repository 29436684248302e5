//! The phase of the oscillator: where in its period the signal stands.
use vstd::prelude::*;
use vstd::arithmetic::div_mod::{lemma_fundamental_div_mod, lemma_fundamental_div_mod_converse};
use vstd::arithmetic::power2::{
    lemma2_to64,
    lemma_pow2_adds,
    lemma_pow2_pos,
    lemma_pow2_strictly_increases,
    lemma_pow2_unfold,
    pow2,
};
use crate::exact::power_of_two;
use crate::scalar::{
    constants_encode_their_numbers,
    rank_orders_numbers,
    Scalar,
    EXPONENT_UNIT,
    INFINITY_BITS,
    ONE_BITS,
    SIGN_BIT,
    ZERO_BITS,
};

verus! {

/// Exponent bits of one.
pub const ONE_EXPONENT: u32 = 127;

/// Exponent bits from which on every number is whole.
pub const WHOLE_EXPONENT: u32 = 150;

/// Whether `phase` is what the sum of a phase and its increment wraps to.
/// A sum from zero up to one stays. A larger finite sum loses its whole
/// part, so that exactly its fractional part is left. Anything else, a
/// negative sum, an infinite one or a NaN, starts the period again at
/// zero.
pub open spec fn wraps_to(sum: Scalar, phase: Scalar) -> bool {
    if sum.spec_is_nan() || sum.spec_lt(Scalar::spec_zero()) || sum.magnitude() == INFINITY_BITS {
        phase == Scalar::spec_zero()
    } else if sum.spec_lt(Scalar::spec_one()) {
        phase == sum
    } else {
        !phase.sign() && !phase.spec_is_nan() && phase.units() == sum.units() % (pow2(149) as int)
    }
}

/// Whether a number is a phase: at least zero and below one.
pub open spec fn is_phase(phase: Scalar) -> bool {
    Scalar::spec_zero().spec_le(phase) && phase.spec_lt(Scalar::spec_one())
}

/// Whatever a sum wraps to is a phase.
pub proof fn wrapped_sum_is_a_phase(sum: Scalar, phase: Scalar)
    requires
        wraps_to(sum, phase),
    ensures
        is_phase(phase),
{
    constants_encode_their_numbers();
    lemma_pow2_pos(149);
    rank_orders_numbers(sum, Scalar::spec_zero());
    rank_orders_numbers(phase, Scalar::spec_zero());
    if !(sum.spec_is_nan() || sum.spec_lt(Scalar::spec_zero()) || sum.magnitude() == INFINITY_BITS)
        && !sum.spec_lt(Scalar::spec_one()) {
        vstd::arithmetic::div_mod::lemma_mod_pos_bound(sum.units(), pow2(149) as int);
    }
}

/// A sum that is a number from zero on, and finite, wraps to what is left
/// when one is taken off it as often as it goes: the phase differs from
/// the sum by a whole number of ones.
pub proof fn wrap_takes_whole_ones_off(sum: Scalar, phase: Scalar)
    requires
        wraps_to(sum, phase),
        Scalar::spec_zero().spec_le(sum),
        sum.magnitude() < INFINITY_BITS,
    ensures
        phase.units() == sum.units() - (sum.units() / (pow2(149) as int)) * Scalar::spec_one().units(),
        sum.units() / (pow2(149) as int) >= 0,
{
    constants_encode_their_numbers();
    lemma_pow2_pos(149);
    let one = pow2(149) as int;
    rank_orders_numbers(sum, Scalar::spec_zero());
    rank_orders_numbers(sum, Scalar::spec_one());
    lemma_fundamental_div_mod(sum.units(), one);
    vstd::arithmetic::div_mod::lemma_div_pos_is_pos(sum.units(), one);
    let whole = sum.units() / one;
    assert(one * whole == whole * one) by (nonlinear_arith);
    assert(Scalar::spec_one().units() == one);
    if sum.spec_lt(Scalar::spec_one()) {
        vstd::arithmetic::div_mod::lemma_basic_div(sum.units(), one);
        assert(whole == 0);
        assert(phase == sum);
        assert(whole * one == 0) by (nonlinear_arith)
            requires
                whole == 0,
        ;
    } else {
        assert(phase.units() == sum.units() % one);
    }
}

/// A sum wraps to one phase only.
pub proof fn wrap_is_unique(sum: Scalar, first: Scalar, second: Scalar)
    requires
        wraps_to(sum, first),
        wraps_to(sum, second),
    ensures
        first == second,
{
    rank_orders_numbers(first, second);
}

/// The phase that a sum wraps to.
pub fn wrap_phase(sum: Scalar) -> (r: Scalar)
    ensures
        wraps_to(sum, r),
{
    let bits = sum.bits;
    proof {
        constants_encode_their_numbers();
        rank_orders_numbers(sum, Scalar::spec_zero());
        rank_orders_numbers(sum, Scalar::spec_one());
    }
    if bits >= SIGN_BIT {
        if bits == SIGN_BIT {
            return sum;
        }
        return Scalar { bits: ZERO_BITS };
    }
    if bits >= INFINITY_BITS {
        return Scalar { bits: ZERO_BITS };
    }
    if bits < ONE_BITS {
        return sum;
    }
    let exponent = bits / EXPONENT_UNIT;
    let fraction = bits % EXPONENT_UNIT;
    let significand = EXPONENT_UNIT + fraction;
    assert(ONE_EXPONENT <= exponent <= 254);
    assert(sum.units() == significand * pow2((exponent - 1) as nat));
    if exponent >= WHOLE_EXPONENT {
        proof {
            whole_numbers_leave_nothing(significand as int, exponent as int);
        }
        return Scalar { bits: ZERO_BITS };
    }
    // The lowest `below` bits of the significand stand behind the point.
    let below = WHOLE_EXPONENT - exponent;
    let weight = power_of_two(below);
    proof {
        lemma2_to64();
        if below < 23 {
            lemma_pow2_strictly_increases(below as nat, 23);
        }
    }
    let mut rest: u32 = (significand as u64 % weight) as u32;
    let ghost fractional = rest as int;
    proof {
        fractional_bits_are_the_remainder(
            significand as int,
            exponent as int,
            fractional,
        );
    }
    if rest == 0 {
        assert(sum.units() % (pow2(149) as int) == 0) by (nonlinear_arith)
            requires
                sum.units() % (pow2(149) as int) == fractional * pow2((exponent - 1) as nat),
                fractional == 0,
        ;
        return Scalar { bits: ZERO_BITS };
    }
    // Shift the fractional bits up until the leading one stands where the
    // significand has it.
    let mut lowered = exponent;
    proof {
        lemma2_to64();
        assert(rest * pow2((lowered - 1) as nat) == fractional * pow2((exponent - 1) as nat));
    }
    while rest < EXPONENT_UNIT
        invariant
            0 < rest < 2 * EXPONENT_UNIT,
            lowered <= exponent <= 254,
            exponent >= ONE_EXPONENT,
            exponent - lowered <= 23,
            rest >= pow2((exponent - lowered) as nat),
            rest * pow2((lowered - 1) as nat) == fractional * pow2((exponent - 1) as nat),
        decreases 2 * EXPONENT_UNIT - rest,
    {
        proof {
            lemma2_to64();
            // Fewer than 23 doublings so far: a power of two below 2^23
            // has an exponent below 23.
            assert(exponent - lowered < 23);
            lemma_pow2_unfold((exponent - lowered + 1) as nat);
            lemma_pow2_unfold((lowered - 1) as nat);
            let power = pow2((lowered - 2) as nat) as int;
            assert((2 * rest) * power == rest * (2 * power)) by (nonlinear_arith);
        }
        rest = rest * 2;
        lowered = lowered - 1;
    }
    let r = Scalar { bits: lowered * EXPONENT_UNIT + (rest - EXPONENT_UNIT) };
    proof {
        let unit = EXPONENT_UNIT as int;
        assert(lowered * unit <= 254 * unit) by (nonlinear_arith)
            requires
                lowered <= 254,
                unit > 0,
        ;
        assert(lowered * unit >= 104 * unit) by (nonlinear_arith)
            requires
                lowered >= 104,
                unit > 0,
        ;
        lemma_fundamental_div_mod_converse(
            r.bits as int,
            unit,
            lowered as int,
            rest - unit,
        );
        assert(r.exponent() == lowered);
        assert(r.fraction() == rest - unit);
        assert(r.units() == rest * pow2((lowered - 1) as nat));
    }
    r
}

/// The phase now and one sample ago.
pub struct PhaseState {
    /// Where in its period the signal stands.
    pub phase: Scalar,
    /// Where it stood before the last step.
    pub last_phase: Scalar,
}

/// Keeps the phase of the oscillator. Both phases it holds are at least
/// zero and below one, whatever it is fed.
#[derive(Clone, Copy, Debug)]
pub struct PhaseAccumulator {
    phase: Scalar,
    last_phase: Scalar,
}

impl View for PhaseAccumulator {
    type V = PhaseState;

    closed spec fn view(&self) -> PhaseState {
        PhaseState { phase: self.phase, last_phase: self.last_phase }
    }
}

impl PhaseAccumulator {
    #[verifier::type_invariant]
    spec fn in_range(self) -> bool {
        is_phase(self.phase) && is_phase(self.last_phase)
    }

    /// An accumulator at the start of a period.
    pub fn new() -> (r: Self)
        ensures
            r@.phase == Scalar::spec_zero(),
            r@.last_phase == Scalar::spec_zero(),
    {
        proof {
            zero_is_a_phase();
        }
        PhaseAccumulator { phase: Scalar::zero(), last_phase: Scalar::zero() }
    }

    /// Where in its period the signal stands.
    pub fn phase(&self) -> (r: Scalar)
        ensures
            r == self@.phase,
            is_phase(r),
    {
        proof {
            use_type_invariant(self);
        }
        self.phase
    }

    /// Where the signal stood before the last step.
    pub fn last_phase(&self) -> (r: Scalar)
        ensures
            r == self@.last_phase,
            is_phase(r),
    {
        proof {
            use_type_invariant(self);
        }
        self.last_phase
    }

    /// Takes a step: the phase becomes what `sum`, the phase plus its
    /// increment, wraps to, and the phase before the step is remembered.
    pub fn advance(&mut self, sum: Scalar)
        ensures
            final(self)@.last_phase == old(self)@.phase,
            wraps_to(sum, final(self)@.phase),
            is_phase(final(self)@.phase),
    {
        proof {
            use_type_invariant(&*self);
        }
        let next = wrap_phase(sum);
        proof {
            wrapped_sum_is_a_phase(sum, next);
        }
        self.last_phase = self.phase;
        self.phase = next;
    }

    /// Starts the period again: the phase becomes zero.
    pub fn reset_phase(&mut self)
        ensures
            final(self)@.phase == Scalar::spec_zero(),
            final(self)@.last_phase == old(self)@.last_phase,
    {
        proof {
            use_type_invariant(&*self);
            zero_is_a_phase();
        }
        self.phase = Scalar::zero();
    }
}

/// Zero is a phase.
proof fn zero_is_a_phase()
    ensures
        is_phase(Scalar::spec_zero()),
{
    constants_encode_their_numbers();
    lemma_pow2_pos(149);
}

/// A number whose exponent bits are `WHOLE_EXPONENT` or more is a whole
/// multiple of one.
proof fn whole_numbers_leave_nothing(significand: int, exponent: int)
    requires
        exponent >= WHOLE_EXPONENT,
    ensures
        (significand * pow2((exponent - 1) as nat)) % (pow2(149) as int) == 0,
{
    let one = pow2(149) as int;
    let above = pow2((exponent - 150) as nat) as int;
    lemma_pow2_pos(149);
    lemma_pow2_adds((exponent - 150) as nat, 149);
    assert(significand * (above * one) == (significand * above) * one) by (nonlinear_arith);
    lemma_fundamental_div_mod_converse(
        significand * pow2((exponent - 1) as nat),
        one,
        significand * above,
        0,
    );
}

/// Where `WHOLE_EXPONENT - exponent` bits of a significand stand behind
/// the point, those bits, at the weight of the significand, are what is
/// left of the number when its whole part is taken off.
proof fn fractional_bits_are_the_remainder(significand: int, exponent: int, fractional: int)
    requires
        ONE_EXPONENT <= exponent < WHOLE_EXPONENT,
        significand >= 0,
        fractional == significand % (pow2((WHOLE_EXPONENT - exponent) as nat) as int),
    ensures
        (significand * pow2((exponent - 1) as nat)) % (pow2(149) as int) == fractional * pow2(
            (exponent - 1) as nat,
        ),
        0 <= fractional < pow2((WHOLE_EXPONENT - exponent) as nat),
{
    let below = (WHOLE_EXPONENT - exponent) as nat;
    let weight = pow2(below) as int;
    let scale = pow2((exponent - 1) as nat) as int;
    let one = pow2(149) as int;
    let whole = significand / weight;
    lemma_pow2_pos(below);
    lemma_pow2_pos((exponent - 1) as nat);
    lemma_pow2_adds(below, (exponent - 1) as nat);
    assert(weight * scale == one);
    lemma_fundamental_div_mod(significand, weight);
    vstd::arithmetic::div_mod::lemma_mod_pos_bound(significand, weight);
    assert(significand == weight * whole + fractional);
    assert(significand * scale == whole * (weight * scale) + fractional * scale)
        by (nonlinear_arith)
        requires
            significand == weight * whole + fractional,
    ;
    assert(0 <= fractional * scale < weight * scale) by (nonlinear_arith)
        requires
            0 <= fractional < weight,
            scale > 0,
    ;
    lemma_fundamental_div_mod_converse(significand * scale, one, whole, fractional * scale);
}

} // verus!
