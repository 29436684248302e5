//! Single-precision numbers carried by their IEEE 754 bit patterns.
//!
//! The library does no arithmetic on samples, phases and levels; it stores
//! them, hands them on and compares them. For that the 32-bit pattern of a
//! number is enough: one sign bit, eight exponent bits and twenty-three
//! fraction bits.
use vstd::prelude::*;
use vstd::arithmetic::power2::{
    lemma2_to64,
    lemma_pow2_adds,
    lemma_pow2_pos,
    lemma_pow2_strictly_increases,
    lemma_pow2_unfold,
    pow2,
};

verus! {

/// The sign bit of a pattern.
pub const SIGN_BIT: u32 = 0x8000_0000;

/// Weight of the lowest exponent bit: two to the number of fraction bits.
pub const EXPONENT_UNIT: u32 = 0x0080_0000;

/// Magnitude bits of the infinities. Every larger magnitude is a NaN.
pub const INFINITY_BITS: u32 = 0x7F80_0000;

/// Pattern of positive zero.
pub const ZERO_BITS: u32 = 0x0000_0000;

/// Pattern of one half.
pub const HALF_BITS: u32 = 0x3F00_0000;

/// Pattern of one.
pub const ONE_BITS: u32 = 0x3F80_0000;

/// Pattern of minus one.
pub const MINUS_ONE_BITS: u32 = 0xBF80_0000;

/// A single-precision number, held as its bit pattern.
#[derive(Clone, Copy, Debug)]
pub struct Scalar {
    /// The bit pattern: sign, exponent, fraction.
    pub bits: u32,
}

impl Scalar {
    /// Whether the sign bit is set.
    pub open spec fn sign(self) -> bool {
        self.bits >= SIGN_BIT
    }

    /// The pattern without its sign bit.
    pub open spec fn magnitude(self) -> int {
        if self.bits >= SIGN_BIT {
            self.bits - SIGN_BIT
        } else {
            self.bits as int
        }
    }

    /// The eight exponent bits, read as a number.
    pub open spec fn exponent(self) -> int {
        self.magnitude() / (EXPONENT_UNIT as int)
    }

    /// The twenty-three fraction bits, read as a number.
    pub open spec fn fraction(self) -> int {
        self.magnitude() % (EXPONENT_UNIT as int)
    }

    /// Whether the pattern encodes no number at all.
    pub open spec fn spec_is_nan(self) -> bool {
        self.magnitude() > INFINITY_BITS
    }

    /// Whether the pattern encodes a finite number above zero.
    pub open spec fn spec_is_positive(self) -> bool {
        0 < self.bits < INFINITY_BITS
    }

    /// The digits of the number: the fraction bits, with a leading one
    /// before them unless the exponent bits are 0.
    pub open spec fn significand(self) -> int {
        if self.exponent() == 0 {
            self.fraction()
        } else {
            EXPONENT_UNIT + self.fraction()
        }
    }

    /// How often the digits are doubled: once for every step of the
    /// exponent bits above 1.
    pub open spec fn doublings(self) -> nat {
        if self.exponent() == 0 {
            0
        } else {
            (self.exponent() - 1) as nat
        }
    }

    /// The absolute value of the number, in units of 2^-149, of which every
    /// finite single-precision number is a whole multiple: the digits,
    /// doubled as often as the exponent says. The infinities come out
    /// above every finite number.
    pub open spec fn absolute_units(self) -> int {
        self.significand() * pow2(self.doublings())
    }

    /// The number, in units of 2^-149.
    pub open spec fn units(self) -> int {
        if self.sign() {
            -self.absolute_units()
        } else {
            self.absolute_units()
        }
    }

    /// The pattern read as sign and magnitude: the magnitude bits, counted
    /// downwards from zero where the sign bit is set.
    pub open spec fn rank(self) -> int {
        if self.sign() {
            -self.magnitude()
        } else {
            self.magnitude()
        }
    }

    /// `self < other`: both are numbers and the first is the smaller.
    pub open spec fn spec_lt(self, other: Scalar) -> bool {
        !self.spec_is_nan() && !other.spec_is_nan() && self.units() < other.units()
    }

    /// `self <= other`: both are numbers and the first is not the larger.
    pub open spec fn spec_le(self, other: Scalar) -> bool {
        !self.spec_is_nan() && !other.spec_is_nan() && self.units() <= other.units()
    }

    /// Whether the number lies in the closed interval from zero to one.
    pub open spec fn in_unit_interval(self) -> bool {
        Scalar::spec_zero().spec_le(self) && self.spec_le(Scalar::spec_one())
    }

    /// What clamping into `[min, max]` gives: `min` below it, `max` above
    /// it, otherwise the number itself. A NaN is below and above nothing and
    /// stays.
    pub open spec fn spec_clamp(self, min: Scalar, max: Scalar) -> Scalar {
        if self.spec_lt(min) {
            min
        } else if max.spec_lt(self) {
            max
        } else {
            self
        }
    }

    /// Positive zero.
    pub open spec fn spec_zero() -> Scalar {
        Scalar { bits: ZERO_BITS }
    }

    /// One half.
    pub open spec fn spec_half() -> Scalar {
        Scalar { bits: HALF_BITS }
    }

    /// One.
    pub open spec fn spec_one() -> Scalar {
        Scalar { bits: ONE_BITS }
    }

    /// Minus one.
    pub open spec fn spec_minus_one() -> Scalar {
        Scalar { bits: MINUS_ONE_BITS }
    }

    /// The number with the given bit pattern.
    pub fn from_bits(bits: u32) -> (r: Scalar)
        ensures
            r.bits == bits,
    {
        Scalar { bits }
    }

    /// The bit pattern of the number.
    pub fn to_bits(self) -> (r: u32)
        ensures
            r == self.bits,
    {
        self.bits
    }

    /// Positive zero.
    pub fn zero() -> (r: Scalar)
        ensures
            r == Scalar::spec_zero(),
    {
        Scalar { bits: ZERO_BITS }
    }

    /// One half.
    pub fn half() -> (r: Scalar)
        ensures
            r == Scalar::spec_half(),
    {
        Scalar { bits: HALF_BITS }
    }

    /// One.
    pub fn one() -> (r: Scalar)
        ensures
            r == Scalar::spec_one(),
    {
        Scalar { bits: ONE_BITS }
    }

    /// Minus one.
    pub fn minus_one() -> (r: Scalar)
        ensures
            r == Scalar::spec_minus_one(),
    {
        Scalar { bits: MINUS_ONE_BITS }
    }

    /// Whether the pattern encodes no number at all.
    pub fn is_nan(self) -> (r: bool)
        ensures
            r == self.spec_is_nan(),
    {
        if self.bits >= SIGN_BIT {
            self.bits - SIGN_BIT > INFINITY_BITS
        } else {
            self.bits > INFINITY_BITS
        }
    }

    /// Whether the pattern encodes a finite number above zero.
    pub fn is_positive(self) -> (r: bool)
        ensures
            r == self.spec_is_positive(),
    {
        0 < self.bits && self.bits < INFINITY_BITS
    }

    /// The digits of the number.
    pub fn significand_bits(self) -> (r: u32)
        ensures
            r == self.significand(),
            r < 2 * EXPONENT_UNIT,
    {
        let magnitude: u32 = if self.bits >= SIGN_BIT {
            self.bits - SIGN_BIT
        } else {
            self.bits
        };
        if magnitude / EXPONENT_UNIT == 0 {
            magnitude % EXPONENT_UNIT
        } else {
            EXPONENT_UNIT + magnitude % EXPONENT_UNIT
        }
    }

    /// How often the digits are doubled.
    pub fn doubling_count(self) -> (r: u32)
        ensures
            r == self.doublings(),
            r <= 254,
    {
        let magnitude: u32 = if self.bits >= SIGN_BIT {
            self.bits - SIGN_BIT
        } else {
            self.bits
        };
        let exponent = magnitude / EXPONENT_UNIT;
        if exponent == 0 {
            0
        } else {
            exponent - 1
        }
    }

    /// The rank as a machine integer.
    fn signed_rank(self) -> (r: i64)
        ensures
            r == self.rank(),
    {
        if self.bits >= SIGN_BIT {
            let magnitude: u32 = self.bits - SIGN_BIT;
            0 - (magnitude as i64)
        } else {
            self.bits as i64
        }
    }

    /// `self < other`.
    pub fn lt(self, other: Scalar) -> (r: bool)
        ensures
            r == self.spec_lt(other),
    {
        proof {
            rank_orders_numbers(self, other);
        }
        !self.is_nan() && !other.is_nan() && self.signed_rank() < other.signed_rank()
    }

    /// The number brought into `[min, max]`.
    pub fn clamp(self, min: Scalar, max: Scalar) -> (r: Scalar)
        requires
            min.spec_le(max),
        ensures
            r == self.spec_clamp(min, max),
    {
        if self.lt(min) {
            min
        } else if max.lt(self) {
            max
        } else {
            self
        }
    }
}

/// Patterns stand in the order of the numbers they encode: of two
/// patterns, the one with the smaller rank encodes the smaller number, and
/// two patterns encode the same number only if their ranks are equal.
pub proof fn rank_orders_numbers(first: Scalar, second: Scalar)
    ensures
        first.units() < second.units() <==> first.rank() < second.rank(),
        first.units() <= second.units() <==> first.rank() <= second.rank(),
        first.units() == second.units() <==> first.rank() == second.rank(),
{
    if first.magnitude() < second.magnitude() {
        magnitude_orders_size(first, second);
    }
    if second.magnitude() < first.magnitude() {
        magnitude_orders_size(second, first);
    }
    size_is_zero_at_zero(first);
    size_is_zero_at_zero(second);
}

/// The patterns of the finite numbers above zero are those that stand
/// between the patterns of zero and of infinity: they encode a number,
/// above zero and below infinity, with at least one digit set.
pub proof fn positive_patterns(value: Scalar)
    ensures
        value.spec_is_positive() <==> Scalar::spec_zero().spec_lt(value) && value.spec_lt(
            Scalar { bits: INFINITY_BITS },
        ),
        value.spec_is_positive() ==> value.units() == value.significand() * pow2(
            value.doublings(),
        ) && value.significand() > 0 && value.units() > 0,
{
    let infinity = Scalar { bits: INFINITY_BITS };
    rank_orders_numbers(Scalar::spec_zero(), value);
    rank_orders_numbers(value, infinity);
    size_is_zero_at_zero(Scalar::spec_zero());
    if value.spec_is_positive() {
        size_is_zero_at_zero(value);
        lemma_pow2_pos(value.doublings());
        let digits = value.significand();
        let weight = pow2(value.doublings()) as int;
        assert(digits > 0) by (nonlinear_arith)
            requires
                digits * weight > 0,
                weight > 0,
        ;
    }
}

/// The named patterns encode zero, one half, one and minus one: one is
/// 2^149 units of 2^-149, one half is half of that, minus one the
/// opposite.
pub proof fn constants_encode_their_numbers()
    ensures
        Scalar::spec_zero().units() == 0,
        Scalar::spec_one().units() == pow2(149),
        2 * Scalar::spec_half().units() == Scalar::spec_one().units(),
        Scalar::spec_minus_one().units() == -Scalar::spec_one().units(),
        !Scalar::spec_zero().spec_is_nan(),
        !Scalar::spec_half().spec_is_nan(),
        !Scalar::spec_one().spec_is_nan(),
        !Scalar::spec_minus_one().spec_is_nan(),
{
    lemma2_to64();
    assert(Scalar::spec_zero().significand() == 0);
    assert(Scalar::spec_one().exponent() == 127);
    assert(Scalar::spec_one().fraction() == 0);
    assert(Scalar::spec_half().exponent() == 126);
    assert(Scalar::spec_half().fraction() == 0);
    assert(Scalar::spec_minus_one().exponent() == 127);
    assert(Scalar::spec_minus_one().fraction() == 0);
    lemma_pow2_adds(23, 126);
    lemma_pow2_unfold(126);
    assert(EXPONENT_UNIT == pow2(23));
    assert(2 * (EXPONENT_UNIT * pow2(125)) == EXPONENT_UNIT * (2 * pow2(125))) by (nonlinear_arith);
}

/// The size of a number, written out for the two shapes of a pattern.
proof fn size_by_shape(value: Scalar)
    ensures
        value.exponent() == 0 ==> value.absolute_units() == value.fraction(),
        value.exponent() != 0 ==> value.absolute_units() == (EXPONENT_UNIT + value.fraction())
            * pow2((value.exponent() - 1) as nat),
{
    lemma2_to64();
    if value.exponent() == 0 {
        assert(value.fraction() * 1 == value.fraction());
    }
}

/// The size of a number grows with its magnitude bits.
proof fn magnitude_orders_size(first: Scalar, second: Scalar)
    requires
        first.magnitude() < second.magnitude(),
    ensures
        first.absolute_units() < second.absolute_units(),
{
    size_by_shape(first);
    size_by_shape(second);
    let unit = EXPONENT_UNIT as int;
    let (e1, f1) = (first.exponent(), first.fraction());
    let (e2, f2) = (second.exponent(), second.fraction());
    assert(first.magnitude() == unit * e1 + f1 && 0 <= f1 < unit) by {
        vstd::arithmetic::div_mod::lemma_fundamental_div_mod(first.magnitude(), unit);
    }
    assert(second.magnitude() == unit * e2 + f2 && 0 <= f2 < unit) by {
        vstd::arithmetic::div_mod::lemma_fundamental_div_mod(second.magnitude(), unit);
    }
    assert(0 <= e1 <= e2) by (nonlinear_arith)
        requires
            unit * e1 + f1 < unit * e2 + f2,
            0 <= unit * e1 + f1,
            0 <= f1 < unit,
            0 <= f2 < unit,
            unit > 0,
    ;
    if e1 == e2 {
        assert(f1 < f2);
        if e1 > 0 {
            let power = pow2((e1 - 1) as nat) as int;
            lemma_pow2_pos((e1 - 1) as nat);
            assert((unit + f1) * power < (unit + f2) * power) by (nonlinear_arith)
                requires
                    f1 < f2,
                    power > 0,
            ;
        }
    } else {
        let upper = pow2((e2 - 1) as nat) as int;
        lemma_pow2_pos((e2 - 1) as nat);
        assert(unit * upper <= (unit + f2) * upper) by (nonlinear_arith)
            requires
                f2 >= 0,
                upper > 0,
        ;
        assert(unit <= unit * upper) by (nonlinear_arith)
            requires
                unit > 0,
                upper >= 1,
        ;
        if e1 > 0 {
            let lower = pow2((e1 - 1) as nat) as int;
            lemma_pow2_pos((e1 - 1) as nat);
            lemma_pow2_unfold(e1 as nat);
            if e1 < e2 - 1 {
                lemma_pow2_strictly_increases(e1 as nat, (e2 - 1) as nat);
            }
            assert(2 * lower <= upper);
            assert((unit + f1) * lower < unit * (2 * lower)) by (nonlinear_arith)
                requires
                    f1 < unit,
                    lower > 0,
            ;
            assert(unit * (2 * lower) <= unit * upper) by (nonlinear_arith)
                requires
                    2 * lower <= upper,
                    unit > 0,
            ;
        }
    }
}

/// Only the zeros have size zero, and no size is negative.
proof fn size_is_zero_at_zero(value: Scalar)
    ensures
        value.absolute_units() >= 0,
        value.absolute_units() == 0 <==> value.magnitude() == 0,
{
    size_by_shape(value);
    let unit = EXPONENT_UNIT as int;
    let (e, f) = (value.exponent(), value.fraction());
    assert(value.magnitude() == unit * e + f && 0 <= f < unit) by {
        vstd::arithmetic::div_mod::lemma_fundamental_div_mod(value.magnitude(), unit);
    }
    assert(e >= 0) by (nonlinear_arith)
        requires
            unit * e + f >= 0,
            f < unit,
            unit > 0,
    ;
    if e > 0 {
        let power = pow2((e - 1) as nat) as int;
        lemma_pow2_pos((e - 1) as nat);
        assert((unit + f) * power > 0) by (nonlinear_arith)
            requires
                unit + f > 0,
                power > 0,
        ;
    }
}

} // verus!
