//! Exact arithmetic on numbers written as digits times a power of two.
use vstd::prelude::*;
use vstd::arithmetic::power2::{
    lemma2_to64,
    lemma2_to64_rest,
    lemma_pow2_adds,
    lemma_pow2_pos,
    lemma_pow2_strictly_increases,
    pow2,
};

verus! {

/// Two to the given power.
pub(crate) fn power_of_two(exponent: u32) -> (r: u64)
    requires
        exponent < 64,
    ensures
        r == pow2(exponent as nat),
{
    proof {
        lemma2_to64();
        lemma2_to64_rest();
        if exponent < 63 {
            lemma_pow2_strictly_increases(exponent as nat, 63);
        }
        vstd::bits::lemma_u64_shl_is_mul(1, exponent as u64);
    }
    1u64 << (exponent as u64)
}

/// Whether `a * 2^p` is at most `b * 2^q`.
pub(crate) open spec fn spec_scaled_le(a: int, p: nat, b: int, q: nat) -> bool {
    a * pow2(p) <= b * pow2(q)
}

/// Whether `a * 2^p` is at most `b * 2^q`.
pub(crate) fn scaled_le(a: u64, p: u32, b: u64, q: u32) -> (r: bool)
    requires
        a < 0x1_0000_0000,
        b < 0x1_0000_0000,
    ensures
        r == spec_scaled_le(a as int, p as nat, b as int, q as nat),
{
    proof {
        lemma_pow2_pos(p as nat);
        lemma_pow2_pos(q as nat);
        lemma2_to64();
    }
    let ghost left = pow2(p as nat) as int;
    let ghost right = pow2(q as nat) as int;
    if a == 0 {
        assert(0 <= b * right) by (nonlinear_arith)
            requires
                b >= 0,
                right > 0,
        ;
        assert(a * left == 0) by (nonlinear_arith)
            requires
                a == 0,
        ;
        return true;
    }
    if b == 0 {
        assert(a * left > 0) by (nonlinear_arith)
            requires
                a > 0,
                left > 0,
        ;
        assert(b * right == 0) by (nonlinear_arith)
            requires
                b == 0,
        ;
        return false;
    }
    if p >= q {
        let distance = p - q;
        let ghost factor = pow2(distance as nat) as int;
        proof {
            lemma_pow2_adds(distance as nat, q as nat);
            lemma_pow2_pos(distance as nat);
            assert(a * (factor * right) == (a * factor) * right) by (nonlinear_arith);
            assert(((a * factor) * right <= b * right) == (a * factor <= b)) by (nonlinear_arith)
                requires
                    right > 0,
            ;
        }
        if distance >= 32 {
            proof {
                if distance > 32 {
                    lemma_pow2_strictly_increases(32, distance as nat);
                }
                assert(a * factor >= factor) by (nonlinear_arith)
                    requires
                        a >= 1,
                        factor > 0,
                ;
            }
            false
        } else {
            let weight = power_of_two(distance);
            proof {
                lemma_pow2_strictly_increases(distance as nat, 32);
                assert(a * weight < 0x1_0000_0000 * 0x1_0000_0000) by (nonlinear_arith)
                    requires
                        0 <= a < 0x1_0000_0000,
                        0 <= weight < 0x1_0000_0000,
                ;
            }
            a * weight <= b
        }
    } else {
        let distance = q - p;
        let ghost factor = pow2(distance as nat) as int;
        proof {
            lemma_pow2_adds(distance as nat, p as nat);
            lemma_pow2_pos(distance as nat);
            assert(b * (factor * left) == (b * factor) * left) by (nonlinear_arith);
            assert((a * left <= (b * factor) * left) == (a <= b * factor)) by (nonlinear_arith)
                requires
                    left > 0,
            ;
        }
        if distance >= 32 {
            proof {
                if distance > 32 {
                    lemma_pow2_strictly_increases(32, distance as nat);
                }
                assert(b * factor >= factor) by (nonlinear_arith)
                    requires
                        b >= 1,
                        factor > 0,
                ;
            }
            true
        } else {
            let weight = power_of_two(distance);
            proof {
                lemma_pow2_strictly_increases(distance as nat, 32);
                assert(b * weight < 0x1_0000_0000 * 0x1_0000_0000) by (nonlinear_arith)
                    requires
                        0 <= b < 0x1_0000_0000,
                        0 <= weight < 0x1_0000_0000,
                ;
            }
            a <= b * weight
        }
    }
}

/// Two to the given power, with room for the larger powers.
pub(crate) fn wide_power_of_two(exponent: u32) -> (r: u128)
    requires
        exponent < 126,
    ensures
        r == pow2(exponent as nat),
        r <= 0x2000_0000_0000_0000_0000_0000_0000_0000,
{
    proof {
        lemma2_to64();
        lemma2_to64_rest();
        lemma_pow2_adds(63, 62);
        assert(pow2(125) == 0x2000_0000_0000_0000_0000_0000_0000_0000);
        if exponent < 125 {
            lemma_pow2_strictly_increases(exponent as nat, 125);
        }
    }
    if exponent < 64 {
        power_of_two(exponent) as u128
    } else {
        let low = power_of_two(63) as u128;
        let high = power_of_two(exponent - 63) as u128;
        proof {
            lemma_pow2_adds(63, (exponent - 63) as nat);
            lemma_pow2_strictly_increases((exponent - 63) as nat, 63);
            assert(low * high <= 0x8000_0000_0000_0000 * 0x8000_0000_0000_0000) by (nonlinear_arith)
                requires
                    0 <= low <= 0x8000_0000_0000_0000,
                    0 <= high <= 0x8000_0000_0000_0000,
            ;
        }
        low * high
    }
}

/// `(2 * a * 2^p + b * 2^q) / (2 * b * 2^q)`: the quotient of `a * 2^p`
/// by `b * 2^q`, rounded to the nearest whole number, halves upwards.
pub(crate) open spec fn spec_rounded_quotient(a: int, p: nat, b: int, q: nat) -> int {
    (2 * (a * pow2(p)) + b * pow2(q)) / (2 * (b * pow2(q)))
}

/// The quotient of `a * 2^p` by `b * 2^q`, rounded to the nearest whole
/// number, or `usize::MAX` if that is less.
pub(crate) fn rounded_quotient(a: u32, p: u32, b: u32, q: u32) -> (r: usize)
    requires
        0 < a < 0x0100_0000,
        0 < b < 0x0100_0000,
    ensures
        spec_rounded_quotient(a as int, p as nat, b as int, q as nat) <= usize::MAX ==> r
            == spec_rounded_quotient(a as int, p as nat, b as int, q as nat),
        spec_rounded_quotient(a as int, p as nat, b as int, q as nat) > usize::MAX ==> r
            == usize::MAX,
{
    let ghost left = pow2(p as nat) as int;
    let ghost right = pow2(q as nat) as int;
    proof {
        lemma_pow2_pos(p as nat);
        lemma_pow2_pos(q as nat);
        lemma2_to64();
        lemma2_to64_rest();
    }
    if p >= q {
        let distance = p - q;
        let ghost factor = pow2(distance as nat) as int;
        let ghost above = 2 * (a * factor) + b;
        let ghost below = 2 * b;
        proof {
            lemma_pow2_adds(distance as nat, q as nat);
            lemma_pow2_pos(distance as nat);
            assert(2 * (a * (factor * right)) + b * right == right * above) by (nonlinear_arith)
                requires
                    above == 2 * (a * factor) + b,
            ;
            assert(2 * (b * right) == right * below) by (nonlinear_arith)
                requires
                    below == 2 * b,
            ;
            assert(above >= 0) by (nonlinear_arith)
                requires
                    above == 2 * (a * factor) + b,
                    a > 0,
                    factor > 0,
                    b > 0,
            ;
            vstd::arithmetic::div_mod::lemma_div_multiples_vanish_quotient(right, above, below);
        }
        if distance >= 90 {
            proof {
                if distance > 90 {
                    lemma_pow2_strictly_increases(90, distance as nat);
                }
                lemma_pow2_adds(64, 26);
                let huge: int = 0x1_0000_0000_0000_0000;
                assert(a * factor >= factor) by (nonlinear_arith)
                    requires
                        a >= 1,
                        factor > 0,
                ;
                assert(below * huge <= 0x0200_0000 * huge) by (nonlinear_arith)
                    requires
                        0 <= below <= 0x0200_0000,
                        huge > 0,
                ;
                assert(below * huge <= above);
                vstd::arithmetic::div_mod::lemma_div_is_ordered(below * huge, above, below);
                vstd::arithmetic::div_mod::lemma_div_by_multiple(huge, below);
            }
            return usize::MAX;
        }
        let weight = wide_power_of_two(distance);
        proof {
            lemma_pow2_adds(64, 26);
            lemma_pow2_strictly_increases(distance as nat, 90);
            assert((a as int) * (weight as int) <= 0x0100_0000 * 0x400_0000_0000_0000_0000_0000)
                by (nonlinear_arith)
                requires
                    0 <= a < 0x0100_0000,
                    0 <= weight <= 0x400_0000_0000_0000_0000_0000,
            ;
        }
        let quotient: u128 = (2 * ((a as u128) * weight) + b as u128) / (2 * (b as u128));
        if quotient > usize::MAX as u128 {
            usize::MAX
        } else {
            quotient as usize
        }
    } else {
        let distance = q - p;
        let ghost factor = pow2(distance as nat) as int;
        let ghost above = 2 * a + b * factor;
        let ghost below = 2 * (b * factor);
        proof {
            lemma_pow2_adds(distance as nat, p as nat);
            lemma_pow2_pos(distance as nat);
            assert(2 * (a * left) + b * (factor * left) == left * above) by (nonlinear_arith)
                requires
                    above == 2 * a + b * factor,
            ;
            assert(2 * (b * (factor * left)) == left * below) by (nonlinear_arith)
                requires
                    below == 2 * (b * factor),
            ;
            assert(b * factor >= factor) by (nonlinear_arith)
                requires
                    b >= 1,
                    factor > 0,
            ;
            vstd::arithmetic::div_mod::lemma_div_multiples_vanish_quotient(left, above, below);
        }
        if distance >= 26 {
            proof {
                if distance > 26 {
                    lemma_pow2_strictly_increases(26, distance as nat);
                }
                vstd::arithmetic::div_mod::lemma_basic_div(above, below);
            }
            return 0;
        }
        let weight = power_of_two(distance);
        proof {
            lemma_pow2_strictly_increases(distance as nat, 26);
            assert((b as int) * (weight as int) <= 0x0100_0000 * 0x0400_0000) by (nonlinear_arith)
                requires
                    0 <= b < 0x0100_0000,
                    0 <= weight <= 0x0400_0000,
            ;
        }
        let scaled: u64 = (b as u64) * weight;
        let quotient: u64 = (2 * (a as u64) + scaled) / (2 * scaled);
        proof {
            assert(scaled == b * factor);
            assert(quotient == above / below);
            // The rounded quotient of a by something of at least one is at
            // most a + 1.
            assert(above <= (a + 1) * below) by (nonlinear_arith)
                requires
                    above == 2 * a + scaled,
                    below == 2 * scaled,
                    scaled >= 1,
                    a >= 0,
            ;
            vstd::arithmetic::div_mod::lemma_div_is_ordered(above, (a + 1) * below, below);
            vstd::arithmetic::div_mod::lemma_div_by_multiple(a + 1, below);
        }
        quotient as usize
    }
}

} // verus!
