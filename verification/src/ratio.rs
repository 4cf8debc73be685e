//! Fixed-point ratios with 18 decimal places.
//!
//! A ratio (a commission rate, a redeem rate, a reward ratio) is carried
//! as its number of atomic units: `RATIO_ONE` atomics make 1.0.  All
//! rounding is toward zero.

use vstd::prelude::*;

verus! {

use vstd::arithmetic::div_mod::{
    lemma_div_is_ordered, lemma_div_multiples_vanish, lemma_div_pos_is_pos,
    lemma_fundamental_div_mod, lemma_multiply_divide_le,
};
use vstd::arithmetic::mul::{lemma_mul_inequality, lemma_mul_is_distributive_add};
use cosmwasm_std::{Decimal, Uint128};

/// Atomic units in 1.0 of a fixed-point ratio (18 decimal places).
pub const RATIO_ONE: u128 = 1_000_000_000_000_000_000;

/// Atomics of the quotient `num / den`, rounded toward zero.
pub open spec fn ratio_of(num: int, den: int) -> int {
    (num * RATIO_ONE) / den
}

/// `x` scaled by a ratio given in atomics, rounded toward zero.
pub open spec fn ratio_mul(x: int, atomics: int) -> int {
    (x * atomics) / (RATIO_ONE as int)
}

/// Relies on `cosmwasm_std::Decimal::from_ratio`, which computes
/// `num * RATIO_ONE / den` in 256 bits and rounds toward zero.  It
/// panics on a zero denominator and on a quotient above the
/// representable maximum, so both are excluded here.
#[verifier::external_body]
pub(crate) fn from_ratio(num: u128, den: u128) -> (r: u128)
    requires
        den != 0,
        ratio_of(num as int, den as int) <= u128::MAX,
    ensures
        r == ratio_of(num as int, den as int),
{
    Decimal::from_ratio(num, den).atomics().u128()
}

/// Relies on `Mul<cosmwasm_std::Decimal> for cosmwasm_std::Uint128`,
/// which computes `x * atomics / RATIO_ONE` in 256 bits and rounds
/// toward zero.  It panics when the quotient does not fit in 128 bits,
/// so that case is excluded here.
#[verifier::external_body]
pub(crate) fn mul_floor(x: u128, atomics: u128) -> (r: u128)
    requires
        ratio_mul(x as int, atomics as int) <= u128::MAX,
    ensures
        r == ratio_mul(x as int, atomics as int),
{
    (Uint128::new(x) * Decimal::raw(atomics)).u128()
}

/// Scaling by a ratio of at most 1.0 cannot grow a quantity:
/// `(x * num) / den <= x` whenever `num <= den`.
pub proof fn lemma_scale_down(x: int, num: int, den: int)
    requires
        0 <= x,
        0 <= num <= den,
        0 < den,
    ensures
        0 <= (x * num) / den <= x,
{
    lemma_mul_inequality(num, den, x);
    lemma_multiply_divide_le(x * num, den, x);
    lemma_div_pos_is_pos(x * num, den);
}

/// A ratio of parts out of a whole is at most 1.0 in atomics:
/// `ratio_of(num, den) <= RATIO_ONE` whenever `num <= den`.
pub proof fn lemma_ratio_of_le_one(num: int, den: int)
    requires
        0 <= num <= den,
        0 < den,
    ensures
        0 <= ratio_of(num, den) <= RATIO_ONE,
{
    lemma_scale_down(RATIO_ONE as int, num, den);
}

/// Rounding toward zero in each part never beats rounding the whole:
/// `a / c + b / c <= (a + b) / c`.
pub proof fn lemma_split_div_le(a: int, b: int, c: int)
    requires
        0 <= a,
        0 <= b,
        0 < c,
    ensures
        a / c + b / c <= (a + b) / c,
{
    lemma_fundamental_div_mod(a, c);
    lemma_fundamental_div_mod(b, c);
    lemma_mul_is_distributive_add(c, a / c, b / c);
    assert(c * (a / c + b / c) <= a + b);
    lemma_div_is_ordered(c * (a / c + b / c), a + b, c);
    lemma_div_multiples_vanish(a / c + b / c, c);
}

/// Splitting `x` by a ratio and its complement disburses at most `x`:
/// the two floored parts sum to no more than the whole.
pub proof fn lemma_complement_split(x: int, atomics: int)
    requires
        0 <= x,
        0 <= atomics <= RATIO_ONE,
    ensures
        ratio_mul(x, RATIO_ONE - atomics) + ratio_mul(x, atomics) <= x,
{
    let one = RATIO_ONE as int;
    lemma_mul_is_distributive_add(x, one - atomics, atomics);
    assert(x * (one - atomics) + x * atomics == x * one);
    lemma_split_div_le(x * (one - atomics), x * atomics, one);
    lemma_div_multiples_vanish(x, one);
    assert((x * one) / one == x) by {
        lemma_div_multiples_vanish(x, one);
        assert(x * one == one * x) by (nonlinear_arith);
    }
}

} // verus!
