//! Fixed-point numbers with eighteen decimals: the integer `x` stands for
//! `x / ONE`.

use crate::constants::ONE;
use crate::error::MathError;
use vstd::prelude::*;

verus! {

pub struct FixedPoint;

/// The product `a * b` in fixed point, rounded down.
pub open spec fn product_floor(a: int, b: int) -> int {
    (a * b) / (ONE as int)
}

/// The quotient of `a` by `b` in fixed point, rounded down.
pub open spec fn quotient_floor(a: int, b: int) -> int {
    (a * ONE) / b
}

/// The quotient of `a` by `b` in fixed point, rounded up.
pub open spec fn quotient_ceil(a: int, b: int) -> int {
    -((-(a * ONE)) / b)
}

/// What `x` lacks to one, in fixed point.
pub open spec fn rest_to_one(x: int) -> int {
    ONE - x
}

impl FixedPoint {
    /// `(a * b) / ONE`, rounded down. Fails where the product `a * b` does not
    /// fit its type.
    pub fn mul_down(a: u128, b: u128) -> (result: Result<u128, MathError>)
        ensures
            result == if a * b <= u128::MAX {
                Ok::<u128, MathError>(product_floor(a as int, b as int) as u128)
            } else {
                Err(MathError::MulDownOverflow)
            },
            result matches Ok(value) ==> value == product_floor(a as int, b as int),
    {
        match a.checked_mul(b) {
            Some(product) => Ok(product / ONE),
            None => Err(MathError::MulDownOverflow),
        }
    }

    /// `floor((a * ONE) / b)`. Fails for `b == 0`, and where `a * ONE` does not
    /// fit its type.
    pub fn div_down(a: u128, b: u128) -> (result: Result<u128, MathError>)
        ensures
            result == if b == 0 {
                Err(MathError::DivDownByZero)
            } else if a * ONE > u128::MAX {
                Err(MathError::DivDownOverflow)
            } else {
                Ok::<u128, MathError>(quotient_floor(a as int, b as int) as u128)
            },
            result matches Ok(value) ==> value == quotient_floor(a as int, b as int),
    {
        if b == 0 {
            return Err(MathError::DivDownByZero);
        }
        match a.checked_mul(ONE) {
            Some(numerator) => {
                proof {
                    vstd::arithmetic::div_mod::lemma_div_is_ordered_by_denominator(
                        numerator as int,
                        1,
                        b as int,
                    );
                }
                Ok(numerator / b)
            },
            None => Err(MathError::DivDownOverflow),
        }
    }

    /// `ceil((a * ONE) / b)`. Fails for `b == 0`, and where `a * ONE` does not
    /// fit its type.
    pub fn div_up(a: u128, b: u128) -> (result: Result<u128, MathError>)
        ensures
            result == if b == 0 {
                Err(MathError::DivUpByZero)
            } else if a * ONE > u128::MAX {
                Err(MathError::DivUpOverflow)
            } else {
                Ok::<u128, MathError>(quotient_ceil(a as int, b as int) as u128)
            },
            result matches Ok(value) ==> value == quotient_ceil(a as int, b as int),
    {
        if b == 0 {
            return Err(MathError::DivUpByZero);
        }
        match a.checked_mul(ONE) {
            Some(numerator) => {
                if numerator == 0 {
                    proof {
                        lemma_ceil(0, b as int, 0);
                    }
                    return Ok(0);
                }
                let below: u128 = (numerator - 1) / b;
                proof {
                    lemma_floor_bounds(numerator - 1, b as int);
                    assert(below <= numerator - 1) by (nonlinear_arith)
                        requires
                            below * b <= numerator - 1,
                            b >= 1,
                            below >= 0,
                    ;
                    assert(below * b + b == (below + 1) * b) by (nonlinear_arith);
                    lemma_ceil(numerator as int, b as int, below + 1);
                }
                Ok(below + 1)
            },
            None => Err(MathError::DivUpOverflow),
        }
    }

    /// `1 - x` in fixed point. Fails for `x > ONE`.
    pub fn complement(x: u128) -> (result: Result<u128, MathError>)
        ensures
            result == if x > ONE {
                Err(MathError::ComplementOutOfRange)
            } else {
                Ok::<u128, MathError>(rest_to_one(x as int) as u128)
            },
            result matches Ok(value) ==> value == rest_to_one(x as int),
    {
        if x > ONE {
            return Err(MathError::ComplementOutOfRange);
        }
        Ok(ONE - x)
    }
}

proof fn lemma_floor_bounds(n: int, b: int)
    requires
        b > 0,
    ensures
        (n / b) * b <= n < (n / b) * b + b,
{
    vstd::arithmetic::div_mod::lemma_fundamental_div_mod(n, b);
    assert((n / b) * b == b * (n / b)) by (nonlinear_arith);
}

/// A number `q` with `(q - 1) * b < n <= q * b` is the quotient of `n` by `b`
/// rounded up.
proof fn lemma_ceil(n: int, b: int, q: int)
    requires
        b > 0,
        n <= q * b < n + b,
    ensures
        -((-n) / b) == q,
{
    lemma_floor_bounds(-n, b);
    let d = (-n) / b;
    assert((-q) * b == -(q * b)) by (nonlinear_arith);
    assert(d == -q) by (nonlinear_arith)
        requires
            b > 0,
            d * b <= -n < d * b + b,
            (-q) * b <= -n < (-q) * b + b,
    ;
}

/// The product rounded down is the largest number that, counted in ones, stays
/// within the product.
pub proof fn law_product_floor_is_largest(a: int, b: int, candidate: int)
    ensures
        candidate * ONE <= a * b <==> candidate <= product_floor(a, b),
{
    lemma_floor_bounds(a * b, ONE as int);
}

/// A number and its complement make up one.
pub proof fn law_complement_makes_up_one(x: int)
    ensures
        x + rest_to_one(x) == 1_000_000_000_000_000_000,
{
}

/// Multiplying by one changes nothing.
pub proof fn law_product_with_one(a: int)
    ensures
        product_floor(a, ONE as int) == a,
        product_floor(ONE as int, a) == a,
{
}

/// The quotient rounded down is the largest number that, multiplied by `b`,
/// stays within the dividend.
pub proof fn law_quotient_floor_is_largest(a: int, b: int, candidate: int)
    requires
        b > 0,
    ensures
        candidate * b <= a * ONE <==> candidate <= quotient_floor(a, b),
{
    let n = a * ONE;
    let q = quotient_floor(a, b);
    lemma_floor_bounds(n, b);
    assert(candidate * b <= n <==> candidate <= q) by (nonlinear_arith)
        requires
            b > 0,
            q * b <= n < q * b + b,
    ;
}

/// The quotient rounded up is the smallest number that, multiplied by `b`,
/// reaches the dividend.
pub proof fn law_quotient_ceil_is_smallest(a: int, b: int, candidate: int)
    requires
        b > 0,
    ensures
        candidate * b >= a * ONE <==> candidate >= quotient_ceil(a, b),
{
    let n = a * ONE;
    let d = (-n) / b;
    lemma_floor_bounds(-n, b);
    assert(candidate * b >= n <==> candidate >= -d) by (nonlinear_arith)
        requires
            b > 0,
            d * b <= -n < d * b + b,
    ;
}

/// Rounding up gives at most one more than rounding down, and nothing more
/// exactly when the division leaves no rest.
pub proof fn law_rounding_gap(a: int, b: int)
    requires
        b > 0,
    ensures
        quotient_floor(a, b) <= quotient_ceil(a, b) <= quotient_floor(a, b) + 1,
        quotient_ceil(a, b) == quotient_floor(a, b) <==> (a * ONE) % b == 0,
{
    let n = a * ONE;
    let q = quotient_floor(a, b);
    lemma_floor_bounds(n, b);
    vstd::arithmetic::div_mod::lemma_fundamental_div_mod(n, b);
    assert(q * b == b * q) by (nonlinear_arith);
    assert((q + 1) * b == q * b + b) by (nonlinear_arith);
    if n % b == 0 {
        lemma_ceil(n, b, q);
    } else {
        lemma_ceil(n, b, q + 1);
    }
}

/// Dividing and multiplying back never gains when rounding down, and never
/// loses when the division is rounded up.
pub proof fn law_divide_then_multiply(a: int, b: int)
    requires
        a >= 0,
        b > 0,
    ensures
        product_floor(quotient_floor(a, b), b) <= a,
        a <= product_floor(quotient_ceil(a, b), b),
{
    let down = quotient_floor(a, b);
    let up = quotient_ceil(a, b);
    law_quotient_floor_is_largest(a, b, down);
    law_quotient_ceil_is_smallest(a, b, up);
    assert(down * b <= a * ONE);
    assert(up * b >= a * ONE);
}

/// Taking the complement twice gives the number back.
pub proof fn law_complement_twice(x: int)
    requires
        0 <= x <= ONE,
    ensures
        0 <= rest_to_one(x) <= ONE,
        rest_to_one(rest_to_one(x)) == x,
{
}

} // verus!
