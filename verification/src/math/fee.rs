//! The swap fee.

use crate::constants::FEE_DENOMINATOR;
use crate::error::AmmError;
use vstd::prelude::*;

verus! {

/// The fee on `amount` at `rate` millionths, rounded down.
pub open spec fn swap_fee(amount: int, rate: int) -> int {
    (amount * rate) / (FEE_DENOMINATOR as int)
}

/// The fee and what is left of the amount, or why the amount is refused.
pub open spec fn fee_split(amount: u64, rate: u32) -> Result<(u64, u64), AmmError> {
    let fee = swap_fee(amount as int, rate as int);
    if fee == 0 {
        Err(AmmError::ZeroFee)
    } else if fee > amount {
        Err(AmmError::FeeExceedsAmount)
    } else {
        Ok((fee as u64, (amount - fee) as u64))
    }
}

/// Splits `amount` into the fee at `rate` millionths, rounded down, and the
/// rest. An amount too small to bear a fee is refused, and so is a rate that
/// asks for more than the amount.
pub fn apply_swap_fee(amount: u64, rate: u32) -> (result: Result<(u64, u64), AmmError>)
    ensures
        result == fee_split(amount, rate),
{
    proof {
        assert(amount * rate <= u64::MAX * u32::MAX) by (nonlinear_arith)
            requires
                0 <= amount <= u64::MAX,
                0 <= rate <= u32::MAX,
        ;
        assert(0 <= amount * rate) by (nonlinear_arith)
            requires
                0 <= amount,
                0 <= rate,
        ;
    }
    let fee: u128 = (amount as u128 * rate as u128) / FEE_DENOMINATOR as u128;
    if fee == 0 {
        return Err(AmmError::ZeroFee);
    }
    if fee > amount as u128 {
        return Err(AmmError::FeeExceedsAmount);
    }
    Ok((fee as u64, amount - fee as u64))
}

/// The fee is the amount's share at the rate itself, rounded down, and it is
/// refused exactly where it comes to nothing or to more than the amount.
///
/// All of it is said of the product of amount and rate: a whole fee is a million
/// of it.
pub proof fn law_fee_is_the_share_at_the_rate(amount: u64, rate: u32)
    ensures
        fee_split(amount, rate) matches Ok((fee, rest)) ==> {
            &&& fee * 1_000_000 <= amount * rate < (fee + 1) * 1_000_000
            &&& fee + rest == amount
        },
        fee_split(amount, rate) == Err::<(u64, u64), AmmError>(AmmError::ZeroFee) <==> amount * rate
            < 1_000_000,
        fee_split(amount, rate) == Err::<(u64, u64), AmmError>(AmmError::FeeExceedsAmount) <==> {
            &&& amount * rate >= 1_000_000
            &&& amount * rate >= (amount + 1) * 1_000_000
        },
        fee_split(amount, rate) is Ok <==> 1_000_000 <= amount * rate < (amount + 1) * 1_000_000,
{
    lemma_fee_not_negative(amount, rate);
    let product = amount * rate;
    assert(product >= 0) by (nonlinear_arith)
        requires
            product == amount * rate,
            amount >= 0,
            rate >= 0,
    ;
}

/// The fee before any refusal is the number of whole millions in the product.
pub proof fn law_fee_counts_millions(amount: int, rate: int)
    ensures
        swap_fee(amount, rate) * 1_000_000 <= amount * rate < (swap_fee(amount, rate) + 1)
            * 1_000_000,
{
}

/// The fee and the rest make up the amount, and the fee is never nothing.
pub proof fn law_fee_conserves_amount(amount: u64, rate: u32)
    ensures
        fee_split(amount, rate) matches Ok((fee, rest)) ==> fee + rest == amount && fee > 0,
{
    lemma_fee_not_negative(amount, rate);
}

proof fn lemma_fee_not_negative(amount: u64, rate: u32)
    ensures
        swap_fee(amount as int, rate as int) >= 0,
{
    assert(amount * rate >= 0) by (nonlinear_arith)
        requires
            amount >= 0,
            rate >= 0,
    ;
}

/// A higher rate leaves no more of the same amount.
pub proof fn law_higher_rate_leaves_less(amount: u64, low: u32, high: u32)
    requires
        low <= high,
        fee_split(amount, low) is Ok,
        fee_split(amount, high) is Ok,
    ensures
        fee_split(amount, high)->Ok_0.1 <= fee_split(amount, low)->Ok_0.1,
{
    assert(amount * low <= amount * high) by (nonlinear_arith)
        requires
            amount >= 0,
            low <= high,
    ;
    lemma_fee_not_negative(amount, low);
    vstd::arithmetic::div_mod::lemma_div_is_ordered(
        amount * low,
        amount * high,
        FEE_DENOMINATOR as int,
    );
}

/// At one rate, a larger amount leaves no less after the fee.
pub proof fn law_larger_amount_leaves_more(small: u64, large: u64, rate: u32)
    requires
        small <= large,
        fee_split(small, rate) is Ok,
        fee_split(large, rate) is Ok,
    ensures
        fee_split(small, rate)->Ok_0.1 <= fee_split(large, rate)->Ok_0.1,
{
    let s = small as int;
    let l = large as int;
    let r = rate as int;
    lemma_fee_not_negative(small, rate);
    lemma_fee_not_negative(large, rate);
    if r <= FEE_DENOMINATOR {
        assert(l * r <= s * r + (l - s) * FEE_DENOMINATOR) by (nonlinear_arith)
            requires
                s <= l,
                r <= FEE_DENOMINATOR,
        ;
    } else {
        assert(s == 0 || s * r >= s * FEE_DENOMINATOR + s) by (nonlinear_arith)
            requires
                s >= 0,
                r >= FEE_DENOMINATOR + 1,
        ;
        assert(swap_fee(s, r) >= s);
    }
}

} // verus!
