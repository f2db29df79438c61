//! What a pool offers for an amount of one of its tokens.
//!
//! The curve itself is a parameter: a function from the terms of a swap to the
//! amount that it pays out, or `None` where it refuses the swap. Contracts
//! speak of it through a mathematical function that it agrees with.

use crate::error::AmmError;
use crate::math::fee::{
    fee_split, law_fee_is_the_share_at_the_rate, law_higher_rate_leaves_less,
};
use crate::math::selloff::{counted_selloff, selloff_allows};
use crate::pubkey::Pubkey;
use crate::state::{
    law_first_place_is_found, law_mint_index, lp_accessible, mint_index, PoolModel, TokenSlot,
};
use vstd::prelude::*;

verus! {

/// What the curve is asked to price.
#[derive(Clone, Copy, Debug)]
pub struct SwapTerms {
    pub virtual_balance_in: u64,
    pub weight_in: u64,
    pub virtual_balance_out: u64,
    pub weight_out: u64,
    /// What is paid in, the fee already taken off.
    pub amount_in: u64,
    /// The most that can be paid out.
    pub lp_actual_out: u64,
}

/// Which side of a swap is given.
#[derive(Clone, Copy, Debug, PartialEq, Eq, Structural)]
pub enum SwapMode {
    ExactIn,
    ExactOut,
}

/// A request for a quote.
#[derive(Clone, Copy, Debug)]
pub struct QuoteParams {
    pub amount: u64,
    pub input_mint: Pubkey,
    pub output_mint: Pubkey,
    pub swap_mode: SwapMode,
}

/// A quote: `out_amount` for `in_amount`.
#[derive(Clone, Copy, Debug, PartialEq, Eq, Structural)]
pub struct Quote {
    pub in_amount: u64,
    pub out_amount: u64,
}

/// Every answer that `curve` gives is the one that `model` gives.
pub open spec fn agrees_with<F: Fn(SwapTerms) -> Option<u64>>(
    curve: F,
    model: spec_fn(SwapTerms) -> Option<u64>,
) -> bool {
    forall|terms: SwapTerms, answer: Option<u64>| #[trigger]
        curve.ensures((terms,), answer) ==> answer == model(terms)
}

/// The terms of a swap between two slots.
pub open spec fn swap_terms(
    in_slot: TokenSlot,
    out_slot: TokenSlot,
    lp_actual_out: u64,
    amount_in: u64,
) -> SwapTerms {
    SwapTerms {
        virtual_balance_in: in_slot.virtual_balance,
        weight_in: in_slot.normalized_weight,
        virtual_balance_out: out_slot.virtual_balance,
        weight_out: out_slot.normalized_weight,
        amount_in,
        lp_actual_out,
    }
}

/// The amount that reaches the curve when `amount` is sold, or why none does:
/// the sale goes over the selloff cap, the fee is refused, or nothing is left
/// after it.
pub open spec fn admitted(
    in_slot: TokenSlot,
    rate: u32,
    now: int,
    amount: u64,
) -> Result<u64, AmmError> {
    if !selloff_allows(in_slot, now, amount as int) {
        Err(AmmError::SelloffCapExceeded)
    } else {
        match fee_split(amount, rate) {
            Err(error) => Err(error),
            Ok((_, rest)) => if rest == 0 {
                Err(AmmError::NothingAfterFee)
            } else {
                Ok(rest)
            },
        }
    }
}

/// What is paid for `amount`, or why nothing is.
pub open spec fn priced(
    in_slot: TokenSlot,
    out_slot: TokenSlot,
    lp_actual_out: u64,
    rate: u32,
    now: int,
    model: spec_fn(SwapTerms) -> Option<u64>,
    amount: u64,
) -> Result<u64, AmmError> {
    match admitted(in_slot, rate, now, amount) {
        Err(error) => Err(error),
        Ok(rest) => match model(swap_terms(in_slot, out_slot, lp_actual_out, rest)) {
            Some(out) => Ok(out),
            None => Err(AmmError::CurveRefused),
        },
    }
}

/// `result` is an answer that `curve` can give for `amount`.
pub open spec fn answers<F: Fn(SwapTerms) -> Option<u64>>(
    curve: F,
    in_slot: TokenSlot,
    out_slot: TokenSlot,
    lp_actual_out: u64,
    rate: u32,
    now: int,
    amount: u64,
    result: Result<u64, AmmError>,
) -> bool {
    match admitted(in_slot, rate, now, amount) {
        Err(error) => result == Err::<u64, AmmError>(error),
        Ok(rest) => {
            let terms = swap_terms(in_slot, out_slot, lp_actual_out, rest);
            match result {
                Ok(out) => curve.ensures((terms,), Some(out)),
                Err(error) => error == AmmError::CurveRefused && curve.ensures((terms,), None),
            }
        },
    }
}

/// `curve` can leave `amount` without a price.
pub open spec fn may_refuse<F: Fn(SwapTerms) -> Option<u64>>(
    curve: F,
    in_slot: TokenSlot,
    out_slot: TokenSlot,
    rate: u32,
    now: int,
    amount: u64,
) -> bool {
    exists|error: AmmError| #[trigger]
        answers(
            curve,
            in_slot,
            out_slot,
            lp_accessible(out_slot),
            rate,
            now,
            amount,
            Err::<u64, AmmError>(error),
        )
}

/// `result` is a quote that `curve` can lead to for `amount`.
///
/// A quote states an answer of the curve for an amount that is no larger than
/// `amount`. It asks for less only where the curve can refuse both `amount` and
/// the amount next to the one quoted. Where there is no quote, the curve can
/// refuse `amount` and the amount one.
pub open spec fn is_quote_from<F: Fn(SwapTerms) -> Option<u64>>(
    curve: F,
    in_slot: TokenSlot,
    out_slot: TokenSlot,
    rate: u32,
    now: int,
    amount: u64,
    result: Result<Quote, AmmError>,
) -> bool {
    match result {
        Ok(quote) => {
            &&& 0 < quote.in_amount <= amount
            &&& answers(
                curve,
                in_slot,
                out_slot,
                lp_accessible(out_slot),
                rate,
                now,
                quote.in_amount,
                Ok::<u64, AmmError>(quote.out_amount),
            )
            &&& quote.in_amount < amount ==> may_refuse(curve, in_slot, out_slot, rate, now, amount)
            &&& quote.in_amount < amount ==> may_refuse(
                curve,
                in_slot,
                out_slot,
                rate,
                now,
                (quote.in_amount + 1) as u64,
            )
        },
        Err(error) => {
            &&& error == AmmError::NoViableQuote
            &&& may_refuse(curve, in_slot, out_slot, rate, now, amount)
            &&& may_refuse(curve, in_slot, out_slot, rate, now, 1)
        },
    }
}

/// Prices as a function of the amount alone.
pub open spec fn price_list(
    in_slot: TokenSlot,
    out_slot: TokenSlot,
    rate: u32,
    now: int,
    model: spec_fn(SwapTerms) -> Option<u64>,
) -> spec_fn(u64) -> Option<u64> {
    |amount: u64|
        match priced(in_slot, out_slot, lp_accessible(out_slot), rate, now, model, amount) {
            Ok(out) => Some(out),
            Err(_) => None,
        }
}

/// Halves the gap between an amount `lo` that is priced (or zero) and an amount
/// `hi` that is not until they are neighbours; `best` is the quote at `lo`.
pub open spec fn bisect(
    price: spec_fn(u64) -> Option<u64>,
    lo: u64,
    hi: u64,
    best: Option<Quote>,
) -> Option<Quote>
    decreases hi - lo,
{
    if hi <= lo + 1 {
        best
    } else {
        let mid = (lo + (hi - lo) / 2) as u64;
        match price(mid) {
            Some(out_amount) => bisect(price, mid, hi, Some(Quote { in_amount: mid, out_amount })),
            None => bisect(price, lo, mid, best),
        }
    }
}

/// The quote for `amount`, or else the one that bisection finds below it.
pub open spec fn best_quote(price: spec_fn(u64) -> Option<u64>, amount: u64) -> Option<Quote> {
    match price(amount) {
        Some(out_amount) => Some(Quote { in_amount: amount, out_amount }),
        None => bisect(price, 0, amount, None),
    }
}

/// Why a request is turned down before any price is asked for; otherwise the
/// two places of its mints.
pub open spec fn request_places(pool: PoolModel, request: QuoteParams) -> Result<(int, int), AmmError> {
    if !pool.pool_enabled || !pool.swaps_enabled {
        Err(AmmError::PoolDisabled)
    } else if request.amount == 0 {
        Err(AmmError::ZeroAmount)
    } else {
        let places = (
            mint_index(pool.tokens, request.input_mint),
            mint_index(pool.tokens, request.output_mint),
        );
        match places {
            (None, _) => Err(AmmError::InputMintNotInPool),
            (Some(_), None) => Err(AmmError::OutputMintNotInPool),
            (Some(i), Some(o)) => if i == o {
                Err(AmmError::SameMint)
            } else {
                Ok((i, o))
            },
        }
    }
}

/// The answer of a pool to a request at the time `now`.
pub open spec fn quoted(
    pool: PoolModel,
    request: QuoteParams,
    now: int,
    model: spec_fn(SwapTerms) -> Option<u64>,
) -> Result<Quote, AmmError> {
    match request_places(pool, request) {
        Err(error) => Err(error),
        Ok((i, o)) => match best_quote(
            price_list(pool.tokens[i], pool.tokens[o], pool.swap_fee_rate, now, model),
            request.amount,
        ) {
            Some(quote) => Ok(quote),
            None => Err(AmmError::NoViableQuote),
        },
    }
}

/// What bisection finds has a price, and the next amount has none.
proof fn lemma_bisect_quote(
    price: spec_fn(u64) -> Option<u64>,
    lo: u64,
    hi: u64,
    best: Option<Quote>,
)
    requires
        lo < hi,
        price(hi) is None,
        match best {
            Some(quote) => quote.in_amount == lo && price(lo) == Some(quote.out_amount),
            None => lo == 0,
        },
    ensures
        match bisect(price, lo, hi, best) {
            Some(quote) => {
                &&& lo <= quote.in_amount < hi
                &&& price(quote.in_amount) == Some(quote.out_amount)
                &&& price((quote.in_amount + 1) as u64) is None
            },
            None => best is None && price(1) is None,
        },
    decreases hi - lo,
{
    if hi > lo + 1 {
        let mid = (lo + (hi - lo) / 2) as u64;
        match price(mid) {
            Some(out_amount) => lemma_bisect_quote(
                price,
                mid,
                hi,
                Some(Quote { in_amount: mid, out_amount }),
            ),
            None => lemma_bisect_quote(price, lo, mid, best),
        }
    } else {
        assert(hi == lo + 1);
    }
}

proof fn lemma_best_quote(price: spec_fn(u64) -> Option<u64>, amount: u64)
    requires
        amount > 0,
    ensures
        best_quote(price, amount) matches Some(quote) ==> {
            &&& quote.in_amount <= amount
            &&& price(quote.in_amount) == Some(quote.out_amount)
            &&& price(amount) is Some ==> quote.in_amount == amount
            &&& quote.in_amount < amount ==> price((quote.in_amount + 1) as u64) is None
        },
        best_quote(price, amount) is None ==> price(amount) is None && price(1) is None,
        price(amount) is Some ==> best_quote(price, amount) is Some,
{
    if price(amount) is None {
        lemma_bisect_quote(price, 0, amount, None);
    }
}

/// The prices that a request is answered from.
pub open spec fn prices_for(
    pool: PoolModel,
    request: QuoteParams,
    now: int,
    model: spec_fn(SwapTerms) -> Option<u64>,
) -> spec_fn(u64) -> Option<u64> {
    let (i, o) = request_places(pool, request)->Ok_0;
    price_list(pool.tokens[i], pool.tokens[o], pool.swap_fee_rate, now, model)
}

/// A quote never asks for more than was requested, states the price of the
/// amount that it asks for, and asks for less only where the full amount has
/// no price. An amount that was cut cannot be raised by one. Only where neither
/// the full amount nor the amount one has a price can there be no quote.
pub proof fn law_quote_within_request(
    pool: PoolModel,
    request: QuoteParams,
    now: int,
    model: spec_fn(SwapTerms) -> Option<u64>,
)
    requires
        request_places(pool, request) is Ok,
    ensures
        ({
            let price = prices_for(pool, request, now, model);
            match quoted(pool, request, now, model) {
                Ok(quote) => {
                    &&& quote.in_amount <= request.amount
                    &&& price(quote.in_amount) == Some(quote.out_amount)
                    &&& price(request.amount) is Some ==> quote.in_amount == request.amount
                    &&& quote.in_amount < request.amount ==> price((quote.in_amount + 1) as u64) is None
                },
                Err(error) => {
                    &&& error == AmmError::NoViableQuote
                    &&& price(request.amount) is None
                    &&& price(1) is None
                },
            }
        }),
{
    lemma_best_quote(prices_for(pool, request, now, model), request.amount);
}

/// Up to `amount`, exactly the amounts from `least` to `most` have a price.
pub open spec fn priced_between(
    price: spec_fn(u64) -> Option<u64>,
    least: u64,
    most: u64,
    amount: u64,
) -> bool {
    forall|x: u64| 0 < x <= amount ==> (#[trigger] price(x) is Some <==> least <= x <= most)
}

/// The first of `amount`, its half, its quarter and so on that is at most
/// `most`.
pub open spec fn halved_to(amount: nat, most: nat) -> nat
    decreases amount,
{
    if amount <= most {
        amount
    } else {
        halved_to(amount / 2, most)
    }
}

proof fn lemma_bisect_between(
    price: spec_fn(u64) -> Option<u64>,
    least: u64,
    most: u64,
    amount: u64,
    lo: u64,
    hi: u64,
    best: Option<Quote>,
)
    requires
        0 < least <= lo <= most < hi <= amount,
        priced_between(price, least, most, amount),
        best matches Some(quote) && quote.in_amount == lo,
    ensures
        bisect(price, lo, hi, best) matches Some(quote) && quote.in_amount == most,
    decreases hi - lo,
{
    if hi > lo + 1 {
        let mid = (lo + (hi - lo) / 2) as u64;
        assert(price(mid) is Some <==> least <= mid <= most);
        match price(mid) {
            Some(out_amount) => lemma_bisect_between(
                price,
                least,
                most,
                amount,
                mid,
                hi,
                Some(Quote { in_amount: mid, out_amount }),
            ),
            None => lemma_bisect_between(price, least, most, amount, lo, mid, best),
        }
    }
}

proof fn lemma_bisect_from_zero(
    price: spec_fn(u64) -> Option<u64>,
    least: u64,
    most: u64,
    amount: u64,
    hi: u64,
)
    requires
        0 < least <= most,
        0 < hi <= amount,
        priced_between(price, least, most, amount),
        price(hi) is None,
    ensures
        match bisect(price, 0, hi, None) {
            Some(quote) => quote.in_amount == most && least <= halved_to(hi as nat, most as nat),
            None => halved_to(hi as nat, most as nat) < least,
        },
    decreases hi,
{
    assert(!(least <= hi <= most));
    if hi > 1 {
        let mid = (hi / 2) as u64;
        assert(mid == (0 + (hi - 0) / 2) as u64);
        assert(price(mid) is Some <==> least <= mid <= most);
        match price(mid) {
            Some(out_amount) => {
                lemma_bisect_between(
                    price,
                    least,
                    most,
                    amount,
                    mid,
                    hi,
                    Some(Quote { in_amount: mid, out_amount }),
                );
            },
            None => {
                lemma_bisect_from_zero(price, least, most, amount, mid);
                assert(bisect(price, 0, hi, None) == bisect(price, 0, mid, None));
                assert(hi < least ==> mid < least);
            },
        }
        assert(halved_to(hi as nat, most as nat) == if hi <= most {
            hi as nat
        } else {
            halved_to(mid as nat, most as nat)
        });
    }
}

/// Where the amounts that have a price form a range, the quote asks for the
/// largest of them that was requested, unless halving the requested amount
/// steps over the range; then there is no quote.
pub proof fn law_quote_is_largest(
    pool: PoolModel,
    request: QuoteParams,
    now: int,
    model: spec_fn(SwapTerms) -> Option<u64>,
    least: u64,
    most: u64,
)
    requires
        request_places(pool, request) is Ok,
        0 < least <= most,
        priced_between(prices_for(pool, request, now, model), least, most, request.amount),
    ensures
        match quoted(pool, request, now, model) {
            Ok(quote) => {
                &&& quote.in_amount == if most <= request.amount {
                    most
                } else {
                    request.amount
                }
                &&& least <= halved_to(request.amount as nat, most as nat)
            },
            Err(error) => {
                &&& error == AmmError::NoViableQuote
                &&& halved_to(request.amount as nat, most as nat) < least
            },
        },
{
    let price = prices_for(pool, request, now, model);
    assert(price(request.amount) is Some <==> least <= request.amount <= most);
    if price(request.amount) is None {
        lemma_bisect_from_zero(price, least, most, request.amount, request.amount);
    }
}

/// Halving cannot step over a range whose least amount is at most half of its
/// largest one, rounded up.
pub proof fn law_halving_lands_in_wide_range(amount: nat, least: nat, most: nat)
    requires
        least <= amount,
        2 * least <= most + 1,
    ensures
        least <= halved_to(amount, most),
    decreases amount,
{
    if amount > most {
        law_halving_lands_in_wide_range(amount / 2, least, most);
    }
}

/// A curve agrees with a function exactly when no answer that it can give
/// differs from the function's.
pub proof fn law_agreeing_is_answering_alike<F: Fn(SwapTerms) -> Option<u64>>(
    curve: F,
    model: spec_fn(SwapTerms) -> Option<u64>,
)
    ensures
        agrees_with(curve, model) <==> forall|terms: SwapTerms, answer: Option<u64>| #[trigger]
            curve.ensures((terms,), answer) ==> answer == model(terms),
{
}

/// The terms on which the curve is asked carry the virtual balance and the
/// weight of the slot sold and of the slot bought, the amount and the cap, as
/// they are.
pub proof fn law_terms_carry_the_slots(
    in_slot: TokenSlot,
    out_slot: TokenSlot,
    lp_actual_out: u64,
    amount_in: u64,
)
    ensures
        ({
            let terms = swap_terms(in_slot, out_slot, lp_actual_out, amount_in);
            &&& terms.virtual_balance_in == in_slot.virtual_balance
            &&& terms.weight_in == in_slot.normalized_weight
            &&& terms.virtual_balance_out == out_slot.virtual_balance
            &&& terms.weight_out == out_slot.normalized_weight
            &&& terms.amount_in == amount_in
            &&& terms.lp_actual_out == lp_actual_out
        }),
{
}

proof fn lemma_fee_is(amount: u64, rate: u32, fee: int)
    requires
        fee * 1_000_000 <= amount * rate < (fee + 1) * 1_000_000,
    ensures
        fee >= 0,
        fee_split(amount, rate) == if fee == 0 {
            Err(AmmError::ZeroFee)
        } else if fee > amount {
            Err(AmmError::FeeExceedsAmount)
        } else {
            Ok::<(u64, u64), AmmError>((fee as u64, (amount - fee) as u64))
        },
{
    law_fee_is_the_share_at_the_rate(amount, rate);
    assert(amount * rate >= 0) by (nonlinear_arith)
        requires
            amount >= 0,
            rate >= 0,
    ;
}

/// An amount is refused for the cap, for its fee, or because the fee leaves
/// nothing, in this order; otherwise it has the price that the curve gives for
/// what the fee leaves of it, at the balances and weights of the two slots.
pub proof fn law_price_is_the_curve_after_the_fee(
    in_slot: TokenSlot,
    out_slot: TokenSlot,
    lp_actual_out: u64,
    rate: u32,
    now: int,
    model: spec_fn(SwapTerms) -> Option<u64>,
    amount: u64,
    fee: int,
)
    requires
        fee * 1_000_000 <= amount * rate < (fee + 1) * 1_000_000,
    ensures
        ({
            let price = priced(in_slot, out_slot, lp_actual_out, rate, now, model, amount);
            let over = in_slot.max_selloff > 0 && counted_selloff(in_slot, now) + amount
                > in_slot.max_selloff;
            let answer = model(
                SwapTerms {
                    virtual_balance_in: in_slot.virtual_balance,
                    weight_in: in_slot.normalized_weight,
                    virtual_balance_out: out_slot.virtual_balance,
                    weight_out: out_slot.normalized_weight,
                    amount_in: (amount - fee) as u64,
                    lp_actual_out,
                },
            );
            &&& over <==> price == Err::<u64, AmmError>(AmmError::SelloffCapExceeded)
            &&& !over && fee == 0 <==> price == Err::<u64, AmmError>(AmmError::ZeroFee)
            &&& !over && fee > 0 && fee > amount <==> price == Err::<u64, AmmError>(
                AmmError::FeeExceedsAmount,
            )
            &&& !over && fee > 0 && fee == amount <==> price == Err::<u64, AmmError>(
                AmmError::NothingAfterFee,
            )
            &&& !over && 0 < fee < amount && answer is None <==> price == Err::<u64, AmmError>(
                AmmError::CurveRefused,
            )
            &&& !over && 0 < fee < amount && answer is Some <==> price is Ok
            &&& price matches Ok(out) ==> answer == Some(out)
        }),
{
    lemma_fee_is(amount, rate, fee);
}

/// The same of the answers that a curve can give, whether or not it always gives
/// the same one: it is asked on these terms and on no others.
pub proof fn law_curve_is_asked_after_the_fee<F: Fn(SwapTerms) -> Option<u64>>(
    curve: F,
    in_slot: TokenSlot,
    out_slot: TokenSlot,
    lp_actual_out: u64,
    rate: u32,
    now: int,
    amount: u64,
    fee: int,
    result: Result<u64, AmmError>,
)
    requires
        fee * 1_000_000 <= amount * rate < (fee + 1) * 1_000_000,
    ensures
        ({
            let over = in_slot.max_selloff > 0 && counted_selloff(in_slot, now) + amount
                > in_slot.max_selloff;
            let terms = SwapTerms {
                virtual_balance_in: in_slot.virtual_balance,
                weight_in: in_slot.normalized_weight,
                virtual_balance_out: out_slot.virtual_balance,
                weight_out: out_slot.normalized_weight,
                amount_in: (amount - fee) as u64,
                lp_actual_out,
            };
            let possible = answers(
                curve,
                in_slot,
                out_slot,
                lp_actual_out,
                rate,
                now,
                amount,
                result,
            );
            &&& over ==> (possible <==> result == Err::<u64, AmmError>(
                AmmError::SelloffCapExceeded,
            ))
            &&& !over && fee == 0 ==> (possible <==> result == Err::<u64, AmmError>(
                AmmError::ZeroFee,
            ))
            &&& !over && fee > 0 && fee > amount ==> (possible <==> result == Err::<u64, AmmError>(
                AmmError::FeeExceedsAmount,
            ))
            &&& !over && fee > 0 && fee == amount ==> (possible <==> result == Err::<
                u64,
                AmmError,
            >(AmmError::NothingAfterFee))
            &&& !over && 0 < fee < amount ==> (possible <==> match result {
                Ok(out) => curve.ensures((terms,), Some(out)),
                Err(error) => error == AmmError::CurveRefused && curve.ensures((terms,), None),
            })
        }),
{
    lemma_fee_is(amount, rate, fee);
}

/// What a curve that agrees with a function can answer is the price by that
/// function, and nothing else.
pub proof fn law_answers_are_prices<F: Fn(SwapTerms) -> Option<u64>>(
    curve: F,
    model: spec_fn(SwapTerms) -> Option<u64>,
    in_slot: TokenSlot,
    out_slot: TokenSlot,
    lp_actual_out: u64,
    rate: u32,
    now: int,
    amount: u64,
    result: Result<u64, AmmError>,
)
    requires
        agrees_with(curve, model),
        answers(curve, in_slot, out_slot, lp_actual_out, rate, now, amount, result),
    ensures
        result == priced(in_slot, out_slot, lp_actual_out, rate, now, model, amount),
{
}

/// An amount can be refused exactly where an error is among the answers that the
/// curve can give, with what the vault can pay as the cap.
pub proof fn law_refusal_is_an_error_answered<F: Fn(SwapTerms) -> Option<u64>>(
    curve: F,
    in_slot: TokenSlot,
    out_slot: TokenSlot,
    rate: u32,
    now: int,
    amount: u64,
    cap: u64,
)
    requires
        cap + out_slot.protocol_fees_owed == out_slot.actual_balance || (cap == 0
            && out_slot.protocol_fees_owed > out_slot.actual_balance),
    ensures
        may_refuse(curve, in_slot, out_slot, rate, now, amount) <==> exists|error: AmmError| #[trigger]
            answers(
                curve,
                in_slot,
                out_slot,
                cap,
                rate,
                now,
                amount,
                Err::<u64, AmmError>(error),
            ),
{
    assert(cap == lp_accessible(out_slot));
}

/// Whatever a curve answers, a quote from it is an answer for a positive amount
/// within the request, cut only where the curve can refuse the request and the
/// next amount; and there is none only where the curve can refuse the request and
/// the amount one.
pub proof fn law_quote_from_any_curve<F: Fn(SwapTerms) -> Option<u64>>(
    curve: F,
    in_slot: TokenSlot,
    out_slot: TokenSlot,
    rate: u32,
    now: int,
    amount: u64,
    result: Result<Quote, AmmError>,
)
    ensures
        is_quote_from(curve, in_slot, out_slot, rate, now, amount, result) <==> ({
            let cap = if out_slot.actual_balance >= out_slot.protocol_fees_owed {
                (out_slot.actual_balance - out_slot.protocol_fees_owed) as u64
            } else {
                0u64
            };
            match result {
                Ok(quote) => {
                    &&& 0 < quote.in_amount <= amount
                    &&& answers(
                        curve,
                        in_slot,
                        out_slot,
                        cap,
                        rate,
                        now,
                        quote.in_amount,
                        Ok::<u64, AmmError>(quote.out_amount),
                    )
                    &&& quote.in_amount < amount ==> {
                        &&& may_refuse(curve, in_slot, out_slot, rate, now, amount)
                        &&& may_refuse(
                            curve,
                            in_slot,
                            out_slot,
                            rate,
                            now,
                            (quote.in_amount + 1) as u64,
                        )
                    }
                },
                Err(error) => {
                    &&& error == AmmError::NoViableQuote
                    &&& may_refuse(curve, in_slot, out_slot, rate, now, amount)
                    &&& may_refuse(curve, in_slot, out_slot, rate, now, 1)
                },
            }
        }),
{
}

/// A price list has for every amount the price of that amount, with what the
/// vault can pay as the cap.
pub proof fn law_price_list_lists_prices(
    in_slot: TokenSlot,
    out_slot: TokenSlot,
    rate: u32,
    now: int,
    model: spec_fn(SwapTerms) -> Option<u64>,
    amount: u64,
    cap: u64,
)
    requires
        cap + out_slot.protocol_fees_owed == out_slot.actual_balance || (cap == 0
            && out_slot.protocol_fees_owed > out_slot.actual_balance),
    ensures
        forall|out: u64|
            price_list(in_slot, out_slot, rate, now, model)(amount) == Some(out) <==> priced(
                in_slot,
                out_slot,
                cap,
                rate,
                now,
                model,
                amount,
            ) == Ok::<u64, AmmError>(out),
{
    assert(cap == lp_accessible(out_slot));
}

/// Bisection stops at neighbours. Otherwise it goes on from the middle: upwards,
/// with the middle as the best so far, where that has a price, and downwards
/// where it has none.
pub proof fn law_bisection_halves(
    price: spec_fn(u64) -> Option<u64>,
    lo: u64,
    hi: u64,
    best: Option<Quote>,
    mid: u64,
)
    requires
        lo < hi,
        2 * mid == lo + hi || 2 * mid + 1 == lo + hi,
    ensures
        hi == lo + 1 ==> bisect(price, lo, hi, best) == best,
        hi > lo + 1 && price(mid) is None ==> bisect(price, lo, hi, best) == bisect(
            price,
            lo,
            mid,
            best,
        ),
        hi > lo + 1 && price(mid) is Some ==> bisect(price, lo, hi, best) == bisect(
            price,
            mid,
            hi,
            Some(Quote { in_amount: mid, out_amount: price(mid)->0 }),
        ),
{
    assert(hi > lo + 1 ==> mid == lo + (hi - lo) / 2);
}

/// The full amount is quoted where it has a price, and bisected from zero where
/// it has none.
pub proof fn law_full_amount_comes_first(price: spec_fn(u64) -> Option<u64>, amount: u64)
    ensures
        price(amount) is Some ==> best_quote(price, amount) == Some(
            Quote { in_amount: amount, out_amount: price(amount)->0 },
        ),
        price(amount) is None ==> best_quote(price, amount) == bisect(price, 0, amount, None),
{
}

/// A request is turned down for a switch that is off, then for asking for
/// nothing, then for a mint that no slot has, the one sold first, then for
/// selling a token for itself. Otherwise it is between the first places of its
/// two mints.
pub proof fn law_requests_are_turned_down(pool: PoolModel, request: QuoteParams)
    ensures
        ({
            let off = !pool.pool_enabled || !pool.swaps_enabled;
            let places = request_places(pool, request);
            let has_input = exists|i: int|
                0 <= i < pool.tokens.len() && #[trigger] pool.tokens[i].mint == request.input_mint;
            let has_output = exists|i: int|
                0 <= i < pool.tokens.len() && #[trigger] pool.tokens[i].mint == request.output_mint;
            let heard = !off && request.amount > 0;
            &&& off <==> places == Err::<(int, int), AmmError>(AmmError::PoolDisabled)
            &&& !off && request.amount == 0 <==> places == Err::<(int, int), AmmError>(
                AmmError::ZeroAmount,
            )
            &&& heard && !has_input <==> places == Err::<(int, int), AmmError>(
                AmmError::InputMintNotInPool,
            )
            &&& heard && has_input && !has_output <==> places == Err::<(int, int), AmmError>(
                AmmError::OutputMintNotInPool,
            )
            &&& heard && has_input && has_output && request.input_mint == request.output_mint
                <==> places == Err::<(int, int), AmmError>(AmmError::SameMint)
            &&& heard && has_input && has_output && request.input_mint != request.output_mint
                <==> places is Ok
            &&& places matches Ok((i, o)) ==> {
                &&& 0 <= i < pool.tokens.len()
                &&& 0 <= o < pool.tokens.len()
                &&& pool.tokens[i].mint == request.input_mint
                &&& pool.tokens[o].mint == request.output_mint
                &&& forall|j: int| 0 <= j < i ==> pool.tokens[j].mint != request.input_mint
                &&& forall|j: int| 0 <= j < o ==> pool.tokens[j].mint != request.output_mint
            }
        }),
{
    law_mint_index(pool.tokens, request.input_mint);
    law_mint_index(pool.tokens, request.output_mint);
}

/// A request that is turned down is answered with the reason, and any other one
/// with the best quote of a list of its prices, or with there being none.
pub proof fn law_quote_is_taken_from_the_prices(
    pool: PoolModel,
    request: QuoteParams,
    now: int,
    model: spec_fn(SwapTerms) -> Option<u64>,
    price: spec_fn(u64) -> Option<u64>,
)
    requires
        request_places(pool, request) matches Ok((i, o)) ==> {
            let out_slot = pool.tokens[o];
            let cap = if out_slot.actual_balance >= out_slot.protocol_fees_owed {
                (out_slot.actual_balance - out_slot.protocol_fees_owed) as u64
            } else {
                0u64
            };
            forall|x: u64| #[trigger]
                price(x) == match priced(
                    pool.tokens[i],
                    out_slot,
                    cap,
                    pool.swap_fee_rate,
                    now,
                    model,
                    x,
                ) {
                    Ok(out) => Some(out),
                    Err(_) => None,
                }
        },
    ensures
        match request_places(pool, request) {
            Err(error) => quoted(pool, request, now, model) == Err::<Quote, AmmError>(error),
            Ok(_) => match best_quote(price, request.amount) {
                Some(quote) => quoted(pool, request, now, model) == Ok::<Quote, AmmError>(quote),
                None => quoted(pool, request, now, model) == Err::<Quote, AmmError>(
                    AmmError::NoViableQuote,
                ),
            },
        },
{
    if let Ok((i, o)) = request_places(pool, request) {
        assert(price =~= price_list(
            pool.tokens[i],
            pool.tokens[o],
            pool.swap_fee_rate,
            now,
            model,
        ));
    }
}

/// What a quote promises is what the curve pays for the quoted amount less its
/// fee, at the virtual balances and weights of the two slots and with what the
/// vault can pay as the cap; and the quoted amount is within the request and
/// within the selloff cap.
pub proof fn law_quote_pays_the_curve_price(
    pool: PoolModel,
    request: QuoteParams,
    now: int,
    model: spec_fn(SwapTerms) -> Option<u64>,
    i: int,
    o: int,
    quote: Quote,
    fee: int,
)
    requires
        0 <= i < pool.tokens.len(),
        pool.tokens[i].mint == request.input_mint,
        forall|j: int| 0 <= j < i ==> pool.tokens[j].mint != request.input_mint,
        0 <= o < pool.tokens.len(),
        pool.tokens[o].mint == request.output_mint,
        forall|j: int| 0 <= j < o ==> pool.tokens[j].mint != request.output_mint,
        quoted(pool, request, now, model) == Ok::<Quote, AmmError>(quote),
        fee * 1_000_000 <= quote.in_amount * pool.swap_fee_rate < (fee + 1) * 1_000_000,
    ensures
        ({
            let sold = pool.tokens[i];
            let bought = pool.tokens[o];
            &&& 0 < fee < quote.in_amount <= request.amount
            &&& sold.max_selloff > 0 ==> counted_selloff(sold, now) + quote.in_amount
                <= sold.max_selloff
            &&& model(
                SwapTerms {
                    virtual_balance_in: sold.virtual_balance,
                    weight_in: sold.normalized_weight,
                    virtual_balance_out: bought.virtual_balance,
                    weight_out: bought.normalized_weight,
                    amount_in: (quote.in_amount - fee) as u64,
                    lp_actual_out: if bought.actual_balance >= bought.protocol_fees_owed {
                        (bought.actual_balance - bought.protocol_fees_owed) as u64
                    } else {
                        0
                    },
                },
            ) == Some(quote.out_amount)
        }),
{
    law_first_place_is_found(pool.tokens, request.input_mint, i);
    law_first_place_is_found(pool.tokens, request.output_mint, o);
    law_quote_within_request(pool, request, now, model);
    law_price_is_the_curve_after_the_fee(
        pool.tokens[i],
        pool.tokens[o],
        lp_accessible(pool.tokens[o]),
        pool.swap_fee_rate,
        now,
        model,
        quote.in_amount,
        fee,
    );
}

/// An amount that stays within the selloff cap, bears a fee without being used
/// up by it, and for which the curve pays is quoted in full, with what the curve
/// pays.
pub proof fn law_viable_amount_is_quoted_in_full(
    pool: PoolModel,
    request: QuoteParams,
    now: int,
    model: spec_fn(SwapTerms) -> Option<u64>,
    i: int,
    o: int,
    fee: int,
    out: u64,
)
    requires
        pool.pool_enabled,
        pool.swaps_enabled,
        0 <= i < pool.tokens.len(),
        pool.tokens[i].mint == request.input_mint,
        forall|j: int| 0 <= j < i ==> pool.tokens[j].mint != request.input_mint,
        0 <= o < pool.tokens.len(),
        pool.tokens[o].mint == request.output_mint,
        forall|j: int| 0 <= j < o ==> pool.tokens[j].mint != request.output_mint,
        request.input_mint != request.output_mint,
        fee * 1_000_000 <= request.amount * pool.swap_fee_rate < (fee + 1) * 1_000_000,
        0 < fee < request.amount,
        pool.tokens[i].max_selloff == 0 || counted_selloff(pool.tokens[i], now) + request.amount
            <= pool.tokens[i].max_selloff,
        model(
            SwapTerms {
                virtual_balance_in: pool.tokens[i].virtual_balance,
                weight_in: pool.tokens[i].normalized_weight,
                virtual_balance_out: pool.tokens[o].virtual_balance,
                weight_out: pool.tokens[o].normalized_weight,
                amount_in: (request.amount - fee) as u64,
                lp_actual_out: if pool.tokens[o].actual_balance
                    >= pool.tokens[o].protocol_fees_owed {
                    (pool.tokens[o].actual_balance - pool.tokens[o].protocol_fees_owed) as u64
                } else {
                    0
                },
            },
        ) == Some(out),
    ensures
        quoted(pool, request, now, model) == Ok::<Quote, AmmError>(
            Quote { in_amount: request.amount, out_amount: out },
        ),
{
    law_first_place_is_found(pool.tokens, request.input_mint, i);
    law_first_place_is_found(pool.tokens, request.output_mint, o);
    law_price_is_the_curve_after_the_fee(
        pool.tokens[i],
        pool.tokens[o],
        lp_accessible(pool.tokens[o]),
        pool.swap_fee_rate,
        now,
        model,
        request.amount,
        fee,
    );
}

/// A quote never breaks the selloff cap of the token that is sold, where it has
/// one.
pub proof fn law_quote_keeps_selloff_cap(
    pool: PoolModel,
    request: QuoteParams,
    now: int,
    model: spec_fn(SwapTerms) -> Option<u64>,
)
    ensures
        quoted(pool, request, now, model) matches Ok(quote) ==> {
            let (i, _) = request_places(pool, request)->Ok_0;
            let in_slot = pool.tokens[i];
            &&& quote.in_amount <= request.amount
            &&& in_slot.max_selloff > 0 ==> counted_selloff(in_slot, now) + quote.in_amount
                <= in_slot.max_selloff
        },
{
    if request_places(pool, request) is Ok {
        law_quote_within_request(pool, request, now, model);
    }
}

/// The curve never pays out more than it is told there is.
pub open spec fn keeps_to_vault(model: spec_fn(SwapTerms) -> Option<u64>) -> bool {
    forall|terms: SwapTerms| #[trigger] model(terms) matches Some(out) ==> out <= terms.lp_actual_out
}

/// With a curve that keeps to the vault, a quote never promises more than the
/// vault can pay.
pub proof fn law_quote_keeps_to_vault(
    pool: PoolModel,
    request: QuoteParams,
    now: int,
    model: spec_fn(SwapTerms) -> Option<u64>,
)
    requires
        keeps_to_vault(model),
    ensures
        quoted(pool, request, now, model) matches Ok(quote) ==> {
            let (_, o) = request_places(pool, request)->Ok_0;
            quote.out_amount <= lp_accessible(pool.tokens[o])
        },
{
    if request_places(pool, request) is Ok {
        law_quote_within_request(pool, request, now, model);
    }
}

/// A disabled pool, or one with swaps disabled, quotes nothing.
pub proof fn law_disabled_pool_quotes_nothing(
    pool: PoolModel,
    request: QuoteParams,
    now: int,
    model: spec_fn(SwapTerms) -> Option<u64>,
)
    requires
        !pool.pool_enabled || !pool.swaps_enabled,
    ensures
        quoted(pool, request, now, model) == Err::<Quote, AmmError>(AmmError::PoolDisabled),
{
}

/// Two pools list the same mints in the same order.
pub open spec fn same_mints(a: Seq<TokenSlot>, b: Seq<TokenSlot>) -> bool {
    &&& a.len() == b.len()
    &&& forall|j: int| 0 <= j < a.len() ==> #[trigger] a[j].mint == b[j].mint
}

proof fn lemma_same_mints_same_index(a: Seq<TokenSlot>, b: Seq<TokenSlot>, mint: Pubkey)
    requires
        same_mints(a, b),
    ensures
        mint_index(a, mint) == mint_index(b, mint),
{
    law_mint_index(a, mint);
    law_mint_index(b, mint);
    match (mint_index(a, mint), mint_index(b, mint)) {
        (Some(i), Some(k)) => {
            assert(a[i].mint == b[i].mint);
            assert(a[k].mint == b[k].mint);
        },
        (Some(i), None) => {
            assert(b[i].mint == mint);
        },
        (None, Some(k)) => {
            assert(a[k].mint == mint);
        },
        (None, None) => {},
    }
}

/// Two slots look alike to a trader who sells their token.
pub open spec fn same_to_sell(a: TokenSlot, b: TokenSlot) -> bool {
    &&& a.virtual_balance == b.virtual_balance
    &&& a.normalized_weight == b.normalized_weight
    &&& a.max_selloff == b.max_selloff
    &&& a.max_selloff_period_length == b.max_selloff_period_length
    &&& a.previous_selloff == b.previous_selloff
    &&& a.current_selloff == b.current_selloff
    &&& a.window_start_timestamp == b.window_start_timestamp
}

/// Two slots look alike to a trader who buys their token.
pub open spec fn same_to_buy(a: TokenSlot, b: TokenSlot) -> bool {
    &&& a.virtual_balance == b.virtual_balance
    &&& a.normalized_weight == b.normalized_weight
    &&& lp_accessible(a) == lp_accessible(b)
}

/// A quote depends on nothing but the switches, the swap fee rate, the order of
/// the mints, of the token that is sold its virtual balance, its weight and its
/// selloff record, and of the token that is bought its virtual balance, its
/// weight and what traders can be paid of it.
///
/// So it does not change with the protocol fee rate, with the selloff cap of
/// the token that is bought, or with the other tokens.
pub proof fn law_quote_depends_on(
    pool: PoolModel,
    other: PoolModel,
    request: QuoteParams,
    now: int,
    model: spec_fn(SwapTerms) -> Option<u64>,
)
    requires
        pool.pool_enabled == other.pool_enabled,
        pool.swaps_enabled == other.swaps_enabled,
        pool.swap_fee_rate == other.swap_fee_rate,
        same_mints(pool.tokens, other.tokens),
        request_places(pool, request) matches Ok((i, o)) ==> {
            &&& same_to_sell(pool.tokens[i], other.tokens[i])
            &&& same_to_buy(pool.tokens[o], other.tokens[o])
        },
    ensures
        quoted(pool, request, now, model) == quoted(other, request, now, model),
{
    lemma_same_mints_same_index(pool.tokens, other.tokens, request.input_mint);
    lemma_same_mints_same_index(pool.tokens, other.tokens, request.output_mint);
    if let Ok((i, o)) = request_places(pool, request) {
        let before = price_list(pool.tokens[i], pool.tokens[o], pool.swap_fee_rate, now, model);
        let after = price_list(other.tokens[i], other.tokens[o], other.swap_fee_rate, now, model);
        assert(before =~= after);
    }
}

/// The protocol fee rate, which divides the swap fee between the pool and the
/// treasury, does not change what a trader is paid.
pub proof fn law_protocol_fee_rate_changes_no_quote(
    pool: PoolModel,
    protocol_fee_rate: u16,
    request: QuoteParams,
    now: int,
    model: spec_fn(SwapTerms) -> Option<u64>,
)
    ensures
        quoted(PoolModel { protocol_fee_rate, ..pool }, request, now, model) == quoted(
            pool,
            request,
            now,
            model,
        ),
{
}

/// Collecting the protocol fees of a token out of its vault changes no quote.
pub proof fn law_collecting_fees_changes_no_quote(
    pool: PoolModel,
    place: int,
    request: QuoteParams,
    now: int,
    model: spec_fn(SwapTerms) -> Option<u64>,
)
    requires
        0 <= place < pool.tokens.len(),
        pool.tokens[place].protocol_fees_owed <= pool.tokens[place].actual_balance,
    ensures
        ({
            let slot = pool.tokens[place];
            let collected = TokenSlot {
                actual_balance: (slot.actual_balance - slot.protocol_fees_owed) as u64,
                protocol_fees_owed: 0,
                ..slot
            };
            let after = PoolModel { tokens: pool.tokens.update(place, collected), ..pool };
            quoted(after, request, now, model) == quoted(pool, request, now, model)
        }),
{
    let slot = pool.tokens[place];
    let collected = TokenSlot {
        actual_balance: (slot.actual_balance - slot.protocol_fees_owed) as u64,
        protocol_fees_owed: 0,
        ..slot
    };
    let after = PoolModel { tokens: pool.tokens.update(place, collected), ..pool };
    assert(same_mints(pool.tokens, after.tokens));
    if let Ok((i, o)) = request_places(pool, request) {
        law_mint_index(pool.tokens, request.input_mint);
        law_mint_index(pool.tokens, request.output_mint);
    }
    law_quote_depends_on(pool, after, request, now, model);
}

/// The curve pays no less for more, all else being equal.
pub open spec fn pays_more_for_more(model: spec_fn(SwapTerms) -> Option<u64>) -> bool {
    forall|small: SwapTerms, large: SwapTerms|
        {
            &&& #[trigger] model(small) is Some
            &&& #[trigger] model(large) is Some
            &&& small.amount_in <= large.amount_in
            &&& large == SwapTerms { amount_in: large.amount_in, ..small }
        } ==> model(small)->0 <= model(large)->0
}

/// With such a curve, a higher swap fee never raises the price of an amount.
pub proof fn law_higher_fee_pays_no_more(
    in_slot: TokenSlot,
    out_slot: TokenSlot,
    low: u32,
    high: u32,
    now: int,
    model: spec_fn(SwapTerms) -> Option<u64>,
    amount: u64,
)
    requires
        low <= high,
        pays_more_for_more(model),
        price_list(in_slot, out_slot, low, now, model)(amount) is Some,
        price_list(in_slot, out_slot, high, now, model)(amount) is Some,
    ensures
        price_list(in_slot, out_slot, high, now, model)(amount)->0 <= price_list(
            in_slot,
            out_slot,
            low,
            now,
            model,
        )(amount)->0,
{
    law_higher_rate_leaves_less(amount, low, high);
    let cap = lp_accessible(out_slot);
    let rest_low = admitted(in_slot, low, now, amount)->Ok_0;
    let rest_high = admitted(in_slot, high, now, amount)->Ok_0;
    let large = swap_terms(in_slot, out_slot, cap, rest_low);
    let small = swap_terms(in_slot, out_slot, cap, rest_high);
    assert(large == SwapTerms { amount_in: large.amount_in, ..small });
    assert(model(small) is Some && model(large) is Some);
}

} // verus!
