//! The cap on how much of a token may be sold into the pool per window.
//!
//! Sales are counted in windows of a fixed length. The sales of the window
//! before the current one still count, with the share of a window that has not
//! yet passed since.

use crate::state::TokenSlot;
use vstd::prelude::*;

verus! {

/// Seconds since the current window of `slot` was opened.
pub open spec fn elapsed_seconds(slot: TokenSlot, now: int) -> int {
    if now > slot.window_start_timestamp {
        now - slot.window_start_timestamp
    } else {
        0
    }
}

/// How much counts as sold at the time `now`.
///
/// Within the first window length all of the current sales count, and of the
/// previous ones the share of the window that is still to come. A window
/// length later the recorded current sales have become the previous ones, and
/// after two nothing recorded counts.
pub open spec fn counted_selloff(slot: TokenSlot, now: int) -> int {
    let length = slot.max_selloff_period_length as int;
    let elapsed = elapsed_seconds(slot, now);
    if elapsed >= 2 * length {
        0
    } else if elapsed >= length {
        (slot.current_selloff * (2 * length - elapsed)) / length
    } else {
        slot.current_selloff + (slot.previous_selloff * (length - elapsed)) / length
    }
}

/// Selling `amount` at the time `now` stays within the cap of `slot`.
pub open spec fn selloff_allows(slot: TokenSlot, now: int, amount: int) -> bool {
    slot.max_selloff == 0 || counted_selloff(slot, now) + amount <= slot.max_selloff
}

proof fn lemma_share_bounds(total: int, part: int, whole: int)
    requires
        total >= 0,
        0 <= part <= whole,
        whole > 0,
    ensures
        0 <= total * part <= total * whole,
        0 <= (total * part) / whole <= total,
{
    assert(0 <= total * part <= total * whole) by (nonlinear_arith)
        requires
            total >= 0,
            0 <= part <= whole,
    ;
    vstd::arithmetic::div_mod::lemma_div_is_ordered(total * part, total * whole, whole);
    vstd::arithmetic::div_mod::lemma_div_by_multiple(total, whole);
    vstd::arithmetic::div_mod::lemma_div_pos_is_pos(total * part, whole);
}

/// Takes the share `part / whole` of `total`, rounded down.
fn share_of(total: u64, part: u64, whole: u64) -> (share: u64)
    requires
        part <= whole,
        whole > 0,
    ensures
        share == (total * part) / (whole as int),
{
    proof {
        lemma_share_bounds(total as int, part as int, whole as int);
        assert(total * whole <= u64::MAX * u64::MAX) by (nonlinear_arith)
            requires
                0 <= total <= u64::MAX,
                0 <= whole <= u64::MAX,
        ;
    }
    ((total as u128 * part as u128) / whole as u128) as u64
}

/// How much of the token counts as sold at the Unix time `now`.
pub fn effective_selloff(slot: &TokenSlot, now: i64) -> (sold: u128)
    ensures
        sold == counted_selloff(*slot, now as int),
{
    let length: u64 = slot.max_selloff_period_length as u64;
    let elapsed: u128 = if now > slot.window_start_timestamp {
        (now as i128 - slot.window_start_timestamp as i128) as u128
    } else {
        0
    };
    if elapsed >= 2 * length as u128 {
        0
    } else if elapsed >= length as u128 {
        share_of(slot.current_selloff, 2 * length - elapsed as u64, length) as u128
    } else {
        let carried: u64 = share_of(slot.previous_selloff, length - elapsed as u64, length);
        slot.current_selloff as u128 + carried as u128
    }
}

/// Whether selling `amount` of the token at the Unix time `now` stays within
/// its cap. A cap of zero allows every amount.
pub fn within_selloff_cap(slot: &TokenSlot, now: i64, amount: u64) -> (allowed: bool)
    ensures
        allowed == selloff_allows(*slot, now as int, amount as int),
{
    if slot.max_selloff == 0 {
        return true;
    }
    proof {
        law_counted_selloff_bounds(*slot, now as int);
    }
    effective_selloff(slot, now) + amount as u128 <= slot.max_selloff as u128
}

/// What counts as sold, told by the slot's own window length.
///
/// Before the window has lasted one length, all current sales count and of the
/// previous ones the part of the length that is left, rounded down. From one to
/// two lengths the part that is left of the current sales counts, rounded down.
/// Later nothing does. Before the window opens all of both counts. A window
/// without length counts nothing.
pub proof fn law_sales_count_by_window_length(slot: TokenSlot, now: int)
    ensures
        ({
            let length = slot.max_selloff_period_length as int;
            let passed = now - slot.window_start_timestamp;
            let sold = counted_selloff(slot, now);
            let carried = sold - slot.current_selloff;
            &&& (length > 0 && 0 <= passed < length) ==> {
                &&& sold >= slot.current_selloff
                &&& carried * length <= slot.previous_selloff * (length - passed)
                &&& slot.previous_selloff * (length - passed) < (carried + 1) * length
            }
            &&& (length > 0 && length <= passed < 2 * length) ==> {
                &&& sold * length <= slot.current_selloff * (2 * length - passed)
                &&& slot.current_selloff * (2 * length - passed) < (sold + 1) * length
            }
            &&& passed >= 2 * length ==> sold == 0
            &&& (length > 0 && passed < 0) ==> sold == slot.current_selloff + slot.previous_selloff
            &&& length == 0 ==> sold == 0
        }),
{
    let length = slot.max_selloff_period_length as int;
    let passed = now - slot.window_start_timestamp;
    let sold = counted_selloff(slot, now);
    if length > 0 && passed < 0 {
        vstd::arithmetic::div_mod::lemma_div_by_multiple(slot.previous_selloff as int, length);
    } else if length > 0 && passed < length {
        let part = slot.previous_selloff * (length - passed);
        lemma_share_bounds(slot.previous_selloff as int, length - passed, length);
        lemma_floor_of(part, length);
        assert(sold - slot.current_selloff == part / length);
    } else if length > 0 && passed < 2 * length {
        let part = slot.current_selloff * (2 * length - passed);
        lemma_floor_of(part, length);
        assert(sold == part / length);
    }
}

proof fn lemma_floor_of(part: int, length: int)
    requires
        length > 0,
    ensures
        (part / length) * length <= part < (part / length + 1) * length,
{
    vstd::arithmetic::div_mod::lemma_fundamental_div_mod(part, length);
    assert((part / length) * length == length * (part / length)) by (nonlinear_arith);
    assert((part / length + 1) * length == (part / length) * length + length) by (nonlinear_arith);
}

/// A sale is within the cap exactly when there is no cap, or when it and what
/// counts as sold come to no more than the cap.
pub proof fn law_cap_bounds_the_sale(slot: TokenSlot, now: int, amount: int)
    ensures
        slot.max_selloff == 0 ==> selloff_allows(slot, now, amount),
        slot.max_selloff > 0 ==> (selloff_allows(slot, now, amount) <==> amount <= slot.max_selloff
            - counted_selloff(slot, now)),
{
}

/// The seconds that have passed are those between the opening of the window and
/// now, and none before it opens.
pub proof fn law_elapsed_counts_from_window_start(slot: TokenSlot, now: int)
    ensures
        now >= slot.window_start_timestamp ==> slot.window_start_timestamp + elapsed_seconds(
            slot,
            now,
        ) == now,
        now < slot.window_start_timestamp ==> elapsed_seconds(slot, now) == 0,
{
}

/// What counts as sold is never negative and never more than what is recorded.
pub proof fn law_counted_selloff_bounds(slot: TokenSlot, now: int)
    ensures
        0 <= counted_selloff(slot, now) <= slot.current_selloff + slot.previous_selloff,
{
    let length = slot.max_selloff_period_length as int;
    let elapsed = elapsed_seconds(slot, now);
    if elapsed >= 2 * length {
    } else if elapsed >= length {
        lemma_share_bounds(slot.current_selloff as int, 2 * length - elapsed, length);
    } else {
        lemma_share_bounds(slot.previous_selloff as int, length - elapsed, length);
    }
}

/// When a window opens, all that is recorded counts.
pub proof fn law_all_counts_at_window_start(slot: TokenSlot)
    requires
        slot.max_selloff_period_length > 0,
    ensures
        counted_selloff(slot, slot.window_start_timestamp as int) == slot.current_selloff
            + slot.previous_selloff,
{
    vstd::arithmetic::div_mod::lemma_div_by_multiple(
        slot.previous_selloff as int,
        slot.max_selloff_period_length as int,
    );
}

/// Two window lengths after a window opened, nothing recorded counts any more:
/// the whole cap is free.
pub proof fn law_selloff_ages_out(slot: TokenSlot, now: int, amount: int)
    requires
        now >= slot.window_start_timestamp + 2 * slot.max_selloff_period_length,
    ensures
        counted_selloff(slot, now) == 0,
        selloff_allows(slot, now, amount) <==> slot.max_selloff == 0 || amount <= slot.max_selloff,
{
}

/// As time passes, no more counts as sold: an amount that is allowed stays
/// allowed.
pub proof fn law_selloff_headroom_grows(slot: TokenSlot, earlier: int, later: int, amount: int)
    requires
        earlier <= later,
    ensures
        counted_selloff(slot, later) <= counted_selloff(slot, earlier),
        selloff_allows(slot, earlier, amount) ==> selloff_allows(slot, later, amount),
{
    let length = slot.max_selloff_period_length as int;
    let e1 = elapsed_seconds(slot, earlier);
    let e2 = elapsed_seconds(slot, later);
    law_counted_selloff_bounds(slot, earlier);
    if e2 >= 2 * length {
    } else if e2 >= length {
        lemma_share_bounds(slot.current_selloff as int, 2 * length - e2, length);
        if e1 >= length {
            lemma_share_grows(slot.current_selloff as int, 2 * length - e2, 2 * length - e1, length);
        } else {
            lemma_share_bounds(slot.previous_selloff as int, length - e1, length);
        }
    } else {
        lemma_share_grows(slot.previous_selloff as int, length - e2, length - e1, length);
    }
}

proof fn lemma_share_grows(total: int, small: int, large: int, whole: int)
    requires
        total >= 0,
        small <= large,
        whole > 0,
    ensures
        (total * small) / whole <= (total * large) / whole,
{
    assert(total * small <= total * large) by (nonlinear_arith)
        requires
            total >= 0,
            small <= large,
    ;
    vstd::arithmetic::div_mod::lemma_div_is_ordered(total * small, total * large, whole);
}

/// An amount within the cap leaves every smaller one within it.
pub proof fn law_selloff_allows_less(slot: TokenSlot, now: int, less: int, amount: int)
    requires
        less <= amount,
        selloff_allows(slot, now, amount),
    ensures
        selloff_allows(slot, now, less),
{
}

} // verus!
