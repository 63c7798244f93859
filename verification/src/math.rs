use vstd::prelude::*;
use vstd::arithmetic::div_mod::{lemma_div_is_ordered, lemma_div_multiples_vanish};
use vstd::arithmetic::mul::lemma_mul_inequality;

verus! {

/// The value-denominated payout owed for a principal-denominated request:
/// `floor(amount * current_value / total_deposited)`. The multiplication
/// precedes the division, so no precision is lost to early truncation.
pub open spec fn share_of(amount: u64, current_value: u64, total_deposited: u64) -> int {
    (amount as int * current_value as int) / (total_deposited as int)
}

/// The aggregate value after folding in one signed trade outcome: gains
/// saturate at the integer ceiling, losses floor the value at zero.
pub open spec fn value_after_pnl(current_value: u64, pnl: i64) -> u64 {
    if (current_value as int + pnl as int) > (u64::MAX as int) {
        u64::MAX
    } else if (current_value as int + pnl as int) < 0 {
        0
    } else {
        (current_value as int + pnl as int) as u64
    }
}

/// Cumulative PnL after one more trade, saturating at the i64 bounds.
pub open spec fn pnl_after(total_pnl: i64, pnl: i64) -> i64 {
    if (total_pnl as int + pnl as int) > (i64::MAX as int) {
        i64::MAX
    } else if (total_pnl as int + pnl as int) < (i64::MIN as int) {
        i64::MIN
    } else {
        (total_pnl as int + pnl as int) as i64
    }
}

/// The product of two 64-bit values always fits the 128-bit intermediate.
proof fn lemma_u64_mul_fits_u128(x: u64, y: u64)
    ensures
        0 <= x as int * y as int <= u128::MAX as int,
{
    assert(x as int * y as int <= u64::MAX as int * u64::MAX as int) by (nonlinear_arith)
        requires
            0 <= x as int <= u64::MAX as int,
            0 <= y as int <= u64::MAX as int,
    ;
    assert(0 <= x as int * y as int) by (nonlinear_arith)
        requires
            0 <= x as int,
            0 <= y as int,
    ;
}

/// A request no larger than the pool's outstanding principal is never paid
/// more than the pool's current value.
pub proof fn lemma_share_le_value(amount: u64, current_value: u64, total_deposited: u64)
    requires
        total_deposited > 0,
        amount <= total_deposited,
    ensures
        0 <= share_of(amount, current_value, total_deposited) <= current_value as int,
{
    let a = amount as int;
    let cv = current_value as int;
    let td = total_deposited as int;
    lemma_mul_inequality(a, td, cv);
    lemma_div_is_ordered(a * cv, td * cv, td);
    lemma_div_multiples_vanish(cv, td);
    lemma_u64_mul_fits_u128(amount, current_value);
    lemma_div_is_ordered(0, a * cv, td);
}

/// Core share computation of a withdrawal: converts a principal-denominated
/// request into a value-denominated payout reflecting cumulative PnL. The
/// multiply runs at double the operand width, so it cannot overflow, and the
/// result provably fits back into 64 bits because the request is bounded by
/// the outstanding principal.
pub fn compute_share(amount: u64, current_value: u64, total_deposited: u64) -> (share: u64)
    requires
        total_deposited > 0,
        amount <= total_deposited,
    ensures
        share as int == share_of(amount, current_value, total_deposited),
        share <= current_value,
{
    proof {
        lemma_u64_mul_fits_u128(amount, current_value);
        lemma_share_le_value(amount, current_value, total_deposited);
    }
    let wide: u128 = (amount as u128) * (current_value as u128);
    let quotient: u128 = wide / (total_deposited as u128);
    quotient as u64
}

/// Folds one signed trade outcome into the aggregate value: saturating, so
/// a loss can floor the value at zero but never wrap.
pub fn apply_pnl(current_value: u64, pnl: i64) -> (new_value: u64)
    ensures
        new_value == value_after_pnl(current_value, pnl),
{
    if pnl >= 0 {
        current_value.saturating_add(pnl as u64)
    } else {
        let loss: u64 = if pnl == i64::MIN {
            9223372036854775808u64
        } else {
            (-pnl) as u64
        };
        current_value.saturating_sub(loss)
    }
}

/// Adds one trade's PnL to the running total, saturating at the i64 bounds.
pub fn accumulate_pnl(total_pnl: i64, pnl: i64) -> (new_total: i64)
    ensures
        new_total == pnl_after(total_pnl, pnl),
{
    match total_pnl.checked_add(pnl) {
        Some(v) => v,
        None => if pnl > 0 {
            i64::MAX
        } else {
            i64::MIN
        },
    }
}

} // verus!
