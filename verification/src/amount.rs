//! Arithmetic on token amounts.
//!
//! Amounts are counted in the smallest unit of a token and held in 128 bits.
//! Every operation here either cannot leave that range or reports when it
//! would.

use vstd::prelude::*;

verus! {

/// The share of `amount` that `percent` hundredths stand for, rounded down.
pub open spec fn spec_percent_of(amount: u128, percent: u8) -> nat {
    ((amount as nat) * (percent as nat)) / 100
}

/// Any share of nothing is nothing.
pub proof fn lemma_percent_of_nothing(percent: u8)
    ensures
        spec_percent_of(0, percent) == 0,
{
    assert(0 * (percent as nat) == 0) by (nonlinear_arith);
}

/// A share of at most one hundred percent never exceeds the whole.
pub proof fn lemma_percent_of_bounded(amount: u128, percent: u8)
    requires
        percent <= 100,
    ensures
        spec_percent_of(amount, percent) <= amount,
{
    let a = amount as nat;
    let p = percent as nat;
    assert(a * p <= a * 100) by (nonlinear_arith)
        requires
            p <= 100,
    ;
    assert((a * p) / 100 <= a) by (nonlinear_arith)
        requires
            a * p <= a * 100,
    ;
}

/// Two shares whose percentages sum to at most one hundred fit in the whole
/// together.
pub proof fn lemma_two_shares_bounded(amount: u128, first: u8, second: u8)
    requires
        first + second <= 100,
    ensures
        spec_percent_of(amount, first) + spec_percent_of(amount, second) <= amount,
{
    let a = amount as nat;
    let p = first as nat;
    let q = second as nat;
    assert((a * p) / 100 + (a * q) / 100 <= a) by (nonlinear_arith)
        requires
            p + q <= 100,
    ;
}

/// Computes `percent` hundredths of `amount`, rounded down, without ever
/// forming the full product.
pub fn percent_of(amount: u128, percent: u8) -> (share: u128)
    requires
        percent <= 100,
    ensures
        share == spec_percent_of(amount, percent),
        share <= amount,
{
    let whole: u128 = amount / 100;
    let rest: u128 = amount % 100;
    let p: u128 = percent as u128;
    assert(whole * p <= amount && (whole as nat) * (p as nat) + ((rest as nat) * (p as nat)) / 100
        == ((amount as nat) * (p as nat)) / 100) by (nonlinear_arith)
        requires
            whole == amount / 100,
            rest == amount % 100,
            p <= 100,
    ;
    assert(rest * p <= 9900) by (nonlinear_arith)
        requires
            rest < 100,
            p <= 100,
    ;
    proof {
        lemma_percent_of_bounded(amount, percent);
    }
    whole * p + (rest * p) / 100
}

/// Adds `extra` to `pool` when the sum still fits.
pub fn checked_credit(pool: u128, extra: u128) -> (sum: Option<u128>)
    ensures
        sum == if pool + extra <= u128::MAX {
            Some((pool + extra) as u128)
        } else {
            None
        },
{
    if extra <= u128::MAX - pool {
        Some(pool + extra)
    } else {
        None
    }
}

} // verus!
