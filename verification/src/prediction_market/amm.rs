//! The constant-product pool of an outcome. A trade of `amount` outcome
//! tokens puts them into the pool: the token reserve grows by `amount`, and
//! the native reserve becomes `k / (token_reserve + amount)`, rounded down,
//! where `k` is the product of the reserves before the trade. The native
//! tokens that leave the reserve price the trade.

use crate::common::{multiply_ratio, ratio};
use crate::prediction_market::state::OutcomePool;
use vstd::prelude::*;

verus! {

/// `k`, the product of the reserves.
pub open spec fn pool_product(p: OutcomePool) -> int {
    p.token_reserve * p.native_reserve
}

/// The native reserve after `amount` tokens enter the pool.
pub open spec fn native_after(p: OutcomePool, amount: u128) -> int {
    pool_product(p) / (p.token_reserve + amount)
}

/// The pool after `amount` tokens enter it.
pub open spec fn pool_after(p: OutcomePool, amount: u128) -> OutcomePool {
    OutcomePool {
        token_reserve: (p.token_reserve + amount) as u128,
        native_reserve: native_after(p, amount) as u128,
    }
}

/// The native tokens that leave the reserve when `amount` tokens enter it.
pub open spec fn native_out(p: OutcomePool, amount: u128) -> int {
    if p.native_reserve >= native_after(p, amount) {
        p.native_reserve - native_after(p, amount)
    } else {
        0
    }
}

/// The fee at `fee_bps` basis points on `value`, rounded down.
pub open spec fn bps_fee(value: int, fee_bps: u64) -> int {
    ratio(value, fee_bps as int, 10_000)
}

/// The inputs on which a trade can be computed in `u128`: a positive amount,
/// a product of the reserves and a new token reserve that fit.
pub open spec fn swap_defined(p: OutcomePool, amount: u128) -> bool {
    &&& amount > 0
    &&& pool_product(p) <= u128::MAX
    &&& p.token_reserve + amount <= u128::MAX
}

/// Put `amount` tokens into the pool: the new pool and the native tokens
/// that leave it.
pub fn swap_in(pool: OutcomePool, amount: u128) -> (r: (OutcomePool, u128))
    requires
        swap_defined(pool, amount),
    ensures
        r.0 == pool_after(pool, amount),
        r.1 == native_out(pool, amount),
{
    let k = multiply_ratio(pool.token_reserve, pool.native_reserve, 1);
    let new_token_reserve = pool.token_reserve + amount;
    let new_native_reserve = k / new_token_reserve;
    let out = pool.native_reserve.saturating_sub(new_native_reserve);
    (OutcomePool { token_reserve: new_token_reserve, native_reserve: new_native_reserve }, out)
}

/// The constant-product invariant of a trade: the product of the new
/// reserves is at most `k` and falls short of it by less than the new token
/// reserve (the rounding of the division); the native reserve does not grow,
/// and the native tokens that leave are exactly what the reserve lost.
pub proof fn lemma_swap_keeps_product(p: OutcomePool, amount: u128)
    requires
        swap_defined(p, amount),
    ensures
        pool_product(pool_after(p, amount)) <= pool_product(p),
        pool_product(p) < pool_product(pool_after(p, amount)) + pool_after(p, amount).token_reserve,
        pool_after(p, amount).native_reserve <= p.native_reserve,
        native_out(p, amount) == p.native_reserve - pool_after(p, amount).native_reserve,
{
    let k = pool_product(p);
    let t = p.token_reserve + amount;
    let n = k / t;
    assert(n * t <= k && k < n * t + t) by (nonlinear_arith)
        requires
            t > 0,
            k >= 0,
            n == k / t,
    ;
    assert(n <= p.native_reserve) by (nonlinear_arith)
        requires
            t >= p.token_reserve,
            t > 0,
            k == p.token_reserve * p.native_reserve,
            n == k / t,
            p.native_reserve >= 0,
            p.token_reserve >= 0,
    ;
    let q = pool_after(p, amount);
    assert(q.token_reserve == t);
    assert(q.native_reserve == n);
    assert(pool_product(q) == q.token_reserve * q.native_reserve);
    assert(t * n == n * t) by (nonlinear_arith);
}

} // verus!
