//! Adding liquidity to, and removing it from, a market's outcome pools.
//!
//! Liquidity is split equally across the outcomes. The pools are updated
//! one outcome after the other, each read after the previous ones were
//! written, so an outcome named twice has its pool updated twice.

use crate::common::{
    multiply_ratio, num_attr, number, ratio, text, text_attr, BankSend, BankSendView, Coin, CoinView,
    MessageInfo, Response, StdFailure,
};
use crate::prediction_market::contract::{native_denom, native_denom_string};
use crate::prediction_market::error::ContractError;
use crate::prediction_market::state::{Market, MarketStatus, OutcomePool};
use vstd::prelude::*;

verus! {

/// The pool last written for the outcome `name` among `writes`, if any.
pub open spec fn last_written(writes: Seq<(String, OutcomePool)>, name: Seq<char>) -> Option<OutcomePool>
    decreases writes.len(),
{
    if writes.len() == 0 {
        None
    } else if writes.last().0@ == name {
        Some(writes.last().1)
    } else {
        last_written(writes.drop_last(), name)
    }
}

/// A pool with `per_outcome` added to (or, saturating, taken from) both reserves.
pub open spec fn moved_pool(p: OutcomePool, per_outcome: u128, add: bool) -> OutcomePool {
    if add {
        OutcomePool {
            token_reserve: (p.token_reserve + per_outcome) as u128,
            native_reserve: (p.native_reserve + per_outcome) as u128,
        }
    } else {
        OutcomePool {
            token_reserve: if p.token_reserve >= per_outcome { (p.token_reserve - per_outcome) as u128 } else { 0 },
            native_reserve: if p.native_reserve >= per_outcome { (p.native_reserve - per_outcome) as u128 } else { 0 },
        }
    }
}

/// The pool of outcome `i` as the update reads it: the one written earlier
/// in the same update for that name, else the stored one.
pub open spec fn pool_read(
    writes: Seq<(String, OutcomePool)>,
    outcomes: Seq<String>,
    stored: Seq<Result<OutcomePool, StdFailure>>,
    i: int,
) -> Result<OutcomePool, StdFailure> {
    match last_written(writes, outcomes[i]@) {
        Some(p) => Ok(p),
        None => stored[i],
    }
}

/// The writes of updating the pools of the first `n` outcomes, or the first
/// failure to read one. `stored[i]` is what storage held for outcome `i`.
pub open spec fn pool_writes(
    outcomes: Seq<String>,
    stored: Seq<Result<OutcomePool, StdFailure>>,
    per_outcome: u128,
    add: bool,
    n: int,
) -> Result<Seq<(String, OutcomePool)>, StdFailure>
    decreases n,
{
    if n <= 0 {
        Ok(Seq::empty())
    } else {
        match pool_writes(outcomes, stored, per_outcome, add, n - 1) {
            Err(e) => Err(e),
            Ok(writes) => match pool_read(writes, outcomes, stored, n - 1) {
                Err(e) => Err(e),
                Ok(p) => Ok(writes.push((outcomes[n - 1], moved_pool(p, per_outcome, add)))),
            },
        }
    }
}

/// Adding to the pools of the first `n` outcomes does not overflow.
pub open spec fn pool_additions_fit(
    outcomes: Seq<String>,
    stored: Seq<Result<OutcomePool, StdFailure>>,
    per_outcome: u128,
    n: int,
) -> bool
    decreases n,
{
    if n <= 0 {
        true
    } else {
        &&& pool_additions_fit(outcomes, stored, per_outcome, n - 1)
        &&& pool_writes(outcomes, stored, per_outcome, true, n - 1) matches Ok(writes) ==> (
        pool_read(writes, outcomes, stored, n - 1) matches Ok(p) ==> {
            &&& p.token_reserve + per_outcome <= u128::MAX
            &&& p.native_reserve + per_outcome <= u128::MAX
        })
    }
}

fn find_written(writes: &Vec<(String, OutcomePool)>, name: &String) -> (r: Option<OutcomePool>)
    ensures
        r == last_written(writes@, name@),
{
    let mut i: usize = writes.len();
    assert(writes@.take(i as int) =~= writes@);
    while i > 0
        invariant
            i <= writes.len(),
            last_written(writes@, name@) == last_written(writes@.take(i as int), name@),
        decreases i,
    {
        assert(writes@.take(i as int).drop_last() =~= writes@.take(i - 1));
        if writes[i - 1].0 == *name {
            return Some(writes[i - 1].1);
        }
        i = i - 1;
    }
    None
}

/// Update the pools of all outcomes in order, adding `per_outcome` to both
/// reserves or taking it from them (saturating at 0).
pub fn update_pools(
    outcomes: &Vec<String>,
    stored: Vec<Result<OutcomePool, StdFailure>>,
    per_outcome: u128,
    add: bool,
) -> (r: Result<Vec<(String, OutcomePool)>, StdFailure>)
    requires
        stored@.len() == outcomes@.len(),
        add ==> pool_additions_fit(outcomes@, stored@, per_outcome, outcomes@.len() as int),
    ensures
        match pool_writes(outcomes@, stored@, per_outcome, add, outcomes@.len() as int) {
            Err(e) => r == Err::<Vec<(String, OutcomePool)>, StdFailure>(e),
            Ok(w) => r matches Ok(v) && v@ == w,
        },
{
    let ghost initial = stored@;
    let mut remaining = stored;
    let mut writes: Vec<(String, OutcomePool)> = Vec::new();
    let mut i: usize = 0;
    assert(writes@ =~= Seq::<(String, OutcomePool)>::empty());
    assert(remaining@ =~= initial.skip(0));
    while i < outcomes.len()
        invariant
            i <= outcomes.len(),
            remaining@ == initial.skip(i as int),
            initial == stored@,
            initial.len() == outcomes@.len(),
            add ==> pool_additions_fit(outcomes@, initial, per_outcome, outcomes@.len() as int),
            pool_writes(outcomes@, initial, per_outcome, add, i as int) == Ok::<
                Seq<(String, OutcomePool)>,
                StdFailure,
            >(writes@),
        decreases outcomes.len() - i,
    {
        proof {
            if add {
                lemma_additions_fit_prefix(outcomes@, initial, per_outcome, i + 1, outcomes@.len() as int);
            }
        }
        let entry = remaining.remove(0);
        assert(remaining@ =~= initial.skip(i + 1));
        assert(entry == initial[i as int]);
        let read = match find_written(&writes, &outcomes[i]) {
            Some(p) => p,
            None => match entry {
                Err(e) => {
                    proof {
                        assert(last_written(writes@, outcomes@[i as int]@) is None);
                        assert(pool_read(writes@, outcomes@, initial, i as int) == initial[i as int]);
                        assert(pool_writes(outcomes@, initial, per_outcome, add, i + 1) == Err::<
                            Seq<(String, OutcomePool)>,
                            StdFailure,
                        >(e));
                        lemma_pool_writes_failure_stays(outcomes@, initial, per_outcome, add, i + 1, outcomes@.len() as int);
                    }
                    return Err(e);
                },
                Ok(p) => p,
            },
        };
        let moved = if add {
            OutcomePool {
                token_reserve: read.token_reserve + per_outcome,
                native_reserve: read.native_reserve + per_outcome,
            }
        } else {
            OutcomePool {
                token_reserve: read.token_reserve.saturating_sub(per_outcome),
                native_reserve: read.native_reserve.saturating_sub(per_outcome),
            }
        };
        writes.push((outcomes[i].clone(), moved));
        i = i + 1;
    }
    Ok(writes)
}

proof fn lemma_pool_writes_failure_stays(
    outcomes: Seq<String>,
    stored: Seq<Result<OutcomePool, StdFailure>>,
    per_outcome: u128,
    add: bool,
    n: int,
    m: int,
)
    requires
        0 <= n <= m,
        pool_writes(outcomes, stored, per_outcome, add, n) is Err,
    ensures
        pool_writes(outcomes, stored, per_outcome, add, m) == pool_writes(outcomes, stored, per_outcome, add, n),
    decreases m - n,
{
    if n < m {
        lemma_pool_writes_failure_stays(outcomes, stored, per_outcome, add, n, m - 1);
    }
}

proof fn lemma_additions_fit_prefix(
    outcomes: Seq<String>,
    stored: Seq<Result<OutcomePool, StdFailure>>,
    per_outcome: u128,
    n: int,
    m: int,
)
    requires
        0 <= n <= m,
        pool_additions_fit(outcomes, stored, per_outcome, m),
    ensures
        pool_additions_fit(outcomes, stored, per_outcome, n),
    decreases m - n,
{
    if n < m {
        lemma_additions_fit_prefix(outcomes, stored, per_outcome, n, m - 1);
    }
}

/// The amount of the first coin of `denom` among `funds` that covers `min`.
pub open spec fn covering_amount(funds: Seq<Coin>, denom: Seq<char>, min: u128) -> Option<u128>
    decreases funds.len(),
{
    if funds.len() == 0 {
        None
    } else if funds[0].denom@ == denom && funds[0].amount >= min {
        Some(funds[0].amount)
    } else {
        covering_amount(funds.drop_first(), denom, min)
    }
}

fn find_covering(funds: &Vec<Coin>, denom: &String, min: u128) -> (r: Option<u128>)
    ensures
        r == covering_amount(funds@, denom@, min),
{
    let mut i: usize = 0;
    assert(funds@.skip(0) =~= funds@);
    while i < funds.len()
        invariant
            i <= funds.len(),
            covering_amount(funds@, denom@, min) == covering_amount(funds@.skip(i as int), denom@, min),
        decreases funds.len() - i,
    {
        assert(funds@.skip(i as int).drop_first() =~= funds@.skip(i + 1));
        if funds[i].denom == *denom && funds[i].amount >= min {
            return Some(funds[i].amount);
        }
        i = i + 1;
    }
    None
}

/// What added liquidity stores: the pool writes, the provider's LP shares
/// and the market.
#[derive(Clone, Debug)]
pub struct AddedLiquidity {
    pub pools: Vec<(String, OutcomePool)>,
    pub lp_shares: u128,
    pub market: Market,
    pub response: Response,
}

/// Provide liquidity to an active market. `amount` names the native
/// denomination and a nonzero amount; the first attached native coin that
/// covers it is added in full, split equally across the outcome pools, and
/// credited to the sender's LP shares. Reads the market, the pool of each
/// outcome (`pools[i]` for outcome `i`), then the sender's LP shares.
pub fn execute_add_liquidity(
    market: Result<Market, StdFailure>,
    pools: Vec<Result<OutcomePool, StdFailure>>,
    lp_shares: Result<Option<u128>, StdFailure>,
    info: MessageInfo,
    market_id: u64,
    amount: Coin,
) -> (res: Result<AddedLiquidity, ContractError>)
    requires
        market matches Ok(m) ==> pools@.len() == m.outcomes@.len(),
        ({
            &&& market matches Ok(m)
            &&& m.status == MarketStatus::Active
            &&& amount.denom@ == native_denom()
            &&& amount.amount != 0
            &&& covering_amount(info.funds@, native_denom(), amount.amount) is Some
        }) ==> {
            let m = market->Ok_0;
            let added = covering_amount(info.funds@, native_denom(), amount.amount)->Some_0;
            let per = added as int / m.outcomes@.len() as int;
            &&& m.outcomes@.len() > 0
            &&& pool_additions_fit(m.outcomes@, pools@, per as u128, m.outcomes@.len() as int)
            &&& pool_writes(m.outcomes@, pools@, per as u128, true, m.outcomes@.len() as int) is Ok ==> {
                &&& lp_shares matches Ok(s) ==> s.unwrap_or(0) + added <= u128::MAX
                &&& m.liquidity + added <= u128::MAX
            }
        },
    ensures
        match market {
            Err(e) => res == Err::<AddedLiquidity, ContractError>(ContractError::Std(e)),
            Ok(m) => if m.status != MarketStatus::Active {
                res matches Err(ContractError::MarketNotActive {  })
            } else if amount.denom@ != native_denom() {
                res matches Err(ContractError::InsufficientFunds {  })
            } else if amount.amount == 0 {
                res matches Err(ContractError::ZeroAmount {  })
            } else {
                match covering_amount(info.funds@, native_denom(), amount.amount) {
                    None => res matches Err(ContractError::InsufficientFunds {  }),
                    Some(added) => {
                        let per = (added as int / m.outcomes@.len() as int) as u128;
                        match pool_writes(m.outcomes@, pools@, per, true, m.outcomes@.len() as int) {
                            Err(e) => res == Err::<AddedLiquidity, ContractError>(ContractError::Std(e)),
                            Ok(writes) => match lp_shares {
                                Err(e) => res == Err::<AddedLiquidity, ContractError>(ContractError::Std(e)),
                                Ok(s) => res matches Ok(out) && {
                                    &&& out.pools@ == writes
                                    &&& out.lp_shares == s.unwrap_or(0) + added
                                    &&& out.market == (Market { liquidity: (m.liquidity + added) as u128, ..m })
                                    &&& out.response@.messages.len() == 0
                                    &&& out.response@.attributes == seq![
                                        text_attr("action"@, "add_liquidity"@),
                                        num_attr("market_id"@, market_id as int),
                                        num_attr("amount"@, added as int),
                                    ]
                                },
                            },
                        }
                    },
                }
            },
        },
{
    let mut market = match market {
        Err(e) => return Err(ContractError::Std(e)),
        Ok(m) => m,
    };
    if market.status != MarketStatus::Active {
        return Err(ContractError::MarketNotActive {  });
    }
    let native = native_denom_string();
    if amount.denom != native {
        return Err(ContractError::InsufficientFunds {  });
    }
    if amount.amount == 0 {
        return Err(ContractError::ZeroAmount {  });
    }
    let added = match find_covering(&info.funds, &native, amount.amount) {
        None => return Err(ContractError::InsufficientFunds {  }),
        Some(a) => a,
    };
    let per_outcome = added / market.outcomes.len() as u128;
    let writes = match update_pools(&market.outcomes, pools, per_outcome, true) {
        Err(e) => return Err(ContractError::Std(e)),
        Ok(w) => w,
    };
    let current = match lp_shares {
        Err(e) => return Err(ContractError::Std(e)),
        Ok(Some(s)) => s,
        Ok(None) => 0,
    };
    let shares = current + added;
    market.liquidity = market.liquidity + added;
    let attributes = vec![
        text("action", "add_liquidity"),
        number("market_id", market_id as u128),
        number("amount", added),
    ];
    let response = Response { messages: Vec::new(), attributes };
    proof {
        assert(response@.attributes =~= seq![
            text_attr("action"@, "add_liquidity"@),
            num_attr("market_id"@, market_id as int),
            num_attr("amount"@, added as int),
        ]);
    }
    Ok(AddedLiquidity { pools: writes, lp_shares: shares, market, response })
}

/// What removed liquidity stores: the provider's remaining LP shares, the
/// pool writes and the market.
#[derive(Clone, Debug)]
pub struct RemovedLiquidity {
    pub lp_shares: u128,
    pub pools: Vec<(String, OutcomePool)>,
    pub market: Market,
    pub response: Response,
}

/// The LP shares withdrawn for `share_bps` basis points of `shares`.
pub open spec fn withdrawn_shares(shares: u128, share_bps: u64) -> int {
    ratio(shares as int, share_bps as int, 10_000)
}

/// Withdraw `share_bps` basis points (1 to 10000) of the sender's LP shares
/// from an active market: the amount is taken equally from the outcome
/// pools (saturating) and from the market's liquidity, and sent to the
/// sender in the native denomination. Reads the market, the sender's LP
/// shares, then the pool of each outcome (`pools[i]` for outcome `i`).
pub fn execute_remove_liquidity(
    market: Result<Market, StdFailure>,
    lp_shares: Result<Option<u128>, StdFailure>,
    pools: Vec<Result<OutcomePool, StdFailure>>,
    info: MessageInfo,
    market_id: u64,
    share_bps: u64,
) -> (res: Result<RemovedLiquidity, ContractError>)
    requires
        market matches Ok(m) ==> pools@.len() == m.outcomes@.len(),
        ({
            &&& market matches Ok(m)
            &&& m.status == MarketStatus::Active
            &&& 0 < share_bps <= 10_000
            &&& lp_shares matches Ok(s) && s.unwrap_or(0) != 0
        }) ==> market->Ok_0.outcomes@.len() > 0,
    ensures
        match market {
            Err(e) => res == Err::<RemovedLiquidity, ContractError>(ContractError::Std(e)),
            Ok(m) => if m.status != MarketStatus::Active {
                res matches Err(ContractError::MarketNotActive {  })
            } else if share_bps == 0 || share_bps > 10_000 {
                res matches Err(ContractError::ZeroAmount {  })
            } else {
                match lp_shares {
                    Err(e) => res == Err::<RemovedLiquidity, ContractError>(ContractError::Std(e)),
                    Ok(s) => if s.unwrap_or(0) == 0 {
                        res matches Err(ContractError::InsufficientPosition {  })
                    } else {
                        let shares = s.unwrap_or(0);
                        let withdrawn = withdrawn_shares(shares, share_bps);
                        let per = (withdrawn / m.outcomes@.len() as int) as u128;
                        match pool_writes(m.outcomes@, pools@, per, false, m.outcomes@.len() as int) {
                            Err(e) => res == Err::<RemovedLiquidity, ContractError>(ContractError::Std(e)),
                            Ok(writes) => res matches Ok(out) && {
                                &&& out.lp_shares == shares - withdrawn
                                &&& out.pools@ == writes
                                &&& out.market == (Market {
                                    liquidity: if m.liquidity >= withdrawn {
                                        (m.liquidity - withdrawn) as u128
                                    } else {
                                        0
                                    },
                                    ..m
                                })
                                &&& out.response@.messages == seq![
                                    BankSendView {
                                        to_address: info.sender@,
                                        amount: seq![CoinView { denom: native_denom(), amount: withdrawn as u128 }],
                                    },
                                ]
                                &&& out.response@.attributes == seq![
                                    text_attr("action"@, "remove_liquidity"@),
                                    num_attr("market_id"@, market_id as int),
                                    num_attr("withdrawn"@, withdrawn),
                                ]
                            },
                        }
                    },
                }
            },
        },
{
    let mut market = match market {
        Err(e) => return Err(ContractError::Std(e)),
        Ok(m) => m,
    };
    if market.status != MarketStatus::Active {
        return Err(ContractError::MarketNotActive {  });
    }
    if !(share_bps > 0 && share_bps <= 10_000) {
        return Err(ContractError::ZeroAmount {  });
    }
    let shares = match lp_shares {
        Err(e) => return Err(ContractError::Std(e)),
        Ok(Some(s)) => s,
        Ok(None) => 0,
    };
    if shares == 0 {
        return Err(ContractError::InsufficientPosition {  });
    }
    proof {
        let v = shares as int;
        let b = share_bps as int;
        assert(v * b / 10_000 <= v) by (nonlinear_arith)
            requires
                0 <= v,
                0 <= b <= 10_000,
        ;
    }
    let withdraw = multiply_ratio(shares, share_bps as u128, 10_000);
    let remaining = shares - withdraw;
    let per_outcome = withdraw / market.outcomes.len() as u128;
    let writes = match update_pools(&market.outcomes, pools, per_outcome, false) {
        Err(e) => return Err(ContractError::Std(e)),
        Ok(w) => w,
    };
    market.liquidity = market.liquidity.saturating_sub(withdraw);
    let coin = Coin { denom: native_denom_string(), amount: withdraw };
    let send = BankSend { to_address: info.sender.clone(), amount: vec![coin] };
    let attributes = vec![
        text("action", "remove_liquidity"),
        number("market_id", market_id as u128),
        number("withdrawn", withdraw),
    ];
    let response = Response { messages: vec![send], attributes };
    proof {
        assert(response@.messages[0].amount =~= seq![CoinView { denom: native_denom(), amount: withdraw }]);
        assert(response@.messages =~= seq![
            BankSendView {
                to_address: info.sender@,
                amount: seq![CoinView { denom: native_denom(), amount: withdraw }],
            },
        ]);
        assert(response@.attributes =~= seq![
            text_attr("action"@, "remove_liquidity"@),
            num_attr("market_id"@, market_id as int),
            num_attr("withdrawn"@, withdraw as int),
        ]);
    }
    Ok(RemovedLiquidity { lp_shares: remaining, pools: writes, market, response })
}


// ── Laws ──────────────────────────────────────────────────────────

/// A provider withdraws at most its LP shares, and all of them at 10000
/// basis points.
pub proof fn lemma_withdrawn_within_shares(shares: u128, share_bps: u64)
    requires
        share_bps <= 10_000,
    ensures
        0 <= withdrawn_shares(shares, share_bps) <= shares,
        share_bps == 10_000 ==> withdrawn_shares(shares, share_bps) == shares,
{
    let s = shares as int;
    let b = share_bps as int;
    assert(0 <= s * b / 10_000 <= s) by (nonlinear_arith)
        requires
            0 <= s,
            0 <= b <= 10_000,
    ;
    assert(b == 10_000 ==> s * b / 10_000 == s) by (nonlinear_arith);
}

/// No outcome name occurs twice.
pub open spec fn distinct_names(outcomes: Seq<String>) -> bool {
    forall|i: int, j: int| 0 <= i < j < outcomes.len() ==> outcomes[i]@ != outcomes[j]@
}

/// A name that no write carries has no last write.
proof fn lemma_unwritten_name(writes: Seq<(String, OutcomePool)>, name: Seq<char>)
    requires
        forall|k: int| 0 <= k < writes.len() ==> (#[trigger] writes[k]).0@ != name,
    ensures
        last_written(writes, name) is None,
    decreases writes.len(),
{
    if writes.len() > 0 {
        assert(writes.last() == writes[writes.len() - 1]);
        lemma_unwritten_name(writes.drop_last(), name);
    }
}

/// Where the outcome names are distinct and every pool is read, updating
/// the pools writes, for each outcome `i` in order, the stored pool of `i`
/// with `per_outcome` added to both reserves, or, on removal, taken from
/// both reserves down to at least 0.
pub proof fn lemma_pools_move_by_share(
    outcomes: Seq<String>,
    stored: Seq<Result<OutcomePool, StdFailure>>,
    per_outcome: u128,
    add: bool,
    n: int,
)
    requires
        0 <= n <= outcomes.len(),
        stored.len() == outcomes.len(),
        distinct_names(outcomes),
        forall|i: int| 0 <= i < n ==> (#[trigger] stored[i]) is Ok,
        add ==> forall|i: int|
            0 <= i < n ==> {
                &&& (#[trigger] stored[i])->Ok_0.token_reserve + per_outcome <= u128::MAX
                &&& stored[i]->Ok_0.native_reserve + per_outcome <= u128::MAX
            },
    ensures
        pool_writes(outcomes, stored, per_outcome, add, n) is Ok,
        pool_writes(outcomes, stored, per_outcome, add, n)->Ok_0.len() == n,
        forall|i: int|
            0 <= i < n ==> {
                let w = #[trigger] pool_writes(outcomes, stored, per_outcome, add, n)->Ok_0[i];
                let p = stored[i]->Ok_0;
                &&& w.0 == outcomes[i]
                &&& add ==> w.1.token_reserve == p.token_reserve + per_outcome
                &&& add ==> w.1.native_reserve == p.native_reserve + per_outcome
                &&& !add ==> w.1.token_reserve == if p.token_reserve >= per_outcome {
                    p.token_reserve - per_outcome
                } else {
                    0
                }
                &&& !add ==> w.1.native_reserve == if p.native_reserve >= per_outcome {
                    p.native_reserve - per_outcome
                } else {
                    0
                }
            },
    decreases n,
{
    if n > 0 {
        lemma_pools_move_by_share(outcomes, stored, per_outcome, add, n - 1);
        let before = pool_writes(outcomes, stored, per_outcome, add, n - 1)->Ok_0;
        assert forall|k: int| 0 <= k < before.len() implies (#[trigger] before[k]).0@ != outcomes[n - 1]@ by {
            assert(before[k].0 == outcomes[k]);
        }
        lemma_unwritten_name(before, outcomes[n - 1]@);
        assert(stored[n - 1] is Ok);
    }
}

/// The total of the LP shares in `providers`, a list of
/// `(provider, shares)` entries.
pub open spec fn lp_total(providers: Seq<(Seq<char>, u128)>) -> int
    decreases providers.len(),
{
    if providers.len() == 0 {
        0
    } else {
        lp_total(providers.drop_last()) + providers.last().1
    }
}

/// Replacing one entry's shares moves the total by the difference.
pub proof fn lemma_lp_total_update(providers: Seq<(Seq<char>, u128)>, k: int, shares: u128)
    requires
        0 <= k < providers.len(),
    ensures
        lp_total(providers.update(k, (providers[k].0, shares))) == lp_total(providers) - providers[k].1 + shares,
    decreases providers.len(),
{
    let updated = providers.update(k, (providers[k].0, shares));
    if k == providers.len() - 1 {
        assert(updated.drop_last() =~= providers.drop_last());
    } else {
        assert(updated.drop_last() =~= providers.drop_last().update(k, (providers[k].0, shares)));
        lemma_lp_total_update(providers.drop_last(), k, shares);
    }
}

/// A market's liquidity stays the total of all its providers' LP shares:
/// where it is that total, then after provider `k` adds `added`, or
/// withdraws `share_bps` basis points of its shares, the market's new
/// liquidity is the total with that provider's new shares.
pub proof fn lemma_liquidity_stays_backed(
    providers: Seq<(Seq<char>, u128)>,
    k: int,
    liquidity: u128,
    added: u128,
    share_bps: u64,
)
    requires
        0 <= k < providers.len(),
        liquidity == lp_total(providers),
        providers[k].1 + added <= u128::MAX,
        share_bps <= 10_000,
    ensures
        liquidity + added == lp_total(providers.update(k, (providers[k].0, (providers[k].1 + added) as u128))),
        ({
            let w = withdrawn_shares(providers[k].1, share_bps);
            &&& 0 <= w <= providers[k].1
            &&& (if liquidity >= w { liquidity - w } else { 0 }) == lp_total(
                providers.update(k, (providers[k].0, (providers[k].1 - w) as u128)),
            )
        }),
{
    let shares = providers[k].1;
    lemma_withdrawn_within_shares(shares, share_bps);
    lemma_lp_total_update(providers, k, (shares + added) as u128);
    let w = withdrawn_shares(shares, share_bps);
    lemma_lp_total_update(providers, k, (shares - w) as u128);
    lemma_lp_total_nonneg(providers.update(k, (providers[k].0, (shares - w) as u128)));
}

/// A total of LP shares is never negative.
pub proof fn lemma_lp_total_nonneg(providers: Seq<(Seq<char>, u128)>)
    ensures
        lp_total(providers) >= 0,
    decreases providers.len(),
{
    if providers.len() > 0 {
        lemma_lp_total_nonneg(providers.drop_last());
    }
}

} // verus!
