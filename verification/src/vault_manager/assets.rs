//! The asset list of a vault: one coin per denomination, in the order the
//! denominations first arrived.

use crate::common::{multiply_ratio, ratio, Coin};
use vstd::prelude::*;

verus! {

/// The index of the first coin of `denom` in `coins`, or -1 if there is none.
pub open spec fn denom_index(coins: Seq<Coin>, denom: Seq<char>) -> int
    decreases coins.len(),
{
    if coins.len() == 0 {
        -1
    } else if coins[0].denom@ == denom {
        0
    } else {
        let rest = denom_index(coins.drop_first(), denom);
        if rest < 0 {
            -1
        } else {
            rest + 1
        }
    }
}

pub(crate) proof fn lemma_denom_index(coins: Seq<Coin>, denom: Seq<char>)
    ensures
        -1 <= denom_index(coins, denom) < coins.len(),
        denom_index(coins, denom) >= 0 ==> coins[denom_index(coins, denom)].denom@ == denom,
        denom_index(coins, denom) >= 0 ==> forall|k: int|
            0 <= k < denom_index(coins, denom) ==> (#[trigger] coins[k]).denom@ != denom,
        denom_index(coins, denom) < 0 ==> forall|k: int| 0 <= k < coins.len() ==> (#[trigger] coins[k]).denom@ != denom,
    decreases coins.len(),
{
    if coins.len() > 0 {
        lemma_denom_index(coins.drop_first(), denom);
        assert forall|k: int| 1 <= k < coins.len() implies coins[k] == coins.drop_first()[k - 1] by {}
    }
}

/// The index of the first coin of `denom`, if any.
pub fn find_denom(coins: &Vec<Coin>, denom: &String) -> (r: Option<usize>)
    ensures
        match r {
            Some(i) => i < coins@.len() && i as int == denom_index(coins@, denom@),
            None => denom_index(coins@, denom@) < 0,
        },
{
    proof {
        lemma_denom_index(coins@, denom@);
    }
    let mut i: usize = 0;
    while i < coins.len()
        invariant
            i <= coins.len(),
            forall|k: int| 0 <= k < i ==> (#[trigger] coins@[k]).denom@ != denom@,
            -1 <= denom_index(coins@, denom@) < coins@.len(),
            denom_index(coins@, denom@) >= 0 ==> coins@[denom_index(coins@, denom@)].denom@ == denom@,
            denom_index(coins@, denom@) >= 0 ==> forall|k: int|
                0 <= k < denom_index(coins@, denom@) ==> (#[trigger] coins@[k]).denom@ != denom@,
            denom_index(coins@, denom@) < 0 ==> forall|k: int|
                0 <= k < coins@.len() ==> (#[trigger] coins@[k]).denom@ != denom@,
        decreases coins.len() - i,
    {
        if coins[i].denom == *denom {
            return Some(i);
        }
        i = i + 1;
    }
    None
}

/// `coins` with `c` added: to the amount of the first coin of its
/// denomination, or as a new coin at the end.
pub open spec fn with_coin(coins: Seq<Coin>, c: Coin) -> Seq<Coin> {
    let j = denom_index(coins, c.denom@);
    if j >= 0 {
        coins.update(j, Coin { amount: (coins[j].amount + c.amount) as u128, ..coins[j] })
    } else {
        coins.push(c)
    }
}

/// `coins` with the first `n` coins of `added` added one after the other.
pub open spec fn with_coins(coins: Seq<Coin>, added: Seq<Coin>, n: int) -> Seq<Coin>
    decreases n,
{
    if n <= 0 {
        coins
    } else {
        with_coin(with_coins(coins, added, n - 1), added[n - 1])
    }
}

/// Adding the first `n` coins of `added` one after the other does not overflow.
pub open spec fn coins_fit(coins: Seq<Coin>, added: Seq<Coin>, n: int) -> bool
    decreases n,
{
    if n <= 0 {
        true
    } else {
        let before = with_coins(coins, added, n - 1);
        let j = denom_index(before, added[n - 1].denom@);
        &&& coins_fit(coins, added, n - 1)
        &&& j >= 0 ==> before[j].amount + added[n - 1].amount <= u128::MAX
    }
}

proof fn lemma_coins_fit_prefix(coins: Seq<Coin>, added: Seq<Coin>, n: int, m: int)
    requires
        0 <= n <= m,
        coins_fit(coins, added, m),
    ensures
        coins_fit(coins, added, n),
    decreases m - n,
{
    if n < m {
        lemma_coins_fit_prefix(coins, added, n, m - 1);
    }
}

pub fn copy_coin(c: &Coin) -> (r: Coin)
    ensures
        r == *c,
{
    Coin { denom: c.denom.clone(), amount: c.amount }
}

/// Add each coin of `added` to `coins`, in order.
pub fn add_coins(coins: &mut Vec<Coin>, added: &Vec<Coin>)
    requires
        coins_fit(old(coins)@, added@, added@.len() as int),
    ensures
        final(coins)@ == with_coins(old(coins)@, added@, added@.len() as int),
{
    let ghost start = coins@;
    let mut i: usize = 0;
    while i < added.len()
        invariant
            i <= added.len(),
            coins@ == with_coins(start, added@, i as int),
            coins_fit(start, added@, added@.len() as int),
        decreases added.len() - i,
    {
        proof {
            lemma_coins_fit_prefix(start, added@, i + 1, added@.len() as int);
        }
        match find_denom(coins, &added[i].denom) {
            Some(j) => {
                let updated = Coin { denom: coins[j].denom.clone(), amount: coins[j].amount + added[i].amount };
                coins.set(j, updated);
            },
            None => {
                coins.push(copy_coin(&added[i]));
            },
        }
        i = i + 1;
    }
}

/// The coins of nonzero amount, in order.
pub open spec fn nonzero_coins(coins: Seq<Coin>) -> Seq<Coin>
    decreases coins.len(),
{
    if coins.len() == 0 {
        Seq::empty()
    } else if coins.last().amount == 0 {
        nonzero_coins(coins.drop_last())
    } else {
        nonzero_coins(coins.drop_last()).push(coins.last())
    }
}

/// Keep the coins of nonzero amount.
pub fn drop_empty(coins: Vec<Coin>) -> (r: Vec<Coin>)
    ensures
        r@ == nonzero_coins(coins@),
{
    let mut r: Vec<Coin> = Vec::new();
    let mut i: usize = 0;
    while i < coins.len()
        invariant
            i <= coins.len(),
            r@ == nonzero_coins(coins@.take(i as int)),
        decreases coins.len() - i,
    {
        assert(coins@.take(i + 1).drop_last() =~= coins@.take(i as int));
        if coins[i].amount != 0 {
            r.push(copy_coin(&coins[i]));
        }
        i = i + 1;
    }
    assert(coins@.take(coins@.len() as int) =~= coins@);
    r
}

/// The sum of the amounts of the first `n` coins.
pub open spec fn amount_sum(coins: Seq<Coin>, n: int) -> int
    decreases n,
{
    if n <= 0 {
        0
    } else {
        amount_sum(coins, n - 1) + coins[n - 1].amount
    }
}

proof fn lemma_amount_sum_monotone(coins: Seq<Coin>, n: int, m: int)
    requires
        0 <= n <= m <= coins.len(),
    ensures
        amount_sum(coins, n) <= amount_sum(coins, m),
    decreases m - n,
{
    if n < m {
        lemma_amount_sum_monotone(coins, n, m - 1);
    }
}

/// The total amount of the coins.
pub fn total_amount(coins: &Vec<Coin>) -> (r: u128)
    requires
        amount_sum(coins@, coins@.len() as int) <= u128::MAX,
    ensures
        r == amount_sum(coins@, coins@.len() as int),
{
    let mut total: u128 = 0;
    let mut i: usize = 0;
    while i < coins.len()
        invariant
            i <= coins.len(),
            total == amount_sum(coins@, i as int),
            amount_sum(coins@, coins@.len() as int) <= u128::MAX,
        decreases coins.len() - i,
    {
        proof {
            lemma_amount_sum_monotone(coins@, i + 1, coins@.len() as int);
        }
        total = total + coins[i].amount;
        i = i + 1;
    }
    total
}

/// The part of an asset that `share_amount` shares take out: all of it when
/// the vault is left without value, else its share of the amount over the
/// shares outstanding before the withdrawal, rounded down.
pub open spec fn asset_part(amount: u128, share_amount: u128, value_left: u128, shares_before: int) -> int {
    if value_left == 0 {
        amount as int
    } else {
        ratio(share_amount as int, amount as int, shares_before)
    }
}

/// The assets after a withdrawal took their parts (before empty ones are
/// dropped), and the coins taken (those of nonzero part), for the first `n` assets.
pub open spec fn split_assets(
    assets: Seq<Coin>,
    n: int,
    share_amount: u128,
    value_left: u128,
    shares_before: int,
) -> (Seq<Coin>, Seq<Coin>)
    decreases n,
{
    if n <= 0 {
        (Seq::empty(), Seq::empty())
    } else {
        let (kept, taken) = split_assets(assets, n - 1, share_amount, value_left, shares_before);
        let a = assets[n - 1];
        let part = asset_part(a.amount, share_amount, value_left, shares_before);
        let left = if a.amount >= part { (a.amount - part) as u128 } else { 0 };
        (
            kept.push(Coin { amount: left, ..a }),
            if part != 0 { taken.push(Coin { amount: part as u128, ..a }) } else { taken },
        )
    }
}

/// Take from each asset its part for a withdrawal of `share_amount` shares,
/// where `shares_before` (at least `share_amount`) were outstanding and
/// `value_left` remains. Returns the assets left and the coins taken.
pub fn take_parts(assets: &Vec<Coin>, share_amount: u128, value_left: u128, shares_before: u128) -> (r: (
    Vec<Coin>,
    Vec<Coin>,
))
    requires
        share_amount > 0,
        shares_before >= share_amount,
    ensures
        (r.0@, r.1@) == split_assets(assets@, assets@.len() as int, share_amount, value_left, shares_before as int),
{
    let mut kept: Vec<Coin> = Vec::new();
    let mut taken: Vec<Coin> = Vec::new();
    let mut i: usize = 0;
    while i < assets.len()
        invariant
            i <= assets.len(),
            share_amount > 0,
            shares_before >= share_amount,
            (kept@, taken@) == split_assets(assets@, i as int, share_amount, value_left, shares_before as int),
        decreases assets.len() - i,
    {
        let a = &assets[i];
        let part = if value_left == 0 {
            a.amount
        } else {
            proof {
                let s = share_amount as int;
                let v = a.amount as int;
                let d = shares_before as int;
                assert(s * v / d <= v) by (nonlinear_arith)
                    requires
                        0 < s <= d,
                        0 <= v,
                ;
            }
            multiply_ratio(share_amount, a.amount, shares_before)
        };
        kept.push(Coin { denom: a.denom.clone(), amount: a.amount.saturating_sub(part) });
        if part != 0 {
            taken.push(Coin { denom: a.denom.clone(), amount: part });
        }
        i = i + 1;
    }
    (kept, taken)
}

// ── Conservation of the assets ────────────────────────────────────

/// The total amount of all coins.
pub open spec fn coins_total(coins: Seq<Coin>) -> int {
    amount_sum(coins, coins.len() as int)
}

proof fn lemma_amount_sum_prefix(a: Seq<Coin>, b: Seq<Coin>, n: int)
    requires
        0 <= n <= a.len(),
        n <= b.len(),
        forall|k: int| 0 <= k < n ==> #[trigger] a[k].amount == b[k].amount,
    ensures
        amount_sum(a, n) == amount_sum(b, n),
    decreases n,
{
    if n > 0 {
        lemma_amount_sum_prefix(a, b, n - 1);
    }
}

proof fn lemma_total_push(s: Seq<Coin>, c: Coin)
    ensures
        coins_total(s.push(c)) == coins_total(s) + c.amount,
{
    lemma_amount_sum_prefix(s.push(c), s, s.len() as int);
}

proof fn lemma_amount_sum_update(s: Seq<Coin>, i: int, c: Coin, n: int)
    requires
        0 <= i < s.len(),
        0 <= n <= s.len(),
    ensures
        amount_sum(s.update(i, c), n) == amount_sum(s, n) + if n > i { c.amount - s[i].amount } else { 0 },
    decreases n,
{
    if n > 0 {
        lemma_amount_sum_update(s, i, c, n - 1);
    }
}

proof fn lemma_total_update(s: Seq<Coin>, i: int, c: Coin)
    requires
        0 <= i < s.len(),
    ensures
        coins_total(s.update(i, c)) == coins_total(s) - s[i].amount + c.amount,
{
    lemma_amount_sum_update(s, i, c, s.len() as int);
}

/// Dropping empty coins keeps the total.
pub proof fn lemma_total_nonzero(s: Seq<Coin>)
    ensures
        coins_total(nonzero_coins(s)) == coins_total(s),
    decreases s.len(),
{
    if s.len() > 0 {
        let d = s.drop_last();
        lemma_total_nonzero(d);
        lemma_amount_sum_prefix(s, d, d.len() as int);
        if s.last().amount != 0 {
            lemma_total_push(nonzero_coins(d), s.last());
        }
    }
}

/// Depositing coins grows the vault's total by their total.
pub proof fn lemma_deposit_adds_total(coins: Seq<Coin>, added: Seq<Coin>, n: int)
    requires
        0 <= n <= added.len(),
        coins_fit(coins, added, n),
    ensures
        coins_total(with_coins(coins, added, n)) == coins_total(coins) + amount_sum(added, n),
    decreases n,
{
    if n > 0 {
        lemma_deposit_adds_total(coins, added, n - 1);
        let before = with_coins(coins, added, n - 1);
        let c = added[n - 1];
        lemma_denom_index(before, c.denom@);
        let j = denom_index(before, c.denom@);
        if j >= 0 {
            lemma_total_update(before, j, Coin { amount: (before[j].amount + c.amount) as u128, ..before[j] });
        } else {
            lemma_total_push(before, c);
        }
    }
}

/// Moving `amount` from one asset to another keeps the vault's total.
pub proof fn lemma_rebalance_keeps_total(assets: Seq<Coin>, from: Seq<char>, to: String, amount: u128)
    requires
        denom_index(assets, from) >= 0,
        assets[denom_index(assets, from)].amount >= amount,
        ({
            let i = denom_index(assets, from);
            let taken = assets.update(i, Coin { amount: (assets[i].amount - amount) as u128, ..assets[i] });
            let j = denom_index(taken, to@);
            j >= 0 ==> taken[j].amount + amount <= u128::MAX
        }),
    ensures
        ({
            let i = denom_index(assets, from);
            let taken = assets.update(i, Coin { amount: (assets[i].amount - amount) as u128, ..assets[i] });
            let j = denom_index(taken, to@);
            let given = if j >= 0 {
                taken.update(j, Coin { amount: (taken[j].amount + amount) as u128, ..taken[j] })
            } else {
                taken.push(Coin { denom: to, amount })
            };
            coins_total(nonzero_coins(given)) == coins_total(assets)
        }),
{
    lemma_denom_index(assets, from);
    let i = denom_index(assets, from);
    let taken = assets.update(i, Coin { amount: (assets[i].amount - amount) as u128, ..assets[i] });
    lemma_total_update(assets, i, Coin { amount: (assets[i].amount - amount) as u128, ..assets[i] });
    lemma_denom_index(taken, to@);
    let j = denom_index(taken, to@);
    let given = if j >= 0 {
        taken.update(j, Coin { amount: (taken[j].amount + amount) as u128, ..taken[j] })
    } else {
        taken.push(Coin { denom: to, amount })
    };
    if j >= 0 {
        lemma_total_update(taken, j, Coin { amount: (taken[j].amount + amount) as u128, ..taken[j] });
    } else {
        lemma_total_push(taken, Coin { denom: to, amount });
    }
    lemma_total_nonzero(given);
}

proof fn lemma_part_bounded(amount: u128, share_amount: u128, value_left: u128, shares_before: int)
    requires
        share_amount > 0,
        shares_before >= share_amount,
    ensures
        0 <= asset_part(amount, share_amount, value_left, shares_before) <= amount,
{
    if value_left != 0 {
        let s = share_amount as int;
        let v = amount as int;
        let d = shares_before;
        assert(0 <= s * v / d <= v) by (nonlinear_arith)
            requires
                0 < s <= d,
                0 <= v,
        ;
    }
}

/// A withdrawal conserves the assets: what the vault keeps plus what is
/// sent out is what the vault held.
pub proof fn lemma_withdrawal_conserves_assets(
    assets: Seq<Coin>,
    n: int,
    share_amount: u128,
    value_left: u128,
    shares_before: int,
)
    requires
        0 <= n <= assets.len(),
        share_amount > 0,
        shares_before >= share_amount,
    ensures
        ({
            let (kept, taken) = split_assets(assets, n, share_amount, value_left, shares_before);
            coins_total(nonzero_coins(kept)) + coins_total(taken) == amount_sum(assets, n)
        }),
    decreases n,
{
    if n > 0 {
        lemma_withdrawal_conserves_assets(assets, n - 1, share_amount, value_left, shares_before);
        let (kept, taken) = split_assets(assets, n - 1, share_amount, value_left, shares_before);
        let a = assets[n - 1];
        let part = asset_part(a.amount, share_amount, value_left, shares_before);
        lemma_part_bounded(a.amount, share_amount, value_left, shares_before);
        let left = (a.amount - part) as u128;
        lemma_total_nonzero(kept);
        lemma_total_nonzero(kept.push(Coin { amount: left, ..a }));
        lemma_total_push(kept, Coin { amount: left, ..a });
        if part != 0 {
            lemma_total_push(taken, Coin { amount: part as u128, ..a });
        }
    }
}

// ── Holdings by denomination ────────────────────────────────────

/// The total amount held in coins of `denom`.
pub open spec fn denom_amount(coins: Seq<Coin>, denom: Seq<char>) -> int
    decreases coins.len(),
{
    if coins.len() == 0 {
        0
    } else {
        denom_amount(coins.drop_last(), denom) + if coins.last().denom@ == denom {
            coins.last().amount as int
        } else {
            0
        }
    }
}

/// Replacing one coin changes each denomination's holding by that coin alone.
pub(crate) proof fn lemma_denom_amount_update(s: Seq<Coin>, i: int, c: Coin, denom: Seq<char>)
    requires
        0 <= i < s.len(),
    ensures
        denom_amount(s.update(i, c), denom) == denom_amount(s, denom) - (if s[i].denom@ == denom {
            s[i].amount as int
        } else {
            0
        }) + (if c.denom@ == denom {
            c.amount as int
        } else {
            0
        }),
    decreases s.len(),
{
    let u = s.update(i, c);
    if i == s.len() - 1 {
        assert(u.drop_last() =~= s.drop_last());
    } else {
        assert(u.drop_last() =~= s.drop_last().update(i, c));
        lemma_denom_amount_update(s.drop_last(), i, c, denom);
    }
}

/// Each coin of `denom` holds at most the denomination's holding.
pub(crate) proof fn lemma_denom_amount_bounds(s: Seq<Coin>, k: int, denom: Seq<char>)
    requires
        0 <= k < s.len(),
        s[k].denom@ == denom,
    ensures
        s[k].amount <= denom_amount(s, denom),
    decreases s.len(),
{
    lemma_denom_amount_nonneg(s.drop_last(), denom);
    if k < s.len() - 1 {
        lemma_denom_amount_bounds(s.drop_last(), k, denom);
    }
}

/// A holding is never negative.
pub(crate) proof fn lemma_denom_amount_nonneg(s: Seq<Coin>, denom: Seq<char>)
    ensures
        denom_amount(s, denom) >= 0,
    decreases s.len(),
{
    if s.len() > 0 {
        lemma_denom_amount_nonneg(s.drop_last(), denom);
    }
}

/// Dropping empty coins keeps every denomination's holding.
pub(crate) proof fn lemma_denom_amount_nonzero(s: Seq<Coin>, denom: Seq<char>)
    ensures
        denom_amount(nonzero_coins(s), denom) == denom_amount(s, denom),
    decreases s.len(),
{
    if s.len() > 0 {
        let d = s.drop_last();
        lemma_denom_amount_nonzero(d, denom);
        if s.last().amount != 0 {
            assert(nonzero_coins(s).drop_last() =~= nonzero_coins(d));
        }
    }
}

/// No coin left by `nonzero_coins` is empty.
pub(crate) proof fn lemma_nonzero_coins_nonzero(s: Seq<Coin>)
    ensures
        forall|k: int| 0 <= k < nonzero_coins(s).len() ==> (#[trigger] nonzero_coins(s)[k]).amount > 0,
    decreases s.len(),
{
    if s.len() > 0 {
        let d = s.drop_last();
        lemma_nonzero_coins_nonzero(d);
        let r = nonzero_coins(s);
        assert forall|k: int| 0 <= k < r.len() implies (#[trigger] r[k]).amount > 0 by {
            if s.last().amount != 0 && k == r.len() - 1 {
                assert(r[k] == s.last());
            } else {
                assert(r[k] == nonzero_coins(d)[k]);
            }
        }
    }
}

} // verus!
