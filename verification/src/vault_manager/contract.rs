//! Handlers of the vault manager. Each takes the stored values it reads, as
//! the storage layer returned them, and gives back what is to be stored and
//! the response; nothing is stored when it returns an error.

use crate::common::{
    flag, flag_attr, multiply_ratio, num_attr, number, ratio, same_text, text, text_attr, text_owned,
    BankSend, BankSendView, Coin, MessageInfo, Response, StdFailure,
};
use crate::vault_manager::assets::{
    add_coins, amount_sum, coins_fit, denom_amount, denom_index, drop_empty, find_denom, lemma_denom_amount_bounds,
    lemma_denom_amount_nonzero, lemma_denom_amount_update, lemma_denom_index, lemma_nonzero_coins_nonzero, nonzero_coins,
    split_assets, take_parts, total_amount, with_coins,
};
use crate::vault_manager::error::ContractError;
use crate::vault_manager::msg::InstantiateMsg;
use crate::vault_manager::state::{Config, PerformancePoint, RebalanceEvent, Vault, VaultDeposit};
use vstd::prelude::*;

verus! {

/// `admin` is the validation of `msg.admin` as an address.
pub fn instantiate(msg: InstantiateMsg, admin: Result<String, StdFailure>) -> (res: Result<
    (Config, Response),
    ContractError,
>)
    ensures
        match admin {
            Err(e) => res == Err::<(Config, Response), ContractError>(ContractError::Std(e)),
            Ok(a) => res matches Ok((c, r)) && c == (Config { admin: a, fee_rate_bps: msg.fee_rate_bps })
                && r@.messages.len() == 0 && r@.attributes == seq![
                text_attr("action"@, "instantiate"@),
                text_attr("admin"@, a@),
            ],
        },
{
    let a = match admin {
        Err(e) => return Err(ContractError::Std(e)),
        Ok(a) => a,
    };
    let attributes = vec![text("action", "instantiate"), text_owned("admin", a.clone())];
    let response = Response { messages: Vec::new(), attributes };
    proof {
        assert(response@.attributes =~= seq![text_attr("action"@, "instantiate"@), text_attr("admin"@, a@)]);
    }
    Ok((Config { admin: a, fee_rate_bps: msg.fee_rate_bps }, response))
}

// ── Create vault ──────────────────────────────────────────────────

/// The strategies a vault can follow.
pub open spec fn known_strategy(s: Seq<char>) -> bool {
    s == "Conservative"@ || s == "Balanced"@ || s == "Aggressive"@
}

/// The risk score of a strategy: 1 for Conservative, 5 for Balanced, 9 otherwise.
pub open spec fn strategy_risk(s: Seq<char>) -> u8 {
    if s == "Conservative"@ {
        1
    } else if s == "Balanced"@ {
        5
    } else {
        9
    }
}

/// Create an empty, active vault owned by the sender under the next vault
/// id. Reads the vault count. Returns the new id (which is also the new
/// count), the vault and the response.
pub fn execute_create_vault(
    count: Result<Option<u64>, StdFailure>,
    now: u64,
    info: MessageInfo,
    name: String,
    strategy_type: String,
) -> (res: Result<(u64, Vault, Response), ContractError>)
    requires
        known_strategy(strategy_type@) && count is Ok ==> count->Ok_0.unwrap_or(0) < u64::MAX,
    ensures
        if !known_strategy(strategy_type@) {
            res matches Err(ContractError::InvalidStrategy { strategy }) && strategy == strategy_type
        } else {
            match count {
                Err(e) => res == Err::<(u64, Vault, Response), ContractError>(ContractError::Std(e)),
                Ok(n) => res matches Ok((id, v, r)) && id == n.unwrap_or(0) + 1 && v == (Vault {
                    id,
                    name,
                    strategy_type,
                    owner: info.sender,
                    assets: v.assets,
                    total_value: 0,
                    total_shares: 0,
                    performance_history: v.performance_history,
                    risk_score: strategy_risk(strategy_type@),
                    agent_count: 0,
                    is_active: true,
                    created_at: now,
                }) && v.assets@.len() == 0 && v.performance_history@.len() == 0 && r@.messages.len() == 0
                    && r@.attributes == seq![
                    text_attr("action"@, "create_vault"@),
                    num_attr("vault_id"@, id as int),
                ],
            }
        },
{
    let conservative = same_text(&strategy_type, "Conservative");
    let balanced = same_text(&strategy_type, "Balanced");
    let aggressive = same_text(&strategy_type, "Aggressive");
    if !(conservative || balanced || aggressive) {
        return Err(ContractError::InvalidStrategy { strategy: strategy_type });
    }
    let id = match count {
        Err(e) => return Err(ContractError::Std(e)),
        Ok(Some(n)) => n + 1,
        Ok(None) => 1,
    };
    let risk_score: u8 = if conservative {
        1
    } else if balanced {
        5
    } else {
        9
    };
    let attributes = vec![text("action", "create_vault"), number("vault_id", id as u128)];
    let response = Response { messages: Vec::new(), attributes };
    proof {
        assert(response@.attributes =~= seq![text_attr("action"@, "create_vault"@), num_attr("vault_id"@, id as int)]);
    }
    let vault = Vault {
        id,
        name,
        strategy_type,
        owner: info.sender,
        assets: Vec::new(),
        total_value: 0,
        total_shares: 0,
        performance_history: Vec::new(),
        risk_score,
        agent_count: 0,
        is_active: true,
        created_at: now,
    };
    Ok((id, vault, response))
}

// ── Deposit and withdrawal ────────────────────────────────────────

/// The performance history with a new point, cut to its last 100 points.
pub open spec fn with_point(history: Seq<PerformancePoint>, point: PerformancePoint) -> Seq<PerformancePoint> {
    let h = history.push(point);
    if h.len() > 100 {
        h.subrange(h.len() - 100, h.len() as int)
    } else {
        h
    }
}

fn record_point(history: &mut Vec<PerformancePoint>, point: PerformancePoint)
    ensures
        final(history)@ == with_point(old(history)@, point),
{
    history.push(point);
    if history.len() > 100 {
        let at = history.len() - 100;
        let tail = history.split_off(at);
        *history = tail;
    }
}

/// The shares a deposit of `amount` mints: the amount itself into a vault
/// without shares, else the amount's fraction of the vault's value in
/// shares, rounded down.
pub open spec fn minted_shares(amount: u128, total_shares: u128, total_value: u128) -> int {
    if total_shares == 0 {
        amount as int
    } else {
        ratio(amount as int, total_shares as int, total_value as int)
    }
}

/// What a deposit stores: the vault, the depositor's deposit record and,
/// where the vault is new to the depositor, the depositor's list of vaults.
#[derive(Clone, Debug)]
pub struct Deposited {
    pub vault: Vault,
    pub deposit: VaultDeposit,
    pub user_vaults: Option<Vec<u64>>,
    pub response: Response,
}

/// The vault list of a user before a deposit.
pub open spec fn prior_vaults(stored: Option<Vec<u64>>) -> Seq<u64> {
    match stored {
        Some(v) => v@,
        None => Seq::empty(),
    }
}

/// The depositor's holding in a vault before a deposit: the stored one, or
/// an empty one.
pub open spec fn held_deposit(stored: Option<VaultDeposit>, depositor: String, vault_id: u64, now: u64) -> VaultDeposit {
    match stored {
        Some(d) => d,
        None => VaultDeposit { depositor, vault_id, amount: 0, deposited_at: now, shares: 0 },
    }
}

/// Deposit the attached coins into an active vault: their total amount is
/// its value, shares are minted for it and added to the depositor's shares,
/// and the coins join the vault's assets. Reads the vault, the depositor's
/// holding in it (`holding`), then the depositor's list of vaults.
pub fn execute_deposit(
    vault: Result<Vault, StdFailure>,
    holding: Result<Option<VaultDeposit>, StdFailure>,
    user_vaults: Result<Option<Vec<u64>>, StdFailure>,
    now: u64,
    info: MessageInfo,
    vault_id: u64,
) -> (res: Result<Deposited, ContractError>)
    requires
        (vault matches Ok(v) && v.is_active) ==> amount_sum(info.funds@, info.funds@.len() as int) <= u128::MAX,
        ({
            &&& vault matches Ok(v)
            &&& v.is_active
            &&& amount_sum(info.funds@, info.funds@.len() as int) > 0
        }) ==> {
            let v = vault->Ok_0;
            let amount = amount_sum(info.funds@, info.funds@.len() as int) as u128;
            &&& v.total_shares != 0 ==> v.total_value != 0
            &&& minted_shares(amount, v.total_shares, v.total_value) <= u128::MAX
            &&& coins_fit(v.assets@, info.funds@, info.funds@.len() as int)
            &&& v.total_value + amount <= u128::MAX
            &&& v.total_shares + minted_shares(amount, v.total_shares, v.total_value) <= u128::MAX
            &&& holding matches Ok(h) ==> {
                let held = held_deposit(h, info.sender, vault_id, now);
                &&& held.amount + amount <= u128::MAX
                &&& held.shares + minted_shares(amount, v.total_shares, v.total_value) <= u128::MAX
            }
        },
    ensures
        match vault {
            Err(e) => res == Err::<Deposited, ContractError>(ContractError::Std(e)),
            Ok(v) => if !v.is_active {
                res matches Err(ContractError::VaultNotActive {  })
            } else if amount_sum(info.funds@, info.funds@.len() as int) == 0 {
                res matches Err(ContractError::InsufficientFunds {  })
            } else {
                match holding {
                  Err(e) => res == Err::<Deposited, ContractError>(ContractError::Std(e)),
                  Ok(h) => match user_vaults {
                    Err(e) => res == Err::<Deposited, ContractError>(ContractError::Std(e)),
                    Ok(stored) => res matches Ok(out) && {
                        let held = held_deposit(h, info.sender, vault_id, now);
                        let amount = amount_sum(info.funds@, info.funds@.len() as int) as u128;
                        let shares = minted_shares(amount, v.total_shares, v.total_value) as u128;
                        let value = (v.total_value + amount) as u128;
                        &&& out.vault == (Vault {
                            assets: out.vault.assets,
                            total_value: value,
                            total_shares: (v.total_shares + shares) as u128,
                            performance_history: out.vault.performance_history,
                            ..v
                        })
                        &&& out.vault.assets@ == with_coins(v.assets@, info.funds@, info.funds@.len() as int)
                        &&& out.vault.performance_history@ == with_point(
                            v.performance_history@,
                            PerformancePoint { timestamp: now, value },
                        )
                        &&& out.deposit == (VaultDeposit {
                            amount: (held.amount + amount) as u128,
                            deposited_at: now,
                            shares: (held.shares + shares) as u128,
                            ..held
                        })
                        &&& if prior_vaults(stored).contains(vault_id) {
                            out.user_vaults is None
                        } else {
                            out.user_vaults matches Some(list) && list@ == prior_vaults(stored).push(vault_id)
                        }
                        &&& out.response@.messages.len() == 0
                        &&& out.response@.attributes == seq![
                            text_attr("action"@, "deposit"@),
                            num_attr("vault_id"@, vault_id as int),
                            num_attr("amount"@, amount as int),
                            num_attr("shares"@, shares as int),
                        ]
                    },
                  },
                }
            },
        },
{
    let mut vault = match vault {
        Err(e) => return Err(ContractError::Std(e)),
        Ok(v) => v,
    };
    if !vault.is_active {
        return Err(ContractError::VaultNotActive {  });
    }
    let amount = total_amount(&info.funds);
    if amount == 0 {
        return Err(ContractError::InsufficientFunds {  });
    }
    let shares = if vault.total_shares == 0 {
        amount
    } else {
        multiply_ratio(amount, vault.total_shares, vault.total_value)
    };
    add_coins(&mut vault.assets, &info.funds);
    vault.total_value = vault.total_value + amount;
    vault.total_shares = vault.total_shares + shares;
    record_point(&mut vault.performance_history, PerformancePoint { timestamp: now, value: vault.total_value });
    let held = match holding {
        Err(e) => return Err(ContractError::Std(e)),
        Ok(Some(d)) => d,
        Ok(None) => VaultDeposit { depositor: info.sender.clone(), vault_id, amount: 0, deposited_at: now, shares: 0 },
    };
    let deposit = VaultDeposit {
        amount: held.amount + amount,
        deposited_at: now,
        shares: held.shares + shares,
        ..held
    };
    let mut list = match user_vaults {
        Err(e) => return Err(ContractError::Std(e)),
        Ok(Some(l)) => l,
        Ok(None) => Vec::new(),
    };
    let mut known = false;
    let mut i: usize = 0;
    while i < list.len()
        invariant
            i <= list.len(),
            known == (exists|k: int| 0 <= k < i && list@[k] == vault_id),
        decreases list.len() - i,
    {
        if list[i] == vault_id {
            known = true;
        }
        i = i + 1;
    }
    assert(known == list@.contains(vault_id));
    let user_vaults = if known {
        None
    } else {
        list.push(vault_id);
        Some(list)
    };
    let attributes = vec![
        text("action", "deposit"),
        number("vault_id", vault_id as u128),
        number("amount", amount),
        number("shares", shares),
    ];
    let response = Response { messages: Vec::new(), attributes };
    proof {
        assert(response@.attributes =~= seq![
            text_attr("action"@, "deposit"@),
            num_attr("vault_id"@, vault_id as int),
            num_attr("amount"@, amount as int),
            num_attr("shares"@, shares as int),
        ]);
    }
    Ok(Deposited { vault, deposit, user_vaults, response })
}

/// A deposit never dilutes the holders of a vault's shares: the value per
/// share after it is at least the value per share before it
/// (`value * new_shares <= new_value * shares`).
pub proof fn lemma_deposit_never_dilutes(total_value: u128, total_shares: u128, amount: u128)
    requires
        total_shares != 0,
        total_value != 0,
    ensures
        total_value * (total_shares + minted_shares(amount, total_shares, total_value)) <= (total_value
            + amount) * total_shares,
{
    let v = total_value as int;
    let s = total_shares as int;
    let d = amount as int;
    let m = d * s / v;
    assert(m * v <= d * s) by (nonlinear_arith)
        requires
            v > 0,
            d * s >= 0,
            m == d * s / v,
    ;
    assert(v * (s + m) <= (v + d) * s) by (nonlinear_arith)
        requires
            m * v <= d * s,
    ;
}

/// The value `share_amount` shares are worth: their fraction of the vault's
/// value, rounded down; nothing in a vault without shares.
pub open spec fn share_value(share_amount: u128, total_shares: u128, total_value: u128) -> int {
    if total_shares == 0 {
        0
    } else {
        ratio(share_amount as int, total_value as int, total_shares as int)
    }
}

pub open spec fn saturating_minus(a: u128, b: int) -> u128 {
    if a >= b {
        (a - b) as u128
    } else {
        0
    }
}

/// What a withdrawal stores: the vault and the depositor's deposit record.
#[derive(Clone, Debug)]
pub struct Withdrawn {
    pub vault: Vault,
    pub deposit: VaultDeposit,
    pub response: Response,
}

/// Withdraw by burning `share_amount` of the depositor's shares: the
/// vault's shares and value fall by the shares and their value, each asset
/// gives up its part, and the parts are sent to the depositor. Reads the
/// vault, then the depositor's deposit record.
pub fn execute_withdraw(
    vault: Result<Vault, StdFailure>,
    deposit: Result<VaultDeposit, StdFailure>,
    now: u64,
    info: MessageInfo,
    vault_id: u64,
    share_amount: u128,
) -> (res: Result<Withdrawn, ContractError>)
    requires
        ({
            &&& share_amount != 0
            &&& vault is Ok
            &&& deposit matches Ok(d) && d.shares >= share_amount
        }) ==> share_value(share_amount, vault->Ok_0.total_shares, vault->Ok_0.total_value) <= u128::MAX,
    ensures
        if share_amount == 0 {
            res matches Err(ContractError::InsufficientShares {  })
        } else {
            match vault {
                Err(e) => res == Err::<Withdrawn, ContractError>(ContractError::Std(e)),
                Ok(v) => match deposit {
                    Err(e) => res == Err::<Withdrawn, ContractError>(ContractError::Std(e)),
                    Ok(d) => if d.shares < share_amount {
                        res matches Err(ContractError::InsufficientShares {  })
                    } else {
                        res matches Ok(out) && {
                            let value = share_value(share_amount, v.total_shares, v.total_value);
                            let shares_left = saturating_minus(v.total_shares, share_amount as int);
                            let value_left = saturating_minus(v.total_value, value);
                            let split = split_assets(
                                v.assets@,
                                v.assets@.len() as int,
                                share_amount,
                                value_left,
                                shares_left + share_amount,
                            );
                            &&& out.vault == (Vault {
                                assets: out.vault.assets,
                                total_value: value_left,
                                total_shares: shares_left,
                                performance_history: out.vault.performance_history,
                                ..v
                            })
                            &&& out.vault.assets@ == nonzero_coins(split.0)
                            &&& out.vault.performance_history@ == with_point(
                                v.performance_history@,
                                PerformancePoint { timestamp: now, value: value_left },
                            )
                            &&& out.deposit == (VaultDeposit {
                                shares: (d.shares - share_amount) as u128,
                                amount: saturating_minus(d.amount, value),
                                ..d
                            })
                            &&& out.response@.messages.len() == 1
                            &&& out.response@.messages[0].to_address == info.sender@
                            &&& out.response@.messages[0].amount == split.1.map_values(|c: Coin| c@)
                            &&& out.response@.attributes == seq![
                                text_attr("action"@, "withdraw"@),
                                num_attr("vault_id"@, vault_id as int),
                                num_attr("shares"@, share_amount as int),
                                num_attr("value"@, value),
                            ]
                        }
                    },
                },
            }
        },
{
    if share_amount == 0 {
        return Err(ContractError::InsufficientShares {  });
    }
    let mut vault = match vault {
        Err(e) => return Err(ContractError::Std(e)),
        Ok(v) => v,
    };
    let mut deposit = match deposit {
        Err(e) => return Err(ContractError::Std(e)),
        Ok(d) => d,
    };
    if deposit.shares < share_amount {
        return Err(ContractError::InsufficientShares {  });
    }
    let value = if vault.total_shares == 0 {
        0
    } else {
        multiply_ratio(share_amount, vault.total_value, vault.total_shares)
    };
    vault.total_shares = vault.total_shares.saturating_sub(share_amount);
    vault.total_value = vault.total_value.saturating_sub(value);
    let shares_before = vault.total_shares + share_amount;
    let (kept, taken) = take_parts(&vault.assets, share_amount, vault.total_value, shares_before);
    vault.assets = drop_empty(kept);
    deposit.shares = deposit.shares - share_amount;
    deposit.amount = deposit.amount.saturating_sub(value);
    record_point(&mut vault.performance_history, PerformancePoint { timestamp: now, value: vault.total_value });
    let send = BankSend { to_address: info.sender.clone(), amount: taken };
    let attributes = vec![
        text("action", "withdraw"),
        number("vault_id", vault_id as u128),
        number("shares", share_amount),
        number("value", value),
    ];
    let response = Response { messages: vec![send], attributes };
    proof {
        assert(response@.attributes =~= seq![
            text_attr("action"@, "withdraw"@),
            num_attr("vault_id"@, vault_id as int),
            num_attr("shares"@, share_amount as int),
            num_attr("value"@, value as int),
        ]);
    }
    Ok(Withdrawn { vault, deposit, response })
}

// ── Rebalance ─────────────────────────────────────────────────────

/// The assets after `amount` moved from the first coin of `from` to the
/// first coin of `to` (a new coin at the end where there is none), with
/// empty coins dropped. `from` must be held.
pub open spec fn rebalanced_assets(assets: Seq<Coin>, from: Seq<char>, to: String, amount: u128) -> Seq<Coin> {
    let i = denom_index(assets, from);
    let taken = assets.update(i, Coin { amount: (assets[i].amount - amount) as u128, ..assets[i] });
    let j = denom_index(taken, to@);
    let given = if j >= 0 {
        taken.update(j, Coin { amount: (taken[j].amount + amount) as u128, ..taken[j] })
    } else {
        taken.push(Coin { denom: to, amount })
    };
    nonzero_coins(given)
}

/// A rebalance takes exactly `amount` off the holding of `from`, adds
/// exactly `amount` to the holding of `to`, and leaves every other
/// denomination's holding as it was; no empty coin is left.
pub proof fn lemma_rebalance_moves_amount(assets: Seq<Coin>, from: Seq<char>, to: String, amount: u128)
    requires
        denom_index(assets, from) >= 0,
        assets[denom_index(assets, from)].amount >= amount,
        forall|k: int| 0 <= k < assets.len() && (#[trigger] assets[k]).denom@ == to@ ==> assets[k].amount + amount <= u128::MAX,
    ensures
        forall|d: Seq<char>|
            #[trigger] denom_amount(rebalanced_assets(assets, from, to, amount), d) == denom_amount(assets, d) - (if d
                == from {
                amount as int
            } else {
                0
            }) + (if d == to@ {
                amount as int
            } else {
                0
            }),
        forall|k: int|
            0 <= k < rebalanced_assets(assets, from, to, amount).len() ==> (#[trigger] rebalanced_assets(
                assets,
                from,
                to,
                amount,
            )[k]).amount > 0,
{
    lemma_denom_index(assets, from);
    let i = denom_index(assets, from);
    let cut = Coin { amount: (assets[i].amount - amount) as u128, ..assets[i] };
    let taken = assets.update(i, cut);
    lemma_denom_index(taken, to@);
    let j = denom_index(taken, to@);
    let given = if j >= 0 {
        taken.update(j, Coin { amount: (taken[j].amount + amount) as u128, ..taken[j] })
    } else {
        taken.push(Coin { denom: to, amount })
    };
    if j >= 0 {
        assert(taken[j].amount <= assets[j].amount);
        assert(assets[j].denom@ == to@);
    }
    assert forall|d: Seq<char>|
        #[trigger] denom_amount(rebalanced_assets(assets, from, to, amount), d) == denom_amount(assets, d) - (if d
            == from {
            amount as int
        } else {
            0
        }) + (if d == to@ {
            amount as int
        } else {
            0
        }) by {
        lemma_denom_amount_update(assets, i, cut, d);
        if j >= 0 {
            lemma_denom_amount_update(taken, j, Coin { amount: (taken[j].amount + amount) as u128, ..taken[j] }, d);
        } else {
            assert(given.drop_last() =~= taken);
        }
        lemma_denom_amount_nonzero(given, d);
    }
    lemma_nonzero_coins_nonzero(given);
}

/// What a rebalance stores: the vault, the rebalance count (the new
/// event's id) and the event.
#[derive(Clone, Debug)]
pub struct Rebalanced {
    pub vault: Vault,
    pub event_count: u64,
    pub event: RebalanceEvent,
    pub response: Response,
}

/// A whitelisted agent moves `amount` of an active vault's `from_asset`
/// to its `to_asset`. Reads the sender's whitelist entry, the vault, then
/// the rebalance count.
pub fn execute_rebalance(
    whitelisted: Result<Option<bool>, StdFailure>,
    vault: Result<Vault, StdFailure>,
    count: Result<Option<u64>, StdFailure>,
    now: u64,
    info: MessageInfo,
    vault_id: u64,
    from_asset: String,
    to_asset: String,
    amount: u128,
    reason: String,
) -> (res: Result<Rebalanced, ContractError>)
    requires
        ({
            &&& whitelisted matches Ok(w) && w == Some(true)
            &&& vault matches Ok(v) && v.is_active
            &&& denom_index(vault->Ok_0.assets@, from_asset@) >= 0
            &&& vault->Ok_0.assets@[denom_index(vault->Ok_0.assets@, from_asset@)].amount >= amount
        }) ==> {
            let v = vault->Ok_0;
            let i = denom_index(v.assets@, from_asset@);
            let taken = v.assets@.update(i, Coin { amount: (v.assets@[i].amount - amount) as u128, ..v.assets@[i] });
            let j = denom_index(taken, to_asset@);
            &&& j >= 0 ==> taken[j].amount + amount <= u128::MAX
            &&& v.agent_count < u32::MAX
            &&& count matches Ok(n) ==> n.unwrap_or(0) < u64::MAX
        },
    ensures
        match whitelisted {
            Err(e) => res == Err::<Rebalanced, ContractError>(ContractError::Std(e)),
            Ok(w) => if w != Some(true) {
                res matches Err(ContractError::AgentNotWhitelisted {  })
            } else {
                match vault {
                    Err(e) => res == Err::<Rebalanced, ContractError>(ContractError::Std(e)),
                    Ok(v) => if !v.is_active {
                        res matches Err(ContractError::VaultNotActive {  })
                    } else if denom_index(v.assets@, from_asset@) < 0 {
                        res matches Err(ContractError::AssetNotFound { asset }) && asset == from_asset
                    } else if v.assets@[denom_index(v.assets@, from_asset@)].amount < amount {
                        res matches Err(ContractError::InsufficientAssetBalance {  })
                    } else {
                        match count {
                            Err(e) => res == Err::<Rebalanced, ContractError>(ContractError::Std(e)),
                            Ok(n) => res matches Ok(out) && {
                                let id = (n.unwrap_or(0) + 1) as u64;
                                &&& out.vault == (Vault {
                                    assets: out.vault.assets,
                                    agent_count: (v.agent_count + 1) as u32,
                                    ..v
                                })
                                &&& out.vault.assets@ == rebalanced_assets(v.assets@, from_asset@, to_asset, amount)
                                &&& out.event_count == id
                                &&& out.event == (RebalanceEvent {
                                    id,
                                    vault_id,
                                    from_asset,
                                    to_asset,
                                    amount,
                                    triggered_by: info.sender,
                                    reason,
                                    executed_at: now,
                                })
                                &&& out.response@.messages.len() == 0
                                &&& out.response@.attributes == seq![
                                    text_attr("action"@, "rebalance"@),
                                    num_attr("vault_id"@, vault_id as int),
                                    text_attr("from_asset"@, from_asset@),
                                    text_attr("to_asset"@, to_asset@),
                                    num_attr("amount"@, amount as int),
                                    text_attr("triggered_by"@, info.sender@),
                                ]
                            },
                        }
                    },
                }
            },
        },
{
    let allowed = match whitelisted {
        Err(e) => return Err(ContractError::Std(e)),
        Ok(Some(b)) => b,
        Ok(None) => false,
    };
    if !allowed {
        return Err(ContractError::AgentNotWhitelisted {  });
    }
    let mut vault = match vault {
        Err(e) => return Err(ContractError::Std(e)),
        Ok(v) => v,
    };
    if !vault.is_active {
        return Err(ContractError::VaultNotActive {  });
    }
    let i = match find_denom(&vault.assets, &from_asset) {
        None => return Err(ContractError::AssetNotFound { asset: from_asset }),
        Some(i) => i,
    };
    if vault.assets[i].amount < amount {
        return Err(ContractError::InsufficientAssetBalance {  });
    }
    let mut assets = vault.assets;
    let reduced = Coin { denom: assets[i].denom.clone(), amount: assets[i].amount - amount };
    assets.set(i, reduced);
    match find_denom(&assets, &to_asset) {
        Some(j) => {
            let grown = Coin { denom: assets[j].denom.clone(), amount: assets[j].amount + amount };
            assets.set(j, grown);
        },
        None => {
            assets.push(Coin { denom: to_asset.clone(), amount });
        },
    }
    vault.assets = drop_empty(assets);
    vault.agent_count = vault.agent_count + 1;
    let id = match count {
        Err(e) => return Err(ContractError::Std(e)),
        Ok(Some(n)) => n + 1,
        Ok(None) => 1,
    };
    let attributes = vec![
        text("action", "rebalance"),
        number("vault_id", vault_id as u128),
        text_owned("from_asset", from_asset.clone()),
        text_owned("to_asset", to_asset.clone()),
        number("amount", amount),
        text_owned("triggered_by", info.sender.clone()),
    ];
    let response = Response { messages: Vec::new(), attributes };
    proof {
        assert(response@.attributes =~= seq![
            text_attr("action"@, "rebalance"@),
            num_attr("vault_id"@, vault_id as int),
            text_attr("from_asset"@, from_asset@),
            text_attr("to_asset"@, to_asset@),
            num_attr("amount"@, amount as int),
            text_attr("triggered_by"@, info.sender@),
        ]);
    }
    let event = RebalanceEvent {
        id,
        vault_id,
        from_asset,
        to_asset,
        amount,
        triggered_by: info.sender,
        reason,
        executed_at: now,
    };
    Ok(Rebalanced { vault, event_count: id, event, response })
}

// ── Administration ────────────────────────────────────────────────

/// Admin updates the configuration; each field given replaces the stored
/// one. `admin` is the validation of the new admin address, where one is given.
pub fn execute_update_config(
    config: Result<Config, StdFailure>,
    info: MessageInfo,
    admin: Option<Result<String, StdFailure>>,
    fee_rate_bps: Option<u64>,
) -> (res: Result<(Config, Response), ContractError>)
    ensures
        match config {
            Err(e) => res == Err::<(Config, Response), ContractError>(ContractError::Std(e)),
            Ok(c) => if info.sender@ != c.admin@ {
                res matches Err(ContractError::Unauthorized { role }) && role@ == "admin"@
            } else if admin matches Some(Err(e)) {
                res == Err::<(Config, Response), ContractError>(ContractError::Std(admin->Some_0->Err_0))
            } else {
                res matches Ok((nc, r)) && nc == (Config {
                    admin: match admin {
                        Some(a) => a->Ok_0,
                        None => c.admin,
                    },
                    fee_rate_bps: fee_rate_bps.unwrap_or(c.fee_rate_bps),
                }) && r@.messages.len() == 0 && r@.attributes == seq![text_attr("action"@, "update_config"@)]
            },
        },
{
    let mut config = match config {
        Err(e) => return Err(ContractError::Std(e)),
        Ok(c) => c,
    };
    if info.sender != config.admin {
        return Err(ContractError::Unauthorized { role: "admin".to_owned() });
    }
    match admin {
        Some(Err(e)) => return Err(ContractError::Std(e)),
        Some(Ok(a)) => config.admin = a,
        None => {},
    }
    match fee_rate_bps {
        Some(v) => config.fee_rate_bps = v,
        None => {},
    }
    let response = Response { messages: Vec::new(), attributes: vec![text("action", "update_config")] };
    proof {
        assert(response@.attributes =~= seq![text_attr("action"@, "update_config"@)]);
    }
    Ok((config, response))
}

/// Admin whitelists an agent for rebalancing, or removes it. `agent` is the
/// validation of the agent's address. Returns the address, what is to be
/// stored under it (`Some(true)` to whitelist, `None` to remove the entry)
/// and the response.
pub fn execute_update_whitelist(
    config: Result<Config, StdFailure>,
    info: MessageInfo,
    agent: Result<String, StdFailure>,
    add: bool,
) -> (res: Result<(String, Option<bool>, Response), ContractError>)
    ensures
        match config {
            Err(e) => res == Err::<(String, Option<bool>, Response), ContractError>(ContractError::Std(e)),
            Ok(c) => if info.sender@ != c.admin@ {
                res matches Err(ContractError::Unauthorized { role }) && role@ == "admin"@
            } else {
                match agent {
                    Err(e) => res == Err::<(String, Option<bool>, Response), ContractError>(ContractError::Std(e)),
                    Ok(a) => res matches Ok((addr, entry, r)) && addr == a && entry == (if add {
                        Some(true)
                    } else {
                        None
                    }) && r@.messages.len() == 0 && r@.attributes == seq![
                        text_attr("action"@, "update_whitelist"@),
                        text_attr("agent"@, a@),
                        flag_attr("add"@, add),
                    ],
                }
            },
        },
{
    let config = match config {
        Err(e) => return Err(ContractError::Std(e)),
        Ok(c) => c,
    };
    if info.sender != config.admin {
        return Err(ContractError::Unauthorized { role: "admin".to_owned() });
    }
    let addr = match agent {
        Err(e) => return Err(ContractError::Std(e)),
        Ok(a) => a,
    };
    let entry = if add { Some(true) } else { None };
    let attributes = vec![
        text("action", "update_whitelist"),
        text_owned("agent", addr.clone()),
        flag("add", add),
    ];
    let response = Response { messages: Vec::new(), attributes };
    proof {
        assert(response@.attributes =~= seq![
            text_attr("action"@, "update_whitelist"@),
            text_attr("agent"@, addr@),
            flag_attr("add"@, add),
        ]);
    }
    Ok((addr, entry, response))
}

/// Admin activates or deactivates a vault. Reads the configuration, then the vault.
pub fn execute_set_vault_active(
    config: Result<Config, StdFailure>,
    vault: Result<Vault, StdFailure>,
    info: MessageInfo,
    vault_id: u64,
    active: bool,
) -> (res: Result<(Vault, Response), ContractError>)
    ensures
        match config {
            Err(e) => res == Err::<(Vault, Response), ContractError>(ContractError::Std(e)),
            Ok(c) => if info.sender@ != c.admin@ {
                res matches Err(ContractError::Unauthorized { role }) && role@ == "admin"@
            } else {
                match vault {
                    Err(e) => res == Err::<(Vault, Response), ContractError>(ContractError::Std(e)),
                    Ok(v) => res matches Ok((nv, r)) && nv == (Vault { is_active: active, ..v })
                        && r@.messages.len() == 0 && r@.attributes == seq![
                        text_attr("action"@, "set_vault_active"@),
                        num_attr("vault_id"@, vault_id as int),
                        flag_attr("active"@, active),
                    ],
                }
            },
        },
{
    let config = match config {
        Err(e) => return Err(ContractError::Std(e)),
        Ok(c) => c,
    };
    if info.sender != config.admin {
        return Err(ContractError::Unauthorized { role: "admin".to_owned() });
    }
    let mut vault = match vault {
        Err(e) => return Err(ContractError::Std(e)),
        Ok(v) => v,
    };
    vault.is_active = active;
    let attributes = vec![
        text("action", "set_vault_active"),
        number("vault_id", vault_id as u128),
        flag("active", active),
    ];
    let response = Response { messages: Vec::new(), attributes };
    proof {
        assert(response@.attributes =~= seq![
            text_attr("action"@, "set_vault_active"@),
            num_attr("vault_id"@, vault_id as int),
            flag_attr("active"@, active),
        ]);
    }
    Ok((vault, response))
}


// ── Laws ──────────────────────────────────────────────────────────

/// Burning at most the outstanding shares takes at most the vault's value.
pub proof fn lemma_withdrawal_within_value(share_amount: u128, total_shares: u128, total_value: u128)
    requires
        share_amount <= total_shares,
    ensures
        0 <= share_value(share_amount, total_shares, total_value) <= total_value,
{
    if total_shares != 0 {
        let s = share_amount as int;
        let t = total_shares as int;
        let v = total_value as int;
        assert(0 <= s * v / t <= v) by (nonlinear_arith)
            requires
                0 <= s <= t,
                t > 0,
                0 <= v,
        ;
    }
}

/// The performance history never holds more than 100 points after a
/// deposit or withdrawal, and its last point is the newest.
pub proof fn lemma_history_bounded(history: Seq<PerformancePoint>, point: PerformancePoint)
    ensures
        with_point(history, point).len() <= 100,
        with_point(history, point).last() == point,
{
}

/// A vault's outstanding shares stay the total of its holders' shares:
/// where they are the other holders' total `others` plus the depositor's
/// `held`, then after the depositor is minted `minted` shares, or burns
/// `burned` of its shares, they are `others` plus the depositor's new shares.
pub proof fn lemma_shares_stay_backed(others: int, held: u128, total_shares: u128, minted: int, burned: u128)
    requires
        others >= 0,
        minted >= 0,
        total_shares == others + held,
        burned <= held,
    ensures
        total_shares + minted == others + (held + minted),
        saturating_minus(total_shares, burned as int) == others + (held - burned),
{
}

} // verus!
