//! Queries of the vault manager.

use crate::common::{entries_after, entries_from, keep_after, keep_from, Coin, StdFailure};
use crate::vault_manager::msg::{
    DepositResponse, DepositsResponse, PerformancePoint, RebalanceEventResponse, RebalanceHistoryResponse,
    VaultPositionsResponse, VaultResponse, VaultsResponse,
};
use crate::vault_manager::assets::copy_coin;
use crate::vault_manager::state::{RebalanceEvent, Vault, VaultDeposit};
use vstd::prelude::*;

verus! {

/// `out` shows the vault `v`.
pub open spec fn shows_vault(out: VaultResponse, v: Vault) -> bool {
    &&& out.id == v.id
    &&& out.name@ == v.name@
    &&& out.strategy_type@ == v.strategy_type@
    &&& out.owner@ == v.owner@
    &&& out.assets@ == v.assets@
    &&& out.total_value == v.total_value
    &&& out.total_shares == v.total_shares
    &&& out.performance_history@.len() == v.performance_history@.len()
    &&& forall|i: int|
        0 <= i < v.performance_history@.len() ==> (#[trigger] out.performance_history@[i]).timestamp
            == v.performance_history@[i].timestamp && out.performance_history@[i].value
            == v.performance_history@[i].value
    &&& out.risk_score == v.risk_score
    &&& out.agent_count == v.agent_count
    &&& out.is_active == v.is_active
    &&& out.created_at == v.created_at
}

fn copy_coins(coins: &Vec<Coin>) -> (r: Vec<Coin>)
    ensures
        r@ == coins@,
{
    let mut r: Vec<Coin> = Vec::new();
    let mut i: usize = 0;
    while i < coins.len()
        invariant
            i <= coins.len(),
            r@ == coins@.take(i as int),
        decreases coins.len() - i,
    {
        r.push(copy_coin(&coins[i]));
        assert(r@ =~= coins@.take(i + 1));
        i = i + 1;
    }
    assert(coins@.take(coins@.len() as int) =~= coins@);
    r
}

pub fn vault_response(v: &Vault) -> (out: VaultResponse)
    ensures
        shows_vault(out, *v),
{
    let mut history: Vec<PerformancePoint> = Vec::new();
    let mut i: usize = 0;
    while i < v.performance_history.len()
        invariant
            i <= v.performance_history@.len(),
            history@.len() == i,
            forall|k: int|
                0 <= k < i ==> (#[trigger] history@[k]).timestamp == v.performance_history@[k].timestamp
                    && history@[k].value == v.performance_history@[k].value,
        decreases v.performance_history.len() - i,
    {
        let p = v.performance_history[i];
        history.push(PerformancePoint { timestamp: p.timestamp, value: p.value });
        i = i + 1;
    }
    VaultResponse {
        id: v.id,
        name: v.name.clone(),
        strategy_type: v.strategy_type.clone(),
        owner: v.owner.clone(),
        assets: copy_coins(&v.assets),
        total_value: v.total_value,
        total_shares: v.total_shares,
        performance_history: history,
        risk_score: v.risk_score,
        agent_count: v.agent_count,
        is_active: v.is_active,
        created_at: v.created_at,
    }
}

/// The vault stored under an id.
pub fn query_vault(vault: Result<Vault, StdFailure>) -> (res: Result<VaultResponse, StdFailure>)
    ensures
        match vault {
            Err(e) => res == Err::<VaultResponse, StdFailure>(e),
            Ok(v) => res matches Ok(out) && shows_vault(out, v),
        },
{
    match vault {
        Err(e) => Err(e),
        Ok(v) => Ok(vault_response(&v)),
    }
}

/// The vaults among the first `n` entries that could be read, in order.
pub open spec fn readable_vaults(entries: Seq<Option<Vault>>, n: int) -> Seq<Vault>
    decreases n,
{
    if n <= 0 {
        Seq::empty()
    } else {
        let before = readable_vaults(entries, n - 1);
        match entries[n - 1] {
            Some(v) => before.push(v),
            None => before,
        }
    }
}

/// List vaults in ascending id order. `stored` are the stored vaults with
/// their ids, in ascending id order; of those whose id comes after
/// `start_after`, the first page-size entries (30 by default) are read and
/// those that could be read are shown.
pub fn query_list_vaults(stored: Vec<(u64, Option<Vault>)>,
    start_after: Option<u64>, limit: Option<u32>) -> (res: VaultsResponse)
    ensures
        ({
            let page = match limit {
                Some(l) => l as int,
                None => 30,
            };
            let shown = readable_vaults(entries_after(stored@, stored@.len() as int, start_after), if page < entries_after(stored@, stored@.len() as int, start_after).len() { page } else { entries_after(stored@, stored@.len() as int, start_after).len() as int });
            &&& res.vaults@.len() == shown.len()
            &&& forall|i: int| 0 <= i < shown.len() ==> shows_vault(#[trigger] res.vaults@[i], shown[i])
        }),
{
    let entries = keep_after(stored, start_after);
    let page: u64 = match limit {
        Some(l) => l as u64,
        None => 30,
    };
    let end: usize = if page < entries.len() as u64 { page as usize } else { entries.len() };
    let mut vaults: Vec<VaultResponse> = Vec::new();
    let mut i: usize = 0;
    while i < end
        invariant
            end <= entries.len(),
            i <= end,
            vaults@.len() == readable_vaults(entries@, i as int).len(),
            forall|j: int| 0 <= j < vaults@.len() ==> shows_vault(#[trigger] vaults@[j], readable_vaults(entries@, i as int)[j]),
        decreases end - i,
    {
        match &entries[i] {
            Some(v) => vaults.push(vault_response(v)),
            None => {},
        }
        i = i + 1;
    }
    VaultsResponse { vaults }
}

/// The assets of a vault.
pub fn query_vault_positions(vault: Result<Vault, StdFailure>, vault_id: u64) -> (res: Result<
    VaultPositionsResponse,
    StdFailure,
>)
    ensures
        match vault {
            Err(e) => res == Err::<VaultPositionsResponse, StdFailure>(e),
            Ok(v) => res matches Ok(out) && out.vault_id == vault_id && out.assets == v.assets,
        },
{
    match vault {
        Err(e) => Err(e),
        Ok(v) => Ok(VaultPositionsResponse { vault_id, assets: v.assets }),
    }
}

/// The index of the first vault id above `start`, or the length if none.
pub open spec fn first_above(ids: Seq<u64>, start: u64) -> int
    decreases ids.len(),
{
    if ids.len() == 0 {
        0
    } else if ids[0] > start {
        0
    } else {
        first_above(ids.drop_first(), start) + 1
    }
}

proof fn lemma_first_above(ids: Seq<u64>, start: u64)
    ensures
        0 <= first_above(ids, start) <= ids.len(),
        forall|k: int| 0 <= k < first_above(ids, start) ==> #[trigger] ids[k] <= start,
        first_above(ids, start) < ids.len() ==> ids[first_above(ids, start)] > start,
    decreases ids.len(),
{
    if ids.len() > 0 && ids[0] <= start {
        lemma_first_above(ids.drop_first(), start);
        assert forall|k: int| 1 <= k < ids.len() implies ids[k] == ids.drop_first()[k - 1] by {}
    }
}

/// The deposits among entries `from .. n` that exist, in order, at most `limit`.
pub open spec fn listed_deposits(deposits: Seq<Option<VaultDeposit>>, from: int, n: int, limit: int) -> Seq<
    VaultDeposit,
>
    decreases n - from,
{
    if n <= from {
        Seq::empty()
    } else {
        let before = listed_deposits(deposits, from, n - 1, limit);
        match deposits[n - 1] {
            Some(d) => if before.len() < limit {
                before.push(d)
            } else {
                before
            },
            None => before,
        }
    }
}

pub open spec fn shows_deposit(out: DepositResponse, d: VaultDeposit) -> bool {
    &&& out.depositor@ == d.depositor@
    &&& out.vault_id == d.vault_id
    &&& out.amount == d.amount
    &&& out.deposited_at == d.deposited_at
    &&& out.shares == d.shares
}

/// A user's deposits, in the order of the user's list of vaults. The
/// leading vault ids up to `start_after` (0 by default) are skipped; then
/// the deposit records that exist are listed, at most `limit` (30 by
/// default). `deposits[i]` is the user's deposit record in vault
/// `user_vaults[i]`, `None` where there is none or it could not be read.
pub fn query_user_deposits(
    user_vaults: Vec<u64>,
    deposits: Vec<Option<VaultDeposit>>,
    start_after: Option<u64>,
    limit: Option<u32>,
) -> (res: DepositsResponse)
    requires
        deposits@.len() == user_vaults@.len(),
    ensures
        ({
            let start = match start_after {
                Some(s) => s,
                None => 0,
            };
            let page = match limit {
                Some(l) => l as int,
                None => 30,
            };
            let listed = listed_deposits(deposits@, first_above(user_vaults@, start), deposits@.len() as int, page);
            &&& res.deposits@.len() == listed.len()
            &&& forall|i: int| 0 <= i < listed.len() ==> shows_deposit(#[trigger] res.deposits@[i], listed[i])
        }),
{
    let start: u64 = match start_after {
        Some(s) => s,
        None => 0,
    };
    let page: u64 = match limit {
        Some(l) => l as u64,
        None => 30,
    };
    proof {
        lemma_first_above(user_vaults@, start);
    }
    let mut from: usize = 0;
    while from < user_vaults.len() && user_vaults[from] <= start
        invariant
            from <= user_vaults.len(),
            from <= first_above(user_vaults@, start),
            0 <= first_above(user_vaults@, start) <= user_vaults@.len(),
            forall|k: int| 0 <= k < first_above(user_vaults@, start) ==> #[trigger] user_vaults@[k] <= start,
            first_above(user_vaults@, start) < user_vaults@.len() ==> user_vaults@[first_above(user_vaults@, start)]
                > start,
        decreases user_vaults.len() - from,
    {
        from = from + 1;
    }
    let ghost f = from as int;
    assert(f == first_above(user_vaults@, start));
    let mut out: Vec<DepositResponse> = Vec::new();
    let mut i: usize = from;
    while i < deposits.len()
        invariant
            f <= i <= deposits.len(),
            out@.len() == listed_deposits(deposits@, f, i as int, page as int).len(),
            forall|j: int|
                0 <= j < out@.len() ==> shows_deposit(#[trigger] out@[j], listed_deposits(deposits@, f, i as int, page as int)[j]),
        decreases deposits.len() - i,
    {
        match &deposits[i] {
            Some(d) => {
                if (out.len() as u64) < page {
                    out.push(
                        DepositResponse {
                            depositor: d.depositor.clone(),
                            vault_id: d.vault_id,
                            amount: d.amount,
                            deposited_at: d.deposited_at,
                            shares: d.shares,
                        },
                    );
                }
            },
            None => {},
        }
        i = i + 1;
    }
    DepositsResponse { deposits: out }
}

/// The events of `vault_id` among the first `n` entries that could be read,
/// in order, at most `limit`.
pub open spec fn vault_events(entries: Seq<Option<RebalanceEvent>>, n: int, vault_id: u64, limit: int) -> Seq<
    RebalanceEvent,
>
    decreases n,
{
    if n <= 0 {
        Seq::empty()
    } else {
        let before = vault_events(entries, n - 1, vault_id, limit);
        match entries[n - 1] {
            Some(e) => if e.vault_id == vault_id && before.len() < limit {
                before.push(e)
            } else {
                before
            },
            None => before,
        }
    }
}

pub open spec fn shows_event(out: RebalanceEventResponse, e: RebalanceEvent) -> bool {
    &&& out.vault_id == e.vault_id
    &&& out.from_asset@ == e.from_asset@
    &&& out.to_asset@ == e.to_asset@
    &&& out.amount == e.amount
    &&& out.triggered_by@ == e.triggered_by@
    &&& out.reason@ == e.reason@
    &&& out.executed_at == e.executed_at
}

/// A vault's rebalance history, newest first. `stored` are the stored
/// rebalance events (of all vaults) with their ids, in descending id order;
/// of those whose id is at least `start_after`, twice the page size (30 by
/// default) is read, then the vault's events are kept, at most the page size.
pub fn query_rebalance_history(stored: Vec<(u64, Option<RebalanceEvent>)>,
    start_after: Option<u64>, vault_id: u64, limit: Option<u32>) -> (res:
    RebalanceHistoryResponse)
    ensures
        ({
            let page = match limit {
                Some(l) => l as int,
                None => 30,
            };
            let window = if 2 * page < entries_from(stored@, stored@.len() as int, start_after).len() { 2 * page } else { entries_from(stored@, stored@.len() as int, start_after).len() as int };
            let shown = vault_events(entries_from(stored@, stored@.len() as int, start_after), window, vault_id, page);
            &&& res.events@.len() == shown.len()
            &&& forall|i: int| 0 <= i < shown.len() ==> shows_event(#[trigger] res.events@[i], shown[i])
        }),
{
    let entries = keep_from(stored, start_after);
    let page: u64 = match limit {
        Some(l) => l as u64,
        None => 30,
    };
    let end: usize = if 2 * page < entries.len() as u64 { (2 * page) as usize } else { entries.len() };
    let mut events: Vec<RebalanceEventResponse> = Vec::new();
    let mut i: usize = 0;
    while i < end
        invariant
            end <= entries.len(),
            i <= end,
            events@.len() == vault_events(entries@, i as int, vault_id, page as int).len(),
            forall|j: int|
                0 <= j < events@.len() ==> shows_event(#[trigger] events@[j], vault_events(entries@, i as int, vault_id, page as int)[j]),
        decreases end - i,
    {
        match &entries[i] {
            Some(e) => {
                if e.vault_id == vault_id && (events.len() as u64) < page {
                    events.push(
                        RebalanceEventResponse {
                            vault_id: e.vault_id,
                            from_asset: e.from_asset.clone(),
                            to_asset: e.to_asset.clone(),
                            amount: e.amount,
                            triggered_by: e.triggered_by.clone(),
                            reason: e.reason.clone(),
                            executed_at: e.executed_at,
                        },
                    );
                }
            },
            None => {},
        }
        i = i + 1;
    }
    RebalanceHistoryResponse { events }
}

} // verus!
