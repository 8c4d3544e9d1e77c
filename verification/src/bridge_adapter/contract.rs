//! Handlers of the bridge adapter. Each takes the stored values it reads,
//! as the storage layer returned them, and gives back what is to be
//! stored and the response; nothing is stored when it returns an error.

use crate::bridge_adapter::error::ContractError;
use crate::bridge_adapter::msg::{ConfigResponse, InstantiateMsg, TransferResponse, TransfersResponse};
use crate::bridge_adapter::state::{
    status_label, BridgeConfig, TransferRecord, TransferStatus,
};
use crate::common::{
    amount_of, entries_from, keep_from, find_amount, multiply_ratio, num_attr, number, ratio, text, text_attr, text_owned,
    flag, flag_attr, same_text, BankSend, Coin, CoinView, MessageInfo, Response, StdFailure,
};
use vstd::prelude::*;

verus! {

// ── Instantiate ───────────────────────────────────────────────────

/// `admin` is the validation of `msg.admin` as an address.
pub fn instantiate(msg: InstantiateMsg, admin: Result<String, StdFailure>) -> (res: Result<
    (BridgeConfig, Response),
    ContractError,
>)
    ensures
        match admin {
            Err(e) => res == Err::<(BridgeConfig, Response), ContractError>(ContractError::Std(e)),
            Ok(a) => res matches Ok((c, r)) && c == (BridgeConfig {
                admin: a,
                fee_rate: msg.fee_rate,
                min_transfer: msg.min_transfer,
            }) && r@.messages.len() == 0 && r@.attributes == seq![
                text_attr("action"@, "instantiate"@),
                text_attr("admin"@, a@),
            ],
        },
{
    let a = match admin {
        Err(e) => return Err(ContractError::Std(e)),
        Ok(a) => a,
    };
    let config = BridgeConfig { admin: a.clone(), fee_rate: msg.fee_rate, min_transfer: msg.min_transfer };
    let attributes = vec![text("action", "instantiate"), text_owned("admin", a)];
    let response = Response { messages: Vec::new(), attributes };
    proof {
        assert(response@.attributes =~= seq![text_attr("action"@, "instantiate"@), text_attr("admin"@, config.admin@)]);
    }
    Ok((config, response))
}

// ── Initiate transfer ─────────────────────────────────────────────

/// What an accepted transfer stores: the new transfer count (which is the
/// new transfer's id), the record, and the sender's list of transfer ids.
#[derive(Clone, Debug)]
pub struct InitiatedTransfer {
    pub transfer_count: u64,
    pub record: TransferRecord,
    pub sender_transfers: Vec<u64>,
    pub response: Response,
}

/// The fee on `amount` at `fee_rate` basis points, rounded down.
pub open spec fn transfer_fee(amount: u128, fee_rate: u64) -> int {
    ratio(amount as int, fee_rate as int, 10_000)
}

/// The checks of `execute_initiate_transfer` that come before the fee is computed all pass.
pub open spec fn initiate_checks_pass(
    allowed: Result<Option<bool>, StdFailure>,
    config: Result<BridgeConfig, StdFailure>,
    info: MessageInfo,
    asset: String,
    amount: u128,
) -> bool {
    &&& allowed matches Ok(a) && a == Some(true)
    &&& config matches Ok(c) && amount >= c.min_transfer
    &&& amount_of(info.funds@, asset@) >= amount
}

/// Initiate a new cross-chain transfer of `amount` of `asset`, which must be
/// allowed, at least the minimum transfer, and attached to the message.
/// The arguments that come from storage are, in the order in which they are
/// read: the asset's allowed flag, the configuration, the transfer count and
/// the sender's list of transfer ids.
pub fn execute_initiate_transfer(
    allowed: Result<Option<bool>, StdFailure>,
    config: Result<BridgeConfig, StdFailure>,
    count: Result<Option<u64>, StdFailure>,
    sender_transfers: Result<Option<Vec<u64>>, StdFailure>,
    now: u64,
    info: MessageInfo,
    recipient: String,
    asset: String,
    amount: u128,
    source_chain: String,
    dest_chain: String,
) -> (res: Result<InitiatedTransfer, ContractError>)
    requires
        initiate_checks_pass(allowed, config, info, asset, amount) ==> {
            &&& transfer_fee(amount, config->Ok_0.fee_rate) <= u128::MAX
            &&& count matches Ok(n) ==> n.unwrap_or(0) < u64::MAX
        },
    ensures
        match allowed {
            Err(e) => res == Err::<InitiatedTransfer, ContractError>(ContractError::Std(e)),
            Ok(a) => if a != Some(true) {
                res matches Err(ContractError::AssetNotAllowed { asset: x }) && x == asset
            } else {
                match config {
                    Err(e) => res == Err::<InitiatedTransfer, ContractError>(ContractError::Std(e)),
                    Ok(c) => if amount < c.min_transfer {
                        res matches Err(ContractError::BelowMinimum {  })
                    } else if amount_of(info.funds@, asset@) < amount {
                        res matches Err(ContractError::InsufficientFunds {  })
                    } else {
                        match count {
                            Err(e) => res == Err::<InitiatedTransfer, ContractError>(ContractError::Std(e)),
                            Ok(n) => match sender_transfers {
                                Err(e) => res == Err::<InitiatedTransfer, ContractError>(ContractError::Std(e)),
                                Ok(ids) => res matches Ok(out) && {
                                    let id = (n.unwrap_or(0) + 1) as u64;
                                    &&& out.transfer_count == id
                                    &&& out.record == (TransferRecord {
                                        id,
                                        sender: info.sender,
                                        recipient,
                                        asset,
                                        amount,
                                        fee: transfer_fee(amount, c.fee_rate) as u128,
                                        source_chain,
                                        dest_chain,
                                        status: TransferStatus::Pending,
                                        created_at: now,
                                        completed_at: None,
                                    })
                                    &&& out.sender_transfers@ == match ids {
                                        Some(v) => v@,
                                        None => Seq::<u64>::empty(),
                                    }.push(id)
                                    &&& out.response@.messages.len() == 0
                                    &&& out.response@.attributes == seq![
                                        text_attr("action"@, "initiate_transfer"@),
                                        num_attr("transfer_id"@, id as int),
                                        text_attr("asset"@, asset@),
                                        num_attr("amount"@, amount as int),
                                        num_attr("fee"@, transfer_fee(amount, c.fee_rate)),
                                    ]
                                },
                            },
                        }
                    },
                }
            },
        },
{
    let is_allowed = match allowed {
        Err(e) => return Err(ContractError::Std(e)),
        Ok(a) => match a {
            Some(b) => b,
            None => false,
        },
    };
    if !is_allowed {
        return Err(ContractError::AssetNotAllowed { asset: asset.clone() });
    }
    let config = match config {
        Err(e) => return Err(ContractError::Std(e)),
        Ok(c) => c,
    };
    if amount < config.min_transfer {
        return Err(ContractError::BelowMinimum {  });
    }
    let payment = find_amount(&info.funds, &asset);
    if payment < amount {
        return Err(ContractError::InsufficientFunds {  });
    }
    let fee = multiply_ratio(amount, config.fee_rate as u128, 10_000);
    let previous = match count {
        Err(e) => return Err(ContractError::Std(e)),
        Ok(n) => match n {
            Some(v) => v,
            None => 0,
        },
    };
    let transfer_id = previous + 1;
    let mut ids = match sender_transfers {
        Err(e) => return Err(ContractError::Std(e)),
        Ok(v) => match v {
            Some(list) => list,
            None => Vec::new(),
        },
    };
    ids.push(transfer_id);
    let attributes = vec![
        text("action", "initiate_transfer"),
        number("transfer_id", transfer_id as u128),
        text_owned("asset", asset.clone()),
        number("amount", amount),
        number("fee", fee),
    ];
    let response = Response { messages: Vec::new(), attributes };
    let record = TransferRecord {
        id: transfer_id,
        sender: info.sender,
        recipient,
        asset,
        amount,
        fee,
        source_chain,
        dest_chain,
        status: TransferStatus::Pending,
        created_at: now,
        completed_at: None,
    };
    proof {
        assert(response@.attributes =~= seq![
            text_attr("action"@, "initiate_transfer"@),
            num_attr("transfer_id"@, transfer_id as int),
            text_attr("asset"@, record.asset@),
            num_attr("amount"@, amount as int),
            num_attr("fee"@, fee as int),
        ]);
    }
    Ok(InitiatedTransfer { transfer_count: transfer_id, record, sender_transfers: ids, response })
}

// ── Settlement ────────────────────────────────────────────────────

/// The outcome of settling `record` with `status` at time `now`, when the
/// sender is the admin and the record is still pending.
pub open spec fn settled(record: TransferRecord, status: TransferStatus, now: u64) -> TransferRecord {
    TransferRecord { status, completed_at: Some(now), ..record }
}

/// Complete a pending transfer. Admin only. Reads the configuration, then
/// the transfer record.
pub fn execute_complete_transfer(
    config: Result<BridgeConfig, StdFailure>,
    record: Result<TransferRecord, StdFailure>,
    now: u64,
    info: MessageInfo,
    transfer_id: u64,
) -> (res: Result<(TransferRecord, Response), ContractError>)
    ensures
        match config {
            Err(e) => res == Err::<(TransferRecord, Response), ContractError>(ContractError::Std(e)),
            Ok(c) => if info.sender@ != c.admin@ {
                res matches Err(ContractError::Unauthorized { role }) && role@ == "admin"@
            } else {
                match record {
                    Err(e) => res == Err::<(TransferRecord, Response), ContractError>(ContractError::Std(e)),
                    Ok(r) => if r.status != TransferStatus::Pending {
                        res matches Err(ContractError::TransferAlreadySettled {  })
                    } else {
                        res matches Ok((nr, resp)) && nr == settled(r, TransferStatus::Completed, now)
                            && resp@.messages.len() == 0 && resp@.attributes == seq![
                            text_attr("action"@, "complete_transfer"@),
                            num_attr("transfer_id"@, transfer_id as int),
                            text_attr("status"@, "completed"@),
                        ]
                    },
                }
            },
        },
{
    let config = match config {
        Err(e) => return Err(ContractError::Std(e)),
        Ok(c) => c,
    };
    if info.sender != config.admin {
        return Err(ContractError::Unauthorized { role: "admin".to_owned() });
    }
    let mut record = match record {
        Err(e) => return Err(ContractError::Std(e)),
        Ok(r) => r,
    };
    if record.status != TransferStatus::Pending {
        return Err(ContractError::TransferAlreadySettled {  });
    }
    record.status = TransferStatus::Completed;
    record.completed_at = Some(now);
    let attributes = vec![
        text("action", "complete_transfer"),
        number("transfer_id", transfer_id as u128),
        text("status", "completed"),
    ];
    let response = Response { messages: Vec::new(), attributes };
    proof {
        assert(response@.attributes =~= seq![
            text_attr("action"@, "complete_transfer"@),
            num_attr("transfer_id"@, transfer_id as int),
            text_attr("status"@, "completed"@),
        ]);
    }
    Ok((record, response))
}

/// Mark a pending transfer as failed and refund its sender the amount and
/// the fee, in the transfer's asset. Admin only. Reads the configuration,
/// then the transfer record.
pub fn execute_fail_transfer(
    config: Result<BridgeConfig, StdFailure>,
    record: Result<TransferRecord, StdFailure>,
    now: u64,
    info: MessageInfo,
    transfer_id: u64,
) -> (res: Result<(TransferRecord, Response), ContractError>)
    requires
        ({
            &&& config matches Ok(c)
            &&& info.sender@ == c.admin@
            &&& record matches Ok(r)
            &&& r.status == TransferStatus::Pending
        }) ==> record->Ok_0.amount + record->Ok_0.fee <= u128::MAX,
    ensures
        match config {
            Err(e) => res == Err::<(TransferRecord, Response), ContractError>(ContractError::Std(e)),
            Ok(c) => if info.sender@ != c.admin@ {
                res matches Err(ContractError::Unauthorized { role }) && role@ == "admin"@
            } else {
                match record {
                    Err(e) => res == Err::<(TransferRecord, Response), ContractError>(ContractError::Std(e)),
                    Ok(r) => if r.status != TransferStatus::Pending {
                        res matches Err(ContractError::TransferAlreadySettled {  })
                    } else {
                        res matches Ok((nr, resp)) && nr == settled(r, TransferStatus::Failed, now)
                            && resp@.messages == seq![crate::common::BankSendView {
                                to_address: r.sender@,
                                amount: seq![CoinView { denom: r.asset@, amount: (r.amount + r.fee) as u128 }],
                            }] && resp@.attributes == seq![
                            text_attr("action"@, "fail_transfer"@),
                            num_attr("transfer_id"@, transfer_id as int),
                            text_attr("status"@, "failed"@),
                            num_attr("refund"@, r.amount + r.fee),
                        ]
                    },
                }
            },
        },
{
    let config = match config {
        Err(e) => return Err(ContractError::Std(e)),
        Ok(c) => c,
    };
    if info.sender != config.admin {
        return Err(ContractError::Unauthorized { role: "admin".to_owned() });
    }
    let mut record = match record {
        Err(e) => return Err(ContractError::Std(e)),
        Ok(r) => r,
    };
    if record.status != TransferStatus::Pending {
        return Err(ContractError::TransferAlreadySettled {  });
    }
    record.status = TransferStatus::Failed;
    record.completed_at = Some(now);
    let refund = record.amount + record.fee;
    let refund_coin = Coin { denom: record.asset.clone(), amount: refund };
    let send = BankSend { to_address: record.sender.clone(), amount: vec![refund_coin] };
    let attributes = vec![
        text("action", "fail_transfer"),
        number("transfer_id", transfer_id as u128),
        text("status", "failed"),
        number("refund", refund),
    ];
    let response = Response { messages: vec![send], attributes };
    proof {
        assert(response@.messages[0].amount =~= seq![CoinView { denom: record.asset@, amount: refund }]);
        assert(response@.messages =~= seq![crate::common::BankSendView {
            to_address: record.sender@,
            amount: seq![CoinView { denom: record.asset@, amount: refund }],
        }]);
        assert(response@.attributes =~= seq![
            text_attr("action"@, "fail_transfer"@),
            num_attr("transfer_id"@, transfer_id as int),
            text_attr("status"@, "failed"@),
            num_attr("refund"@, refund as int),
        ]);
    }
    Ok((record, response))
}

// ── Configuration ─────────────────────────────────────────────────

/// Admin updates the configuration; each field given replaces the stored
/// one. `admin` is the validation of the new admin address, where one is given.
pub fn execute_update_config(
    config: Result<BridgeConfig, StdFailure>,
    info: MessageInfo,
    admin: Option<Result<String, StdFailure>>,
    fee_rate: Option<u64>,
    min_transfer: Option<u128>,
) -> (res: Result<(BridgeConfig, Response), ContractError>)
    ensures
        match config {
            Err(e) => res == Err::<(BridgeConfig, Response), ContractError>(ContractError::Std(e)),
            Ok(c) => if info.sender@ != c.admin@ {
                res matches Err(ContractError::Unauthorized { role }) && role@ == "admin"@
            } else if admin matches Some(Err(e)) {
                res == Err::<(BridgeConfig, Response), ContractError>(ContractError::Std(admin->Some_0->Err_0))
            } else {
                res matches Ok((nc, resp)) && nc == (BridgeConfig {
                    admin: match admin {
                        Some(a) => a->Ok_0,
                        None => c.admin,
                    },
                    fee_rate: fee_rate.unwrap_or(c.fee_rate),
                    min_transfer: min_transfer.unwrap_or(c.min_transfer),
                }) && resp@.messages.len() == 0 && resp@.attributes == seq![
                    text_attr("action"@, "update_config"@),
                ]
            },
        },
{
    let mut config = match config {
        Err(e) => return Err(ContractError::Std(e)),
        Ok(c) => c,
    };
    if info.sender != config.admin {
        return Err(ContractError::Unauthorized { role: "admin".to_owned() });
    }
    match admin {
        Some(Err(e)) => return Err(ContractError::Std(e)),
        Some(Ok(a)) => config.admin = a,
        None => {},
    }
    match fee_rate {
        Some(v) => config.fee_rate = v,
        None => {},
    }
    match min_transfer {
        Some(v) => config.min_transfer = v,
        None => {},
    }
    let response = Response { messages: Vec::new(), attributes: vec![text("action", "update_config")] };
    proof {
        assert(response@.attributes =~= seq![text_attr("action"@, "update_config"@)]);
    }
    Ok((config, response))
}

/// Admin adds `asset` to the allowed list, or removes it. The first value
/// returned is what is to be stored under the asset: `Some(true)` to store
/// it as allowed, `None` to remove its entry.
pub fn execute_set_allowed_asset(
    config: Result<BridgeConfig, StdFailure>,
    info: MessageInfo,
    asset: String,
    allowed: bool,
) -> (res: Result<(Option<bool>, Response), ContractError>)
    ensures
        match config {
            Err(e) => res == Err::<(Option<bool>, Response), ContractError>(ContractError::Std(e)),
            Ok(c) => if info.sender@ != c.admin@ {
                res matches Err(ContractError::Unauthorized { role }) && role@ == "admin"@
            } else {
                res matches Ok((entry, resp)) && entry == (if allowed { Some(true) } else { None })
                    && resp@.messages.len() == 0 && resp@.attributes == seq![
                    text_attr("action"@, "set_allowed_asset"@),
                    text_attr("asset"@, asset@),
                    flag_attr("allowed"@, allowed),
                ]
            },
        },
{
    let config = match config {
        Err(e) => return Err(ContractError::Std(e)),
        Ok(c) => c,
    };
    if info.sender != config.admin {
        return Err(ContractError::Unauthorized { role: "admin".to_owned() });
    }
    let entry = if allowed { Some(true) } else { None };
    let attributes = vec![
        text("action", "set_allowed_asset"),
        text_owned("asset", asset),
        flag("allowed", allowed),
    ];
    let response = Response { messages: Vec::new(), attributes };
    proof {
        assert(response@.attributes =~= seq![
            text_attr("action"@, "set_allowed_asset"@),
            text_attr("asset"@, asset@),
            flag_attr("allowed"@, allowed),
        ]);
    }
    Ok((entry, response))
}

// ── Queries ───────────────────────────────────────────────────────

/// `out` shows `r`, its status by name.
pub open spec fn shows_transfer(out: TransferResponse, r: TransferRecord) -> bool {
    &&& out.id == r.id
    &&& out.sender@ == r.sender@
    &&& out.recipient@ == r.recipient@
    &&& out.asset@ == r.asset@
    &&& out.amount == r.amount
    &&& out.fee == r.fee
    &&& out.source_chain@ == r.source_chain@
    &&& out.dest_chain@ == r.dest_chain@
    &&& out.status@ == status_label(r.status)
    &&& out.created_at == r.created_at
    &&& out.completed_at == r.completed_at
}

pub fn transfer_response(r: &TransferRecord) -> (out: TransferResponse)
    ensures
        shows_transfer(out, *r),
{
    let status: String = r.status.as_str().to_owned();
    TransferResponse {
        id: r.id,
        sender: r.sender.clone(),
        recipient: r.recipient.clone(),
        asset: r.asset.clone(),
        amount: r.amount,
        fee: r.fee,
        source_chain: r.source_chain.clone(),
        dest_chain: r.dest_chain.clone(),
        status,
        created_at: r.created_at,
        completed_at: r.completed_at,
    }
}

/// The transfer with the given id, as stored.
pub fn query_transfer(record: Result<TransferRecord, StdFailure>) -> (res: Result<TransferResponse, StdFailure>)
    ensures
        match record {
            Err(e) => res == Err::<TransferResponse, StdFailure>(e),
            Ok(r) => res matches Ok(out) && shows_transfer(out, r),
        },
{
    match record {
        Err(e) => Err(e),
        Ok(r) => Ok(transfer_response(&r)),
    }
}

/// `r` passes the optional sender and status filters of a listing.
pub open spec fn transfer_selected(r: TransferRecord, sender: Option<String>, status: Option<String>) -> bool {
    &&& sender matches Some(s) ==> r.sender@ == s@
    &&& status matches Some(t) ==> status_label(r.status) == t@
}

/// The records among the first `n` entries that pass the filters, at most
/// `limit` of them, in order; an entry that could not be read is `None`.
pub open spec fn selected_transfers(
    entries: Seq<Option<TransferRecord>>,
    n: int,
    sender: Option<String>,
    status: Option<String>,
    limit: int,
) -> Seq<TransferRecord>
    decreases n,
{
    if n <= 0 {
        Seq::empty()
    } else {
        let before = selected_transfers(entries, n - 1, sender, status, limit);
        match entries[n - 1] {
            Some(r) => if before.len() < limit && transfer_selected(r, sender, status) {
                before.push(r)
            } else {
                before
            },
            None => before,
        }
    }
}

/// The page size of a listing: the limit given, 30 by default.
pub open spec fn page_size(limit: Option<u32>) -> int {
    match limit {
        Some(l) => l as int,
        None => 30,
    }
}

/// List transfers, newest first. `stored` are the stored transfers with
/// their ids, in descending id order; of those whose id is at least
/// `start_after`, twice the page size is read, then filtered by sender and
/// status and cut to the page size.
pub fn query_list_transfers(
    stored: Vec<(u64, Option<TransferRecord>)>,
    start_after: Option<u64>,
    sender: Option<String>,
    status: Option<String>,
    limit: Option<u32>,
) -> (res: TransfersResponse)
    ensures
        ({
            let window = if 2 * page_size(limit) < entries_from(stored@, stored@.len() as int, start_after).len() { 2 * page_size(limit) } else { entries_from(stored@, stored@.len() as int, start_after).len() as int };
            let picked = selected_transfers(entries_from(stored@, stored@.len() as int, start_after), window, sender, status, page_size(limit));
            &&& res.transfers@.len() == picked.len()
            &&& forall|i: int| 0 <= i < picked.len() ==> shows_transfer(#[trigger] res.transfers@[i], picked[i])
        }),
{
    let entries = keep_from(stored, start_after);
    let page: u64 = match limit {
        Some(l) => l as u64,
        None => 30,
    };
    let window: usize = if 2 * page < entries.len() as u64 { (2 * page) as usize } else { entries.len() };
    let mut transfers: Vec<TransferResponse> = Vec::new();
    let ghost picked: Seq<TransferRecord> = Seq::empty();
    let mut i: usize = 0;
    while i < window
        invariant
            window <= entries.len(),
            0 <= i <= window,
            page as int == page_size(limit),
            picked == selected_transfers(entries@, i as int, sender, status, page as int),
            transfers@.len() == picked.len(),
            forall|j: int| 0 <= j < picked.len() ==> shows_transfer(#[trigger] transfers@[j], picked[j]),
        decreases window - i,
    {
        match &entries[i] {
            Some(r) => {
                let sender_ok = match &sender {
                    Some(s) => r.sender == *s,
                    None => true,
                };
                let status_ok = match &status {
                    Some(t) => crate::common::same_text(t, r.status.as_str()),
                    None => true,
                };
                if (transfers.len() as u64) < page && sender_ok && status_ok {
                    proof {
                        picked = picked.push(*r);
                    }
                    transfers.push(transfer_response(r));
                }
            },
            None => {},
        }
        i = i + 1;
    }
    TransfersResponse { transfers }
}

/// The names of the allowed assets among `entries`, in order.
pub open spec fn allowed_names(entries: Seq<(String, bool)>) -> Seq<Seq<char>>
    decreases entries.len(),
{
    if entries.len() == 0 {
        Seq::empty()
    } else {
        let before = allowed_names(entries.drop_last());
        if entries.last().1 {
            before.push(entries.last().0@)
        } else {
            before
        }
    }
}

/// The configuration with the allowed assets and the transfer count.
/// Reads the configuration, the transfer count, then the allowed-asset
/// entries (those that could be read, in ascending asset order).
pub fn query_config(
    config: Result<BridgeConfig, StdFailure>,
    count: Result<Option<u64>, StdFailure>,
    entries: Vec<(String, bool)>,
) -> (res: Result<ConfigResponse, StdFailure>)
    ensures
        match config {
            Err(e) => res == Err::<ConfigResponse, StdFailure>(e),
            Ok(c) => match count {
                Err(e) => res == Err::<ConfigResponse, StdFailure>(e),
                Ok(n) => res matches Ok(out) && {
                    &&& out.admin@ == c.admin@
                    &&& out.fee_rate == c.fee_rate
                    &&& out.min_transfer == c.min_transfer
                    &&& out.transfer_count == n.unwrap_or(0)
                    &&& out.allowed_assets@.map_values(|s: String| s@) == allowed_names(entries@)
                },
            },
        },
{
    let config = match config {
        Err(e) => return Err(e),
        Ok(c) => c,
    };
    let transfer_count = match count {
        Err(e) => return Err(e),
        Ok(n) => match n {
            Some(v) => v,
            None => 0,
        },
    };
    let mut allowed_assets: Vec<String> = Vec::new();
    let mut i: usize = 0;
    while i < entries.len()
        invariant
            i <= entries.len(),
            allowed_assets@.map_values(|s: String| s@) == allowed_names(entries@.take(i as int)),
        decreases entries.len() - i,
    {
        assert(entries@.take(i + 1).drop_last() =~= entries@.take(i as int));
        if entries[i].1 {
            allowed_assets.push(entries[i].0.clone());
        }
        assert(allowed_assets@.map_values(|s: String| s@) =~= allowed_names(entries@.take(i + 1)));
        i = i + 1;
    }
    assert(entries@.take(entries@.len() as int) =~= entries@);
    Ok(ConfigResponse {
        admin: config.admin,
        fee_rate: config.fee_rate,
        min_transfer: config.min_transfer,
        allowed_assets,
        transfer_count,
    })
}


// ── Laws ──────────────────────────────────────────────────────────

/// Settling a transfer is final: the settled record is no longer pending,
/// so completing or failing it again is refused (`TransferAlreadySettled`).
pub proof fn lemma_settlement_is_final(record: TransferRecord, status: TransferStatus, now: u64)
    requires
        status != TransferStatus::Pending,
    ensures
        settled(record, status, now).status != TransferStatus::Pending,
        settled(record, status, now).completed_at == Some(now),
        settled(record, status, now).amount == record.amount,
        settled(record, status, now).fee == record.fee,
{
}

/// While the fee rate is at most 10000 basis points, the fee is at most the amount.
pub proof fn lemma_fee_at_most_amount(amount: u128, fee_rate: u64)
    requires
        fee_rate <= 10_000,
    ensures
        0 <= transfer_fee(amount, fee_rate) <= amount,
{
    let a = amount as int;
    let r = fee_rate as int;
    assert(0 <= a * r / 10_000 <= a) by (nonlinear_arith)
        requires
            0 <= a,
            0 <= r <= 10_000,
    ;
}

} // verus!
