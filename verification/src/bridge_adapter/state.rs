//! Stored values of the bridge adapter.

use vstd::prelude::*;

verus! {

/// Bridge configuration. `fee_rate` is in basis points.
#[derive(Clone, Debug)]
pub struct BridgeConfig {
    pub admin: String,
    pub fee_rate: u64,
    pub min_transfer: u128,
}

/// Transfer status lifecycle: a transfer starts `Pending` and is settled
/// once, as `Completed` or `Failed`.
#[derive(PartialEq, Eq, Structural, Clone, Copy, Debug)]
pub enum TransferStatus {
    Pending,
    Completed,
    Failed,
}

/// The name under which a status is shown and filtered.
pub open spec fn status_label(s: TransferStatus) -> Seq<char> {
    match s {
        TransferStatus::Pending => "pending"@,
        TransferStatus::Completed => "completed"@,
        TransferStatus::Failed => "failed"@,
    }
}

/// The status a name stands for; any unknown name stands for `Pending`.
pub open spec fn parse_status(s: Seq<char>) -> TransferStatus {
    if s == "completed"@ {
        TransferStatus::Completed
    } else if s == "failed"@ {
        TransferStatus::Failed
    } else {
        TransferStatus::Pending
    }
}

impl TransferStatus {
    pub fn as_str(&self) -> (r: &'static str)
        ensures
            r@ == status_label(*self),
    {
        match self {
            TransferStatus::Pending => "pending",
            TransferStatus::Completed => "completed",
            TransferStatus::Failed => "failed",
        }
    }

    pub fn from_string(s: &str) -> (r: Self)
        ensures
            r == parse_status(s@),
    {
        let owned: String = s.to_owned();
        if crate::common::same_text(&owned, "completed") {
            TransferStatus::Completed
        } else if crate::common::same_text(&owned, "failed") {
            TransferStatus::Failed
        } else {
            TransferStatus::Pending
        }
    }
}

/// Reading back the name of a status gives the status.
pub proof fn lemma_status_label_round_trip(s: TransferStatus)
    ensures
        parse_status(status_label(s)) == s,
{
    reveal_strlit("pending");
    reveal_strlit("completed");
    reveal_strlit("failed");
    assert("pending"@.len() == 7);
    assert("completed"@.len() == 9);
    assert("failed"@.len() == 6);
}

/// A single cross-chain transfer record. Times are nanoseconds since the epoch.
#[derive(Clone, Debug)]
pub struct TransferRecord {
    pub id: u64,
    pub sender: String,
    pub recipient: String,
    pub asset: String,
    pub amount: u128,
    pub fee: u128,
    pub source_chain: String,
    pub dest_chain: String,
    pub status: TransferStatus,
    pub created_at: u64,
    pub completed_at: Option<u64>,
}

} // verus!
