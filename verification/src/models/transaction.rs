//! A transaction that bids for inclusion in a slot.

use vstd::prelude::*;
use crate::models::types::InclusionType;
use crate::outside::{is_clock_reading, new_id, now_millis};

verus! {

/// Where a transaction stands.
#[derive(Debug, PartialEq, Eq)]
pub enum TransactionStatus {
    Pending,
    Included { slot: u64, execution_time: i64 },
    Failed { reason: String },
    AuctionWon { slot: u64, winning_bid: u64 },
}

impl Clone for TransactionStatus {
    fn clone(&self) -> (r: Self)
        ensures
            r == *self,
    {
        match self {
            TransactionStatus::Pending => TransactionStatus::Pending,
            TransactionStatus::Included { slot, execution_time } => TransactionStatus::Included {
                slot: *slot,
                execution_time: *execution_time,
            },
            TransactionStatus::Failed { reason } => TransactionStatus::Failed {
                reason: reason.clone(),
            },
            TransactionStatus::AuctionWon { slot, winning_bid } => TransactionStatus::AuctionWon {
                slot: *slot,
                winning_bid: *winning_bid,
            },
        }
    }
}

/// A request to run `data` in a slot, with the amount bid for it.
#[derive(Debug, PartialEq, Eq)]
pub struct Transaction {
    pub id: String,
    pub sender: String,
    pub inclusion_type: InclusionType,
    pub status: TransactionStatus,
    pub compute_units: u64,
    pub priority_fee: u64,
    pub data: String,
    pub created_at: i64,
    pub included_at: Option<i64>,
}

impl Clone for Transaction {
    fn clone(&self) -> (r: Self)
        ensures
            r == *self,
    {
        Transaction {
            id: self.id.clone(),
            sender: self.sender.clone(),
            inclusion_type: self.inclusion_type,
            status: self.status.clone(),
            compute_units: self.compute_units,
            priority_fee: self.priority_fee,
            data: self.data.clone(),
            created_at: self.created_at,
            included_at: self.included_at,
        }
    }
}

impl Transaction {
    /// A pending transaction as it is created at `now` under the name `id`.
    pub open spec fn pending(
        id: String,
        sender: String,
        inclusion_type: InclusionType,
        compute_units: u64,
        bid_amount: u64,
        data: String,
        now: i64,
    ) -> Transaction {
        Transaction {
            id,
            sender,
            inclusion_type,
            status: TransactionStatus::Pending,
            compute_units,
            priority_fee: bid_amount,
            data,
            created_at: now,
            included_at: None,
        }
    }

    /// A pending transaction for the next slot, named `id`, created at `now`.
    pub fn jit_with(
        id: String,
        sender: String,
        compute_units: u64,
        bid_amount: u64,
        data: String,
        now: i64,
    ) -> (transaction: Self)
        ensures
            transaction == Self::pending(
                id,
                sender,
                InclusionType::Jit,
                compute_units,
                bid_amount,
                data,
                now,
            ),
    {
        Transaction {
            id,
            sender,
            inclusion_type: InclusionType::Jit,
            status: TransactionStatus::Pending,
            compute_units,
            priority_fee: bid_amount,
            data,
            created_at: now,
            included_at: None,
        }
    }

    /// A pending transaction for the next slot, with a new identifier,
    /// created now.
    pub fn jit(sender: String, compute_units: u64, bid_amount: u64, data: String) -> (transaction:
        Self)
        ensures
            exists|id: String, now: i64|
                id@.len() == 36 && is_clock_reading(now) && transaction == #[trigger] Self::pending(
                    id,
                    sender,
                    InclusionType::Jit,
                    compute_units,
                    bid_amount,
                    data,
                    now,
                ),
    {
        let id = new_id();
        let now = now_millis();
        Self::jit_with(id, sender, compute_units, bid_amount, data, now)
    }

    /// A pending transaction for a reserved slot, named `id`, created at
    /// `now`.
    pub fn aot_with(
        id: String,
        sender: String,
        compute_units: u64,
        bid_amount: u64,
        reserved_slot: u64,
        data: String,
        now: i64,
    ) -> (transaction: Self)
        ensures
            transaction == Self::pending(
                id,
                sender,
                InclusionType::Aot { reserved_slot },
                compute_units,
                bid_amount,
                data,
                now,
            ),
    {
        Transaction {
            id,
            sender,
            inclusion_type: InclusionType::Aot { reserved_slot },
            status: TransactionStatus::Pending,
            compute_units,
            priority_fee: bid_amount,
            data,
            created_at: now,
            included_at: None,
        }
    }

    /// A pending transaction for a reserved slot, with a new identifier,
    /// created now.
    pub fn aot(
        sender: String,
        compute_units: u64,
        bid_amount: u64,
        reserved_slot: u64,
        data: String,
    ) -> (transaction: Self)
        ensures
            exists|id: String, now: i64|
                id@.len() == 36 && is_clock_reading(now) && transaction == #[trigger] Self::pending(
                    id,
                    sender,
                    InclusionType::Aot { reserved_slot },
                    compute_units,
                    bid_amount,
                    data,
                    now,
                ),
    {
        let id = new_id();
        let now = now_millis();
        Self::aot_with(id, sender, compute_units, bid_amount, reserved_slot, data, now)
    }

    /// Whether the transaction waits for its auction.
    pub fn is_pending(&self) -> (pending: bool)
        ensures
            pending == (self.status is Pending),
    {
        match self.status {
            TransactionStatus::Pending => true,
            _ => false,
        }
    }

    /// Records that the transaction ran in `slot` at `now`.
    pub fn mark_included_at(&mut self, slot: u64, now: i64)
        ensures
            *final(self) == (Transaction {
                status: TransactionStatus::Included { slot, execution_time: now },
                included_at: Some(now),
                ..*old(self)
            }),
    {
        self.status = TransactionStatus::Included { slot, execution_time: now };
        self.included_at = Some(now);
    }

    /// Records that the transaction ran in `slot` now.
    pub fn mark_included(&mut self, slot: u64)
        ensures
            exists|now: i64|
                #![trigger is_clock_reading(now)]
                is_clock_reading(now) && *final(self) == (Transaction {
                    status: TransactionStatus::Included { slot, execution_time: now },
                    included_at: Some(now),
                    ..*old(self)
                }),
    {
        let now = now_millis();
        self.mark_included_at(slot, now)
    }

    /// Records that the transaction failed, and why.
    pub fn mark_failed(&mut self, reason: String)
        ensures
            *final(self) == (Transaction {
                status: TransactionStatus::Failed { reason },
                ..*old(self)
            }),
    {
        self.status = TransactionStatus::Failed { reason };
    }

    /// Records that the transaction won the auction for `slot`.
    pub fn mark_auction_won(&mut self, slot: u64, winning_bid: u64)
        ensures
            *final(self) == (Transaction {
                status: TransactionStatus::AuctionWon { slot, winning_bid },
                ..*old(self)
            }),
    {
        self.status = TransactionStatus::AuctionWon { slot, winning_bid };
    }
}

} // verus!
