//! A slot and the states it passes through.

use vstd::prelude::*;
use crate::models::types::TransactionType;
use crate::outside::{is_clock_reading, now_millis};
use crate::MAX_COMPUTE_UNITS_PER_SLOT;

verus! {

/// Where a slot stands. The variants exclude each other.
#[derive(Debug, PartialEq, Eq)]
pub enum SlotState {
    Available,
    JitAuction { current_bid: u64, bidder: String },
    AotAuction { highest_bid: u64, highest_bidder: String, bids: Vec<(String, u64)>, ends_at: i64 },
    Reserved { winner: String, winning_bid: u64, transaction_type: TransactionType },
    Filled { winner: String, transaction_id: String, execution_time: i64 },
    Expired,
}

/// What a [`SlotState`] holds, with the bids as a sequence.
pub ghost enum SlotStateView {
    Available,
    JitAuction { current_bid: u64, bidder: String },
    AotAuction { highest_bid: u64, highest_bidder: String, bids: Seq<(String, u64)>, ends_at: i64 },
    Reserved { winner: String, winning_bid: u64, transaction_type: TransactionType },
    Filled { winner: String, transaction_id: String, execution_time: i64 },
    Expired,
}

impl View for SlotState {
    type V = SlotStateView;

    open spec fn view(&self) -> SlotStateView {
        match *self {
            SlotState::Available => SlotStateView::Available,
            SlotState::JitAuction { current_bid, bidder } => SlotStateView::JitAuction {
                current_bid,
                bidder,
            },
            SlotState::AotAuction {
                highest_bid,
                highest_bidder,
                bids,
                ends_at,
            } => SlotStateView::AotAuction { highest_bid, highest_bidder, bids: bids@, ends_at },
            SlotState::Reserved {
                winner,
                winning_bid,
                transaction_type,
            } => SlotStateView::Reserved { winner, winning_bid, transaction_type },
            SlotState::Filled {
                winner,
                transaction_id,
                execution_time,
            } => SlotStateView::Filled { winner, transaction_id, execution_time },
            SlotState::Expired => SlotStateView::Expired,
        }
    }
}

impl SlotStateView {
    /// Whether an auction is in progress on the slot.
    pub open spec fn in_auction(self) -> bool {
        self is JitAuction || self is AotAuction
    }

    /// The stage of the life of a sold slot that the state belongs to:
    /// 0 available, 1 in auction, 2 reserved, 3 filled. An expired slot has
    /// left that life and has no stage.
    pub open spec fn stage(self) -> Option<nat> {
        match self {
            SlotStateView::Available => Some(0nat),
            SlotStateView::JitAuction { .. } => Some(1nat),
            SlotStateView::AotAuction { .. } => Some(1nat),
            SlotStateView::Reserved { .. } => Some(2nat),
            SlotStateView::Filled { .. } => Some(3nat),
            SlotStateView::Expired => None,
        }
    }

    /// The state once the estimated time has passed: expired, unless the slot
    /// is filled.
    pub open spec fn lapsed(self) -> SlotStateView {
        if self is Filled {
            self
        } else {
            SlotStateView::Expired
        }
    }
}

impl Clone for SlotState {
    fn clone(&self) -> (r: Self)
        ensures
            r@ == self@,
    {
        match self {
            SlotState::Available => SlotState::Available,
            SlotState::JitAuction { current_bid, bidder } => SlotState::JitAuction {
                current_bid: *current_bid,
                bidder: bidder.clone(),
            },
            SlotState::AotAuction { highest_bid, highest_bidder, bids, ends_at } => {
                let mut copy: Vec<(String, u64)> = Vec::new();
                let mut i: usize = 0;
                while i < bids.len()
                    invariant
                        i <= bids.len(),
                        copy@ == bids@.take(i as int),
                    decreases bids.len() - i,
                {
                    let entry = &bids[i];
                    copy.push((entry.0.clone(), entry.1));
                    assert(bids@.take(i + 1) == bids@.take(i as int).push(bids@[i as int]));
                    i += 1;
                }
                assert(bids@.take(i as int) == bids@);
                SlotState::AotAuction {
                    highest_bid: *highest_bid,
                    highest_bidder: highest_bidder.clone(),
                    bids: copy,
                    ends_at: *ends_at,
                }
            },
            SlotState::Reserved { winner, winning_bid, transaction_type } => SlotState::Reserved {
                winner: winner.clone(),
                winning_bid: *winning_bid,
                transaction_type: *transaction_type,
            },
            SlotState::Filled { winner, transaction_id, execution_time } => SlotState::Filled {
                winner: winner.clone(),
                transaction_id: transaction_id.clone(),
                execution_time: *execution_time,
            },
            SlotState::Expired => SlotState::Expired,
        }
    }
}

/// One unit of capacity with its number, its state and its reference price.
#[derive(Debug, PartialEq, Eq)]
pub struct Slot {
    pub slot_number: u64,
    pub state: SlotState,
    pub estimated_time: i64,
    pub base_fee: u64,
    pub compute_units_available: u64,
    pub compute_units_used: u64,
    pub created_at: i64,
}

/// What a [`Slot`] holds, with the state by its view.
pub ghost struct SlotView {
    pub slot_number: u64,
    pub state: SlotStateView,
    pub estimated_time: i64,
    pub base_fee: u64,
    pub compute_units_available: u64,
    pub compute_units_used: u64,
    pub created_at: i64,
}

impl View for Slot {
    type V = SlotView;

    open spec fn view(&self) -> SlotView {
        SlotView {
            slot_number: self.slot_number,
            state: self.state@,
            estimated_time: self.estimated_time,
            base_fee: self.base_fee,
            compute_units_available: self.compute_units_available,
            compute_units_used: self.compute_units_used,
            created_at: self.created_at,
        }
    }
}

impl SlotView {
    /// A slot as it is created at `now`: available, with nothing used.
    pub open spec fn fresh(slot_number: u64, estimated_time: i64, base_fee: u64, now: i64) -> SlotView {
        SlotView {
            slot_number,
            state: SlotStateView::Available,
            estimated_time,
            base_fee,
            compute_units_available: MAX_COMPUTE_UNITS_PER_SLOT,
            compute_units_used: 0,
            created_at: now,
        }
    }

    /// Whether the estimated time lies before `now`.
    pub open spec fn stale_at(self, now: i64) -> bool {
        self.estimated_time < now
    }

    /// The slot as a tick at `now` leaves it: expired if its time has passed
    /// and it is not filled, else unchanged.
    pub open spec fn aged(self, now: i64) -> SlotView {
        if self.stale_at(now) {
            SlotView { state: self.state.lapsed(), ..self }
        } else {
            self
        }
    }

    /// The slot with the leading JIT bid shown on it.
    pub open spec fn showing_jit_bid(self, bidder: String, amount: u64) -> SlotView {
        SlotView { state: SlotStateView::JitAuction { current_bid: amount, bidder }, ..self }
    }

    /// The slot with the standing of its AOT auction shown on it: the
    /// highest bid and its bidder, the bids of the auction in the order they
    /// were placed, and the deadline.
    pub open spec fn showing_aot_bid(
        self,
        bidder: String,
        amount: u64,
        bids: Seq<(String, u64)>,
        ends_at: i64,
    ) -> SlotView {
        SlotView {
            state: SlotStateView::AotAuction {
                highest_bid: amount,
                highest_bidder: bidder,
                bids,
                ends_at,
            },
            ..self
        }
    }

    /// The slot once it is reserved for the winner of its auction.
    pub open spec fn reserved(
        self,
        winner: String,
        winning_bid: u64,
        transaction_type: TransactionType,
    ) -> SlotView {
        SlotView { state: SlotStateView::Reserved { winner, winning_bid, transaction_type }, ..self }
    }

    /// The slot once the winner's transaction has run in it at `now`.
    pub open spec fn filled(
        self,
        winner: String,
        transaction_id: String,
        compute_units_used: u64,
        now: i64,
    ) -> SlotView {
        SlotView {
            state: SlotStateView::Filled { winner, transaction_id, execution_time: now },
            compute_units_used: (self.compute_units_used + compute_units_used) as u64,
            ..self
        }
    }
}

impl Clone for Slot {
    fn clone(&self) -> (r: Self)
        ensures
            r@ == self@,
    {
        Slot {
            slot_number: self.slot_number,
            state: self.state.clone(),
            estimated_time: self.estimated_time,
            base_fee: self.base_fee,
            compute_units_available: self.compute_units_available,
            compute_units_used: self.compute_units_used,
            created_at: self.created_at,
        }
    }
}

impl Slot {
    /// Creates an available slot at the time `now`.
    pub fn new_at(slot_number: u64, estimated_time: i64, base_fee: u64, now: i64) -> (slot: Self)
        ensures
            slot@ == SlotView::fresh(slot_number, estimated_time, base_fee, now),
    {
        Slot {
            slot_number,
            state: SlotState::Available,
            estimated_time,
            base_fee,
            compute_units_available: MAX_COMPUTE_UNITS_PER_SLOT,
            compute_units_used: 0,
            created_at: now,
        }
    }

    /// Creates an available slot now.
    pub fn new(slot_number: u64, estimated_time: i64, base_fee: u64) -> (slot: Self)
        ensures
            exists|now: i64|
                is_clock_reading(now) && slot@ == #[trigger] SlotView::fresh(
                    slot_number,
                    estimated_time,
                    base_fee,
                    now,
                ),
    {
        let now = now_millis();
        Self::new_at(slot_number, estimated_time, base_fee, now)
    }

    /// Whether the slot is available.
    pub fn is_available(&self) -> (available: bool)
        ensures
            available == (self@.state is Available),
    {
        match self.state {
            SlotState::Available => true,
            _ => false,
        }
    }

    /// Whether the estimated time lies before `now`.
    pub fn is_expired_at(&self, now: i64) -> (stale: bool)
        ensures
            stale == self@.stale_at(now),
    {
        self.estimated_time < now
    }

    /// Whether the estimated time has passed.
    pub fn is_expired(&self) -> (stale: bool)
        ensures
            exists|now: i64| is_clock_reading(now) && stale == #[trigger] self@.stale_at(now),
    {
        let now = now_millis();
        self.is_expired_at(now)
    }

    /// Marks the slot expired if its time lies before `now` and it is not
    /// filled.
    pub fn expire_if_stale(&mut self, now: i64)
        ensures
            final(self)@ == old(self)@.aged(now),
    {
        if self.is_expired_at(now) {
            let keep = match self.state {
                SlotState::Expired => true,
                SlotState::Filled { .. } => true,
                _ => false,
            };
            if !keep {
                self.state = SlotState::Expired;
            }
        }
    }

    /// Shows the leading JIT bid on the slot. Whatever state the slot is in
    /// is written over.
    pub fn show_jit_bid(&mut self, bidder: String, amount: u64)
        ensures
            final(self)@ == old(self)@.showing_jit_bid(bidder, amount),
    {
        self.state = SlotState::JitAuction { current_bid: amount, bidder };
    }

    /// Shows the standing of the slot's AOT auction on the slot: the highest
    /// bid and its bidder, the bids of the auction in the order they were
    /// placed, and the deadline. Whatever state the slot is in is written
    /// over.
    pub fn show_aot_bid(&mut self, bidder: String, amount: u64, bids: Vec<(String, u64)>, ends_at: i64)
        ensures
            final(self)@ == old(self)@.showing_aot_bid(bidder, amount, bids@, ends_at),
    {
        self.state = SlotState::AotAuction {
            highest_bid: amount,
            highest_bidder: bidder,
            bids,
            ends_at,
        };
    }

    /// Reserves the slot for the winner of its auction. Whatever state the
    /// slot is in is written over, so a slot can leave any state again, an
    /// expired or a filled one too.
    pub fn reserve(&mut self, winner: String, winning_bid: u64, transaction_type: TransactionType)
        ensures
            final(self)@ == old(self)@.reserved(winner, winning_bid, transaction_type),
    {
        self.state = SlotState::Reserved { winner, winning_bid, transaction_type };
    }

    /// Fills the slot at the time `now`: the units are added to those used.
    /// Whatever state the slot is in is written over.
    pub fn fill_at(
        &mut self,
        winner: String,
        transaction_id: String,
        compute_units_used: u64,
        now: i64,
    )
        requires
            old(self).compute_units_used + compute_units_used <= u64::MAX,
        ensures
            final(self)@ == old(self)@.filled(winner, transaction_id, compute_units_used, now),
    {
        self.compute_units_used = self.compute_units_used + compute_units_used;
        self.state = SlotState::Filled { winner, transaction_id, execution_time: now };
    }

    /// Fills the slot now.
    pub fn fill(&mut self, winner: String, transaction_id: String, compute_units_used: u64)
        requires
            old(self).compute_units_used + compute_units_used <= u64::MAX,
        ensures
            exists|now: i64|
                is_clock_reading(now) && final(self)@ == #[trigger] old(self)@.filled(
                    winner,
                    transaction_id,
                    compute_units_used,
                    now,
                ),
    {
        let now = now_millis();
        self.fill_at(winner, transaction_id, compute_units_used, now)
    }
}

} // verus!
