//! The two kinds of auction on a slot: the single-round JIT auction and the
//! time-boxed AOT auction.

use vstd::prelude::*;
use crate::models::types::TransactionType;
use crate::outside::{is_clock_reading, now_millis};
use crate::{JIT_PREMIUM_PERCENT, MAX_DURATION_SECONDS, MIN_AOT_BID_INCREMENT};

verus! {

/// Why the auction engine refused a request.
#[derive(Clone, Copy, Debug, PartialEq, Eq, Structural)]
pub enum AuctionError {
    /// No auction is open for the slot.
    NotFound,
    /// An auction of this kind is already open for the slot.
    AlreadyExists,
    /// The amount is below the minimum bid or does not beat the leader.
    BidTooLow,
    /// The auction's deadline has passed.
    AuctionEnded,
}

/// One bid as a collaborator reports it.
#[derive(Debug, PartialEq, Eq)]
pub struct Bid {
    pub bidder_id: String,
    pub amount: u64,
    pub slot_number: u64,
    pub timestamp: i64,
    pub bid_type: TransactionType,
}

impl Clone for Bid {
    fn clone(&self) -> (r: Self)
        ensures
            r == *self,
    {
        Bid {
            bidder_id: self.bidder_id.clone(),
            amount: self.amount,
            slot_number: self.slot_number,
            timestamp: self.timestamp,
            bid_type: self.bid_type,
        }
    }
}

/// The minimum JIT bid for a base fee: the fee with the premium, rounded down.
pub open spec fn jit_min_bid(base_fee: int) -> int {
    base_fee * JIT_PREMIUM_PERCENT / 100
}

/// Whether the minimum JIT bid for a base fee is an amount that `u64` holds.
pub fn base_fee_fits(base_fee: u64) -> (fits: bool)
    ensures
        fits == (jit_min_bid(base_fee as int) <= u64::MAX),
{
    assert(base_fee as int * 105 / 100 == base_fee + base_fee as int / 20) by (nonlinear_arith);
    base_fee / 20 <= u64::MAX - base_fee
}

/// A single-round auction for the next slot: the highest bid so far leads.
#[derive(Debug, PartialEq, Eq)]
pub struct JitAuction {
    pub slot_number: u64,
    pub min_bid: u64,
    pub current_highest_bidder: Option<(String, u64)>,
    pub created_at: i64,
}

impl Clone for JitAuction {
    fn clone(&self) -> (r: Self)
        ensures
            r == *self,
    {
        let leader = match &self.current_highest_bidder {
            Some((bidder, amount)) => Some((bidder.clone(), *amount)),
            None => None,
        };
        JitAuction {
            slot_number: self.slot_number,
            min_bid: self.min_bid,
            current_highest_bidder: leader,
            created_at: self.created_at,
        }
    }
}

impl JitAuction {
    /// The leader, if any, has bid at least the minimum.
    pub open spec fn wf(&self) -> bool {
        self.current_highest_bidder matches Some((_, amount)) ==> amount >= self.min_bid
    }

    /// Whether a bid of `amount` would be taken: it meets the minimum and
    /// strictly exceeds the leading amount.
    pub open spec fn accepts(&self, amount: u64) -> bool {
        &&& amount >= self.min_bid
        &&& self.current_highest_bidder matches Some((_, leading)) ==> amount > leading
    }

    /// The auction after a bid: the bidder leads if the bid is taken, else
    /// nothing changes.
    pub open spec fn after_bid(self, bidder_id: String, amount: u64) -> JitAuction {
        if self.accepts(amount) {
            JitAuction { current_highest_bidder: Some((bidder_id, amount)), ..self }
        } else {
            self
        }
    }

    /// A new auction without a leader, opened at `now`.
    pub open spec fn opened(slot_number: u64, base_fee: u64, now: i64) -> JitAuction {
        JitAuction {
            slot_number,
            min_bid: jit_min_bid(base_fee as int) as u64,
            current_highest_bidder: None,
            created_at: now,
        }
    }

    /// Opens an auction at the time `now`.
    pub fn new_at(slot_number: u64, base_fee: u64, now: i64) -> (auction: Self)
        requires
            jit_min_bid(base_fee as int) <= u64::MAX,
        ensures
            auction == Self::opened(slot_number, base_fee, now),
            auction.wf(),
    {
        let premium: u64 = base_fee / 20;
        assert(base_fee as int * 105 / 100 == base_fee + base_fee as int / 20) by (nonlinear_arith);
        JitAuction {
            slot_number,
            min_bid: base_fee + premium,
            current_highest_bidder: None,
            created_at: now,
        }
    }

    /// Opens an auction now.
    pub fn new(slot_number: u64, base_fee: u64) -> (auction: Self)
        requires
            jit_min_bid(base_fee as int) <= u64::MAX,
        ensures
            exists|now: i64|
                is_clock_reading(now) && auction == #[trigger] Self::opened(
                    slot_number,
                    base_fee,
                    now,
                ),
            auction.wf(),
    {
        let now = now_millis();
        Self::new_at(slot_number, base_fee, now)
    }

    /// Places a bid. It is taken when it meets the minimum bid and strictly
    /// exceeds the leading amount; the bidder then leads.
    pub fn submit_bid(&mut self, bidder_id: String, amount: u64) -> (result: Result<
        (),
        AuctionError,
    >)
        ensures
            *final(self) == old(self).after_bid(bidder_id, amount),
            old(self).accepts(amount) ==> result == Ok::<(), AuctionError>(()),
            !old(self).accepts(amount) ==> result == Err::<(), AuctionError>(
                AuctionError::BidTooLow,
            ),
            old(self).wf() ==> final(self).wf(),
    {
        if amount < self.min_bid {
            return Err(AuctionError::BidTooLow);
        }
        let beats_leader = match &self.current_highest_bidder {
            None => true,
            Some((_, leading)) => amount > *leading,
        };
        if beats_leader {
            self.current_highest_bidder = Some((bidder_id, amount));
            Ok(())
        } else {
            Err(AuctionError::BidTooLow)
        }
    }

    /// The winner as it stands: the leader and the leading amount.
    pub fn resolve(&self) -> (winner: Option<(String, u64)>)
        ensures
            winner == self.current_highest_bidder,
    {
        match &self.current_highest_bidder {
            Some((bidder, amount)) => Some((bidder.clone(), *amount)),
            None => None,
        }
    }
}

/// Index of the highest bid: the first bid that no other bid exceeds.
/// Zero for an empty sequence.
pub open spec fn highest_index(bids: Seq<(String, u64, i64)>) -> int
    decreases bids.len(),
{
    if bids.len() <= 1 {
        0
    } else {
        let before = highest_index(bids.drop_last());
        if bids.last().1 > bids[before].1 {
            bids.len() - 1
        } else {
            before
        }
    }
}

/// `highest_index` names a bid that no bid exceeds and that no earlier bid
/// equals.
pub proof fn lemma_highest_index(bids: Seq<(String, u64, i64)>)
    requires
        bids.len() > 0,
    ensures
        0 <= highest_index(bids) < bids.len(),
        forall|j: int|
            0 <= j < bids.len() ==> (#[trigger] bids[j]).1 <= bids[highest_index(bids)].1,
        forall|j: int|
            0 <= j < highest_index(bids) ==> (#[trigger] bids[j]).1 < bids[highest_index(bids)].1,
    decreases bids.len(),
{
    if bids.len() > 1 {
        let front = bids.drop_last();
        lemma_highest_index(front);
        assert forall|j: int| 0 <= j < bids.len() implies (#[trigger] bids[j]).1 <= bids[highest_index(
            bids,
        )].1 by {
            if j < bids.len() - 1 {
                assert(front[j] == bids[j]);
            }
        }
        assert forall|j: int| 0 <= j < highest_index(bids) implies (#[trigger] bids[j]).1
            < bids[highest_index(bids)].1 by {
            assert(front[j] == bids[j]);
        }
    }
}

/// The bids of everyone but `winner`, in the order they were placed, each
/// with its amount.
pub open spec fn losing_entries(bids: Seq<(String, u64, i64)>, winner: Seq<char>) -> Seq<
    (String, u64),
>
    decreases bids.len(),
{
    if bids.len() == 0 {
        Seq::empty()
    } else {
        let before = losing_entries(bids.drop_last(), winner);
        if bids.last().0@ != winner {
            before.push((bids.last().0, bids.last().1))
        } else {
            before
        }
    }
}

/// The sum of the amounts of `entries`.
pub open spec fn total(entries: Seq<(String, u64)>) -> nat
    decreases entries.len(),
{
    if entries.len() == 0 {
        0
    } else {
        total(entries.drop_last()) + entries.last().1 as nat
    }
}

/// The sum of the amounts of `bids`.
pub open spec fn bids_total(bids: Seq<(String, u64, i64)>) -> nat
    decreases bids.len(),
{
    if bids.len() == 0 {
        0
    } else {
        bids_total(bids.drop_last()) + bids.last().1 as nat
    }
}

/// The sum of the amounts that `bidder` has bid.
pub open spec fn own_total(bids: Seq<(String, u64, i64)>, bidder: Seq<char>) -> nat
    decreases bids.len(),
{
    if bids.len() == 0 {
        0
    } else if bids.last().0@ == bidder {
        own_total(bids.drop_last(), bidder) + bids.last().1 as nat
    } else {
        own_total(bids.drop_last(), bidder)
    }
}

/// The bids without their times: the bidder and the amount of each, in the
/// order they were placed.
pub open spec fn bid_pairs(bids: Seq<(String, u64, i64)>) -> Seq<(String, u64)> {
    bids.map_values(|bid: (String, u64, i64)| (bid.0, bid.1))
}

/// A time-boxed auction for a future slot. Every accepted bid is kept.
#[derive(Debug, PartialEq, Eq)]
pub struct AotAuction {
    pub slot_number: u64,
    pub min_bid: u64,
    pub bids: Vec<(String, u64, i64)>,
    pub ends_at: i64,
    pub created_at: i64,
}

/// What an [`AotAuction`] holds, with the bids as a sequence.
pub ghost struct AotAuctionView {
    pub slot_number: u64,
    pub min_bid: u64,
    pub bids: Seq<(String, u64, i64)>,
    pub ends_at: i64,
    pub created_at: i64,
}

impl View for AotAuction {
    type V = AotAuctionView;

    open spec fn view(&self) -> AotAuctionView {
        AotAuctionView {
            slot_number: self.slot_number,
            min_bid: self.min_bid,
            bids: self.bids@,
            ends_at: self.ends_at,
            created_at: self.created_at,
        }
    }
}

impl AotAuctionView {
    /// The highest bid, if there is a bid.
    pub open spec fn highest(self) -> Option<(String, u64, i64)> {
        if self.bids.len() == 0 {
            None
        } else {
            Some(self.bids[highest_index(self.bids)])
        }
    }

    /// The least amount that the next bid must reach.
    pub open spec fn min_next_bid(self) -> int {
        match self.highest() {
            Some((_, amount, _)) => amount + MIN_AOT_BID_INCREMENT,
            None => self.min_bid as int,
        }
    }

    /// Every bid reached the minimum, and each bid exceeds the one before it
    /// by at least the increment.
    pub open spec fn wf(self) -> bool {
        &&& forall|i: int| 0 <= i < self.bids.len() ==> (#[trigger] self.bids[i]).1 >= self.min_bid
        &&& forall|i: int|
            0 < i < self.bids.len() ==> (#[trigger] self.bids[i]).1 >= self.bids[i - 1].1
                + MIN_AOT_BID_INCREMENT
    }

    /// Whether the deadline lies before `now`.
    pub open spec fn ended_at(self, now: i64) -> bool {
        now > self.ends_at
    }

    /// Whether the auction is due at `now`: its deadline has passed, or its
    /// slot is the current one or behind it.
    pub open spec fn due_at(self, current_slot: u64, now: i64) -> bool {
        self.ended_at(now) || self.slot_number <= current_slot
    }

    /// What a bid at `now` gets.
    pub open spec fn bid_outcome(self, amount: u64, now: i64) -> Result<(), AuctionError> {
        if self.ended_at(now) {
            Err(AuctionError::AuctionEnded)
        } else if amount < self.min_next_bid() {
            Err(AuctionError::BidTooLow)
        } else {
            Ok(())
        }
    }

    /// The auction after a bid at `now`: an accepted bid is appended, a
    /// refused one changes nothing.
    pub open spec fn after_bid(self, bidder_id: String, amount: u64, now: i64) -> AotAuctionView {
        if self.bid_outcome(amount, now) is Ok {
            AotAuctionView { bids: self.bids.push((bidder_id, amount, now)), ..self }
        } else {
            self
        }
    }

    /// A new auction without bids, opened at `now` for `duration_seconds`.
    pub open spec fn opened(
        slot_number: u64,
        base_fee: u64,
        duration_seconds: i64,
        now: i64,
    ) -> AotAuctionView {
        AotAuctionView {
            slot_number,
            min_bid: base_fee,
            bids: Seq::empty(),
            ends_at: (now + duration_seconds * 1000) as i64,
            created_at: now,
        }
    }

    /// The winner: the bidder and the amount of the highest bid.
    pub open spec fn winner(self) -> Option<(String, u64)> {
        match self.highest() {
            Some((bidder, amount, _)) => Some((bidder, amount)),
            None => None,
        }
    }

    /// The bids to refund: those of everyone but the winner. Without a
    /// winner there is no bid, and nothing to refund.
    pub open spec fn losers(self) -> Seq<(String, u64)> {
        match self.highest() {
            Some((bidder, _, _)) => losing_entries(self.bids, bidder@),
            None => Seq::empty(),
        }
    }
}

/// Whether the duration in milliseconds, and the time that lies so long
/// after `now`, are numbers that `i64` holds.
pub open spec fn deadline_fits(now: i64, duration_seconds: i64) -> bool {
    &&& i64::MIN <= duration_seconds * 1000 <= i64::MAX
    &&& i64::MIN <= now + duration_seconds * 1000 <= i64::MAX
}

/// Whether an auction that is opened at `now` for `duration_seconds` has a
/// deadline that `i64` holds.
pub fn can_end_after(now: i64, duration_seconds: i64) -> (fits: bool)
    ensures
        fits == deadline_fits(now, duration_seconds),
{
    let span: i128 = duration_seconds as i128 * 1000;
    let end: i128 = now as i128 + span;
    i64::MIN as i128 <= span && span <= i64::MAX as i128 && i64::MIN as i128 <= end && end
        <= i64::MAX as i128
}

impl Clone for AotAuction {
    fn clone(&self) -> (r: Self)
        ensures
            r@ == self@,
    {
        let mut bids: Vec<(String, u64, i64)> = Vec::new();
        let mut i: usize = 0;
        while i < self.bids.len()
            invariant
                i <= self.bids.len(),
                bids@ == self.bids@.take(i as int),
            decreases self.bids.len() - i,
        {
            let entry = &self.bids[i];
            bids.push((entry.0.clone(), entry.1, entry.2));
            assert(self.bids@.take(i + 1) == self.bids@.take(i as int).push(self.bids@[i as int]));
            i += 1;
        }
        assert(self.bids@.take(i as int) == self.bids@);
        AotAuction {
            slot_number: self.slot_number,
            min_bid: self.min_bid,
            bids,
            ends_at: self.ends_at,
            created_at: self.created_at,
        }
    }
}

impl AotAuction {
    /// Opens an auction at the time `now`, to end `duration_seconds` later.
    pub fn new_at(slot_number: u64, base_fee: u64, duration_seconds: i64, now: i64) -> (auction:
        Self)
        requires
            deadline_fits(now, duration_seconds),
        ensures
            auction@ == AotAuctionView::opened(slot_number, base_fee, duration_seconds, now),
            auction@.wf(),
    {
        AotAuction {
            slot_number,
            min_bid: base_fee,
            bids: Vec::new(),
            ends_at: now + duration_seconds * 1000,
            created_at: now,
        }
    }

    /// Opens an auction now, to end `duration_seconds` later.
    pub fn new(slot_number: u64, base_fee: u64, duration_seconds: i64) -> (auction: Self)
        requires
            -MAX_DURATION_SECONDS <= duration_seconds <= MAX_DURATION_SECONDS,
        ensures
            exists|now: i64|
                is_clock_reading(now) && auction@ == #[trigger] AotAuctionView::opened(
                    slot_number,
                    base_fee,
                    duration_seconds,
                    now,
                ),
            auction@.wf(),
    {
        let now = now_millis();
        Self::new_at(slot_number, base_fee, duration_seconds, now)
    }

    /// The highest bid: the first that no other bid exceeds.
    pub fn get_highest_bid(&self) -> (highest: Option<&(String, u64, i64)>)
        ensures
            match highest {
                Some(bid) => self@.highest() == Some(*bid),
                None => self@.highest() is None,
            },
    {
        if self.bids.len() == 0 {
            return None;
        }
        let mut best: usize = 0;
        let mut i: usize = 1;
        assert(self.bids@.take(1).len() == 1);
        while i < self.bids.len()
            invariant
                1 <= i <= self.bids.len(),
                best == highest_index(self.bids@.take(i as int)),
                best < i,
            decreases self.bids.len() - i,
        {
            let ghost front = self.bids@.take(i as int);
            let ghost next = self.bids@.take(i + 1);
            assert(next.drop_last() == front);
            assert(next.last() == self.bids@[i as int]);
            assert(next[best as int] == self.bids@[best as int]);
            if self.bids[i].1 > self.bids[best].1 {
                best = i;
            }
            i += 1;
        }
        assert(self.bids@.take(i as int) == self.bids@);
        Some(&self.bids[best])
    }

    /// The least amount that the next bid must reach: the highest bid and
    /// the increment, or the minimum bid while there is no bid.
    pub fn get_min_next_bid(&self) -> (amount: u64)
        requires
            self@.min_next_bid() <= u64::MAX,
        ensures
            amount == self@.min_next_bid(),
    {
        match self.get_highest_bid() {
            Some(bid) => bid.1 + MIN_AOT_BID_INCREMENT,
            None => self.min_bid,
        }
    }

    /// Whether the deadline lies before `now`.
    pub fn has_ended_at(&self, now: i64) -> (ended: bool)
        ensures
            ended == self@.ended_at(now),
    {
        now > self.ends_at
    }

    /// Whether the deadline has passed.
    pub fn has_ended(&self) -> (ended: bool)
        ensures
            exists|now: i64| is_clock_reading(now) && ended == #[trigger] self@.ended_at(now),
    {
        let now = now_millis();
        self.has_ended_at(now)
    }

    /// Whether the auction is due at `now`.
    pub fn should_resolve_at(&self, current_slot: u64, now: i64) -> (due: bool)
        ensures
            due == self@.due_at(current_slot, now),
    {
        self.has_ended_at(now) || self.slot_number <= current_slot
    }

    /// Whether the auction is due: its deadline has passed, or its slot is
    /// the current one or behind it.
    pub fn should_resolve(&self, current_slot: u64) -> (due: bool)
        ensures
            exists|now: i64|
                is_clock_reading(now) && due == #[trigger] self@.due_at(current_slot, now),
            self.slot_number <= current_slot ==> due,
    {
        let now = now_millis();
        self.should_resolve_at(current_slot, now)
    }

    /// Places a bid at the time `now`. It is refused after the deadline, and
    /// when it is below the least next bid; else it is appended.
    pub fn submit_bid_at(&mut self, bidder_id: String, amount: u64, now: i64) -> (result: Result<
        (),
        AuctionError,
    >)
        ensures
            result == old(self)@.bid_outcome(amount, now),
            final(self)@ == old(self)@.after_bid(bidder_id, amount, now),
            old(self)@.wf() ==> final(self)@.wf(),
    {
        if self.has_ended_at(now) {
            return Err(AuctionError::AuctionEnded);
        }
        let reaches = match self.get_highest_bid() {
            Some(bid) => amount >= bid.1 && amount - bid.1 >= MIN_AOT_BID_INCREMENT,
            None => amount >= self.min_bid,
        };
        if !reaches {
            return Err(AuctionError::BidTooLow);
        }
        proof {
            if old(self)@.wf() && old(self)@.bids.len() > 0 {
                lemma_highest_index(old(self)@.bids);
            }
        }
        self.bids.push((bidder_id, amount, now));
        Ok(())
    }

    /// Places a bid now.
    pub fn submit_bid(&mut self, bidder_id: String, amount: u64) -> (result: Result<
        (),
        AuctionError,
    >)
        ensures
            exists|now: i64|
                is_clock_reading(now) && result == #[trigger] old(self)@.bid_outcome(amount, now)
                    && final(self)@ == old(self)@.after_bid(bidder_id, amount, now),
            old(self)@.wf() ==> final(self)@.wf(),
    {
        let now = now_millis();
        self.submit_bid_at(bidder_id, amount, now)
    }

    /// The bids without their times, in the order they were placed.
    pub fn bid_pairs(&self) -> (pairs: Vec<(String, u64)>)
        ensures
            pairs@ == bid_pairs(self@.bids),
    {
        let mut pairs: Vec<(String, u64)> = Vec::new();
        let mut i: usize = 0;
        while i < self.bids.len()
            invariant
                i <= self.bids.len(),
                pairs@ == bid_pairs(self.bids@.take(i as int)),
            decreases self.bids.len() - i,
        {
            let entry = &self.bids[i];
            pairs.push((entry.0.clone(), entry.1));
            assert(self.bids@.take(i + 1) == self.bids@.take(i as int).push(self.bids@[i as int]));
            assert(pairs@ =~= bid_pairs(self.bids@.take(i + 1)));
            i += 1;
        }
        assert(self.bids@.take(i as int) == self.bids@);
        pairs
    }

    /// The winner: the bidder and the amount of the highest bid.
    pub fn resolve(&self) -> (winner: Option<(String, u64)>)
        ensures
            winner == self@.winner(),
    {
        match self.get_highest_bid() {
            Some(bid) => Some((bid.0.clone(), bid.1)),
            None => None,
        }
    }

    /// The bids to refund: every bid of a bidder other than the winner, in
    /// the order they were placed.
    pub fn get_losers(&self) -> (losers: Vec<(String, u64)>)
        ensures
            losers@ == self@.losers(),
    {
        let mut losers: Vec<(String, u64)> = Vec::new();
        match self.get_highest_bid() {
            Some(best) => {
                let mut i: usize = 0;
                while i < self.bids.len()
                    invariant
                        i <= self.bids.len(),
                        losers@ == losing_entries(self.bids@.take(i as int), best.0@),
                    decreases self.bids.len() - i,
                {
                    let ghost next = self.bids@.take(i + 1);
                    assert(next.drop_last() == self.bids@.take(i as int));
                    assert(next.last() == self.bids@[i as int]);
                    let entry = &self.bids[i];
                    if entry.0 != best.0 {
                        losers.push((entry.0.clone(), entry.1));
                    }
                    i += 1;
                }
                assert(self.bids@.take(i as int) == self.bids@);
            },
            None => {},
        }
        losers
    }
}

} // verus!
