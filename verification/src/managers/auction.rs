//! The auction engine: the open auctions of both kinds, by slot number.

use std::collections::HashMap;
use vstd::prelude::*;
use crate::models::auction::{
    bid_pairs, deadline_fits, jit_min_bid, AotAuction, AotAuctionView, AuctionError, JitAuction,
};
use crate::outside::{is_clock_reading, now_millis};
use crate::utils::walk::{lemma_walk_end, lemma_walk_step, slots_of};
use crate::MAX_DURATION_SECONDS;

verus! {

/// The AOT auctions that stay open at `now`: those that are not due.
pub open spec fn still_open(aot: Map<u64, AotAuctionView>, current_slot: u64, now: i64) -> Map<
    u64,
    AotAuctionView,
> {
    Map::new(
        |slot: u64| aot.contains_key(slot) && !aot[slot].due_at(current_slot, now),
        |slot: u64| aot[slot],
    )
}

/// Whether `entry` is the resolution of the auction `auction` held for
/// `slot`: the slot, the winner, the winning amount and the bids to refund.
pub open spec fn is_resolution_of(
    entry: (u64, String, u64, Vec<(String, u64)>),
    slot: u64,
    auction: AotAuctionView,
) -> bool {
    &&& entry.0 == slot
    &&& auction.winner() == Some((entry.1, entry.2))
    &&& entry.3@ == auction.losers()
}

/// Whether `resolved` holds the resolution of each due auction of `aot`
/// that has a bid, once, and nothing else.
pub open spec fn resolves_due(
    resolved: Seq<(u64, String, u64, Vec<(String, u64)>)>,
    aot: Map<u64, AotAuctionView>,
    current_slot: u64,
    now: i64,
) -> bool {
    &&& forall|i: int|
        0 <= i < resolved.len() ==> {
            let entry = #[trigger] resolved[i];
            &&& aot.contains_key(entry.0)
            &&& aot[entry.0].due_at(current_slot, now)
            &&& is_resolution_of(entry, entry.0, aot[entry.0])
        }
    &&& forall|i: int, j: int|
        0 <= i < j < resolved.len() ==> (#[trigger] resolved[i]).0 != (#[trigger] resolved[j]).0
    &&& forall|slot: u64|
        #[trigger] aot.contains_key(slot) && aot[slot].due_at(current_slot, now)
            && aot[slot].bids.len() > 0 ==> exists|i: int|
            0 <= i < resolved.len() && (#[trigger] resolved[i]).0 == slot
}

/// The open auctions: at most one JIT and one AOT auction for a slot.
#[derive(Debug)]
pub struct AuctionManager {
    pub jit_auctions: HashMap<u64, JitAuction>,
    pub aot_auctions: HashMap<u64, AotAuction>,
}

impl AuctionManager {
    /// The open JIT auctions by slot.
    pub open spec fn jit(&self) -> Map<u64, JitAuction> {
        self.jit_auctions@
    }

    /// The open AOT auctions by slot.
    pub open spec fn aot(&self) -> Map<u64, AotAuctionView> {
        self.aot_auctions@.map_values(|auction: AotAuction| auction@)
    }

    /// Every auction is well formed and is filed under its own slot number.
    pub open spec fn wf(&self) -> bool {
        &&& forall|slot: u64| #[trigger]
            self.jit().contains_key(slot) ==> self.jit()[slot].wf() && self.jit()[slot].slot_number
                == slot
        &&& forall|slot: u64| #[trigger]
            self.aot().contains_key(slot) ==> self.aot()[slot].wf() && self.aot()[slot].slot_number
                == slot
    }

    /// An engine without auctions.
    pub fn new() -> (manager: Self)
        ensures
            manager.jit() == Map::<u64, JitAuction>::empty(),
            manager.aot() == Map::<u64, AotAuctionView>::empty(),
            manager.wf(),
    {
        let manager = AuctionManager { jit_auctions: HashMap::new(), aot_auctions: HashMap::new() };
        assert(manager.aot() =~= Map::<u64, AotAuctionView>::empty());
        manager
    }

    /// Opens a JIT auction for the slot at the time `now`, unless one is open.
    pub fn start_jit_auction_at(&mut self, slot_number: u64, base_fee: u64, now: i64) -> (result:
        Result<(), AuctionError>)
        requires
            jit_min_bid(base_fee as int) <= u64::MAX,
        ensures
            final(self).aot() == old(self).aot(),
            old(self).jit().contains_key(slot_number) ==> result == Err::<(), AuctionError>(
                AuctionError::AlreadyExists,
            ) && final(self).jit() == old(self).jit(),
            !old(self).jit().contains_key(slot_number) ==> result == Ok::<(), AuctionError>(())
                && final(self).jit() == old(self).jit().insert(
                slot_number,
                JitAuction::opened(slot_number, base_fee, now),
            ),
            old(self).wf() ==> final(self).wf(),
    {
        if self.jit_auctions.contains_key(&slot_number) {
            return Err(AuctionError::AlreadyExists);
        }
        let auction = JitAuction::new_at(slot_number, base_fee, now);
        self.jit_auctions.insert(slot_number, auction);
        Ok(())
    }

    /// Opens a JIT auction for the slot now, unless one is open.
    pub fn start_jit_auction(&mut self, slot_number: u64, base_fee: u64) -> (result: Result<
        (),
        AuctionError,
    >)
        requires
            jit_min_bid(base_fee as int) <= u64::MAX,
        ensures
            final(self).aot() == old(self).aot(),
            old(self).jit().contains_key(slot_number) ==> result == Err::<(), AuctionError>(
                AuctionError::AlreadyExists,
            ) && final(self).jit() == old(self).jit(),
            !old(self).jit().contains_key(slot_number) ==> result == Ok::<(), AuctionError>(())
                && exists|now: i64|
                is_clock_reading(now) && final(self).jit() == old(self).jit().insert(
                    slot_number,
                    #[trigger] JitAuction::opened(slot_number, base_fee, now),
                ),
            old(self).wf() ==> final(self).wf(),
    {
        let now = now_millis();
        self.start_jit_auction_at(slot_number, base_fee, now)
    }

    /// Places a bid in the JIT auction of the slot.
    pub fn submit_jit_bid(&mut self, slot_number: u64, bidder_id: String, amount: u64) -> (result:
        Result<(), AuctionError>)
        ensures
            final(self).aot() == old(self).aot(),
            !old(self).jit().contains_key(slot_number) ==> result == Err::<(), AuctionError>(
                AuctionError::NotFound,
            ) && final(self).jit() == old(self).jit(),
            old(self).jit().contains_key(slot_number) ==> {
                let auction = old(self).jit()[slot_number];
                &&& final(self).jit() == old(self).jit().insert(
                    slot_number,
                    auction.after_bid(bidder_id, amount),
                )
                &&& auction.accepts(amount) ==> result == Ok::<(), AuctionError>(())
                &&& !auction.accepts(amount) ==> result == Err::<(), AuctionError>(
                    AuctionError::BidTooLow,
                )
            },
            old(self).wf() ==> final(self).wf(),
    {
        match self.jit_auctions.remove(&slot_number) {
            None => {
                assert(self.jit() =~= old(self).jit());
                Err(AuctionError::NotFound)
            },
            Some(mut auction) => {
                let result = auction.submit_bid(bidder_id, amount);
                self.jit_auctions.insert(slot_number, auction);
                assert(self.jit() =~= old(self).jit().insert(slot_number, auction));
                result
            },
        }
    }

    /// Closes the JIT auction of the slot and gives its winner.
    pub fn resolve_jit(&mut self, slot_number: u64) -> (winner: Option<(String, u64)>)
        ensures
            final(self).aot() == old(self).aot(),
            final(self).jit() == old(self).jit().remove(slot_number),
            old(self).jit().contains_key(slot_number) ==> winner == old(self).jit()[slot_number].current_highest_bidder,
            !old(self).jit().contains_key(slot_number) ==> winner is None,
            old(self).wf() ==> final(self).wf(),
    {
        let winner = match self.jit_auctions.remove(&slot_number) {
            Some(auction) => auction.resolve(),
            None => None,
        };
        proof {
            if old(self).wf() {
                assert forall|slot: u64| #[trigger] self.jit().contains_key(slot) implies self.jit()[slot].wf()
                    && self.jit()[slot].slot_number == slot by {
                    assert(old(self).jit().contains_key(slot));
                }
                assert forall|slot: u64| #[trigger] self.aot().contains_key(slot) implies self.aot()[slot].wf()
                    && self.aot()[slot].slot_number == slot by {
                    assert(old(self).aot().contains_key(slot));
                }
            }
        }
        winner
    }

    /// Opens an AOT auction for the slot at the time `now`, unless one is open.
    pub fn start_aot_auction_at(
        &mut self,
        slot_number: u64,
        base_fee: u64,
        duration_seconds: i64,
        now: i64,
    ) -> (result: Result<(), AuctionError>)
        requires
            deadline_fits(now, duration_seconds),
        ensures
            final(self).jit() == old(self).jit(),
            old(self).aot().contains_key(slot_number) ==> result == Err::<(), AuctionError>(
                AuctionError::AlreadyExists,
            ) && final(self).aot() == old(self).aot(),
            !old(self).aot().contains_key(slot_number) ==> result == Ok::<(), AuctionError>(())
                && final(self).aot() == old(self).aot().insert(
                slot_number,
                AotAuctionView::opened(slot_number, base_fee, duration_seconds, now),
            ),
            old(self).wf() ==> final(self).wf(),
    {
        if self.aot_auctions.contains_key(&slot_number) {
            return Err(AuctionError::AlreadyExists);
        }
        let auction = AotAuction::new_at(slot_number, base_fee, duration_seconds, now);
        self.aot_auctions.insert(slot_number, auction);
        assert(self.aot() =~= old(self).aot().insert(slot_number, auction@));
        Ok(())
    }

    /// Opens an AOT auction for the slot now, unless one is open.
    pub fn start_aot_auction(&mut self, slot_number: u64, base_fee: u64, duration_seconds: i64) -> (result:
        Result<(), AuctionError>)
        requires
            -MAX_DURATION_SECONDS <= duration_seconds <= MAX_DURATION_SECONDS,
        ensures
            final(self).jit() == old(self).jit(),
            old(self).aot().contains_key(slot_number) ==> result == Err::<(), AuctionError>(
                AuctionError::AlreadyExists,
            ) && final(self).aot() == old(self).aot(),
            !old(self).aot().contains_key(slot_number) ==> result == Ok::<(), AuctionError>(())
                && exists|now: i64|
                is_clock_reading(now) && final(self).aot() == old(self).aot().insert(
                    slot_number,
                    #[trigger] AotAuctionView::opened(slot_number, base_fee, duration_seconds, now),
                ),
            old(self).wf() ==> final(self).wf(),
    {
        let now = now_millis();
        self.start_aot_auction_at(slot_number, base_fee, duration_seconds, now)
    }

    /// Places a bid at the time `now` in the AOT auction of the slot.
    pub fn submit_aot_bid_at(
        &mut self,
        slot_number: u64,
        bidder_id: String,
        amount: u64,
        now: i64,
    ) -> (result: Result<(), AuctionError>)
        ensures
            final(self).jit() == old(self).jit(),
            !old(self).aot().contains_key(slot_number) ==> result == Err::<(), AuctionError>(
                AuctionError::NotFound,
            ) && final(self).aot() == old(self).aot(),
            old(self).aot().contains_key(slot_number) ==> {
                let auction = old(self).aot()[slot_number];
                &&& result == auction.bid_outcome(amount, now)
                &&& final(self).aot() == old(self).aot().insert(
                    slot_number,
                    auction.after_bid(bidder_id, amount, now),
                )
            },
            old(self).wf() ==> final(self).wf(),
    {
        match self.aot_auctions.remove(&slot_number) {
            None => {
                assert(self.aot() =~= old(self).aot());
                Err(AuctionError::NotFound)
            },
            Some(mut auction) => {
                let result = auction.submit_bid_at(bidder_id, amount, now);
                self.aot_auctions.insert(slot_number, auction);
                assert(self.aot() =~= old(self).aot().insert(slot_number, auction@));
                result
            },
        }
    }

    /// Places a bid now in the AOT auction of the slot.
    pub fn submit_aot_bid(&mut self, slot_number: u64, bidder_id: String, amount: u64) -> (result:
        Result<(), AuctionError>)
        ensures
            final(self).jit() == old(self).jit(),
            !old(self).aot().contains_key(slot_number) ==> result == Err::<(), AuctionError>(
                AuctionError::NotFound,
            ) && final(self).aot() == old(self).aot(),
            old(self).aot().contains_key(slot_number) ==> exists|now: i64|
                {
                    &&& is_clock_reading(now)
                    &&& result == #[trigger] old(self).aot()[slot_number].bid_outcome(amount, now)
                    &&& final(self).aot() == old(self).aot().insert(
                        slot_number,
                        old(self).aot()[slot_number].after_bid(bidder_id, amount, now),
                    )
                },
            old(self).wf() ==> final(self).wf(),
    {
        let now = now_millis();
        self.submit_aot_bid_at(slot_number, bidder_id, amount, now)
    }

    /// The standing of the AOT auction of the slot, if one is open: the bids
    /// without their times, in the order they were placed, and the
    /// deadline.
    pub fn aot_standing(&self, slot_number: u64) -> (standing: Option<(Vec<(String, u64)>, i64)>)
        ensures
            standing is Some <==> self.aot().contains_key(slot_number),
            standing is Some ==> (standing->0).0@ == bid_pairs(self.aot()[slot_number].bids) && (
            standing->0).1 == self.aot()[slot_number].ends_at,
    {
        match self.aot_auctions.get(&slot_number) {
            Some(auction) => Some((auction.bid_pairs(), auction.ends_at)),
            None => None,
        }
    }

    /// Whether a JIT auction is open for the slot.
    pub fn has_jit_auction(&self, slot_number: u64) -> (open: bool)
        ensures
            open == self.jit().contains_key(slot_number),
    {
        self.jit_auctions.contains_key(&slot_number)
    }

    /// Whether an AOT auction is open for the slot.
    pub fn has_aot_auction(&self, slot_number: u64) -> (open: bool)
        ensures
            open == self.aot().contains_key(slot_number),
    {
        self.aot_auctions.contains_key(&slot_number)
    }

    /// Closes every AOT auction that is due at `now` and gives, for each of
    /// them that has a bid, the slot, the winner, the winning amount and the
    /// bids to refund. The order of the result is that of the map's walk.
    pub fn resolve_ready_aot_at(&mut self, current_slot: u64, now: i64) -> (resolved: Vec<
        (u64, String, u64, Vec<(String, u64)>),
    >)
        ensures
            final(self).jit() == old(self).jit(),
            final(self).aot() == still_open(old(self).aot(), current_slot, now),
            resolves_due(resolved@, old(self).aot(), current_slot, now),
            old(self).wf() ==> final(self).wf(),
    {
        let slots = slots_of(&self.aot_auctions);
        let mut resolved: Vec<(u64, String, u64, Vec<(String, u64)>)> = Vec::new();
        let ghost before = old(self).aot();
        let mut i: usize = 0;
        while i < slots.len()
            invariant
                i <= slots.len(),
                slots@.no_duplicates(),
                slots@.to_set() == before.dom(),
                before == old(self).aot(),
                self.jit() == old(self).jit(),
                forall|slot: u64|
                    self.aot().contains_key(slot) <==> before.contains_key(slot) && !(
                    slots@.take(i as int).contains(slot) && before[slot].due_at(current_slot, now)),
                forall|slot: u64| #[trigger]
                    self.aot().contains_key(slot) ==> self.aot()[slot] == before[slot],
                forall|n: int|
                    0 <= n < resolved@.len() ==> {
                        let entry = #[trigger] resolved@[n];
                        &&& slots@.take(i as int).contains(entry.0)
                        &&& before.contains_key(entry.0)
                        &&& before[entry.0].due_at(current_slot, now)
                        &&& is_resolution_of(entry, entry.0, before[entry.0])
                    },
                forall|n: int, m: int|
                    0 <= n < m < resolved@.len() ==> (#[trigger] resolved@[n]).0 != (
                    #[trigger] resolved@[m]).0,
                forall|slot: u64|
                    slots@.take(i as int).contains(slot) && #[trigger] before.contains_key(slot)
                        && before[slot].due_at(current_slot, now) && before[slot].bids.len() > 0
                        ==> exists|n: int|
                        0 <= n < resolved@.len() && (#[trigger] resolved@[n]).0 == slot,
            decreases slots.len() - i,
        {
            let slot = slots[i];
            let ghost seen = resolved@;
            let ghost done = slots@.take(i as int);
            let ghost next = slots@.take(i + 1);
            proof {
                lemma_walk_step(slots@, i as int);
                assert(slots@.to_set().contains(slot));
                assert(before.contains_key(slot));
                assert(self.aot().contains_key(slot));
                assert(forall|other: u64|
                    next.contains(other) <==> done.contains(other) || other == slot);
            }
            let due = match self.aot_auctions.get(&slot) {
                Some(auction) => auction.should_resolve_at(current_slot, now),
                None => false,
            };
            if due {
                let ghost held = self.aot();
                match self.aot_auctions.remove(&slot) {
                    Some(auction) => {
                        assert(self.aot() =~= held.remove(slot));
                        match auction.resolve() {
                            Some((winner, bid)) => {
                                let losers = auction.get_losers();
                                resolved.push((slot, winner, bid, losers));
                                assert(forall|n: int|
                                    0 <= n < seen.len() ==> resolved@[n] == seen[n]);
                                assert(resolved@[seen.len() as int].0 == slot);
                            },
                            None => {},
                        }
                    },
                    None => {},
                }
            }
            i += 1;
        }
        proof {
            lemma_walk_end(slots@, before);
            assert(slots@.take(i as int) == slots@);
            assert forall|slot: u64| self.aot().contains_key(slot) <==> still_open(
                before,
                current_slot,
                now,
            ).contains_key(slot) by {
                if before.contains_key(slot) {
                    assert(slots@.contains(slot));
                }
            }
            assert(self.aot() =~= still_open(before, current_slot, now));
        }
        resolved
    }

    /// Closes every AOT auction that is due now: one whose deadline has
    /// passed, or whose slot is the current one or behind it.
    pub fn resolve_ready_aot(&mut self, current_slot: u64) -> (resolved: Vec<
        (u64, String, u64, Vec<(String, u64)>),
    >)
        ensures
            final(self).jit() == old(self).jit(),
            exists|now: i64|
                is_clock_reading(now) && final(self).aot() == #[trigger] still_open(
                    old(self).aot(),
                    current_slot,
                    now,
                ) && resolves_due(resolved@, old(self).aot(), current_slot, now),
            old(self).wf() ==> final(self).wf(),
    {
        let now = now_millis();
        self.resolve_ready_aot_at(current_slot, now)
    }

    /// The open JIT auctions, each once, in the order of the map's walk.
    pub fn get_active_jit_auctions(&self) -> (auctions: Vec<&JitAuction>)
        ensures
            auctions@.len() == self.jit().dom().len(),
            exists|slots: Seq<u64>|
                {
                    &&& slots.no_duplicates()
                    &&& slots.to_set() == self.jit().dom()
                    &&& slots.len() == auctions@.len()
                    &&& forall|i: int|
                        0 <= i < slots.len() ==> *(#[trigger] auctions@[i]) == self.jit()[slots[i]]
                },
    {
        let slots = slots_of(&self.jit_auctions);
        let mut auctions: Vec<&JitAuction> = Vec::new();
        let mut i: usize = 0;
        while i < slots.len()
            invariant
                i <= slots.len(),
                slots@.to_set() == self.jit().dom(),
                auctions@.len() == i,
                forall|n: int|
                    0 <= n < i ==> *(#[trigger] auctions@[n]) == self.jit()[slots@[n]],
            decreases slots.len() - i,
        {
            assert(slots@.to_set().contains(slots@[i as int]));
            match self.jit_auctions.get(&slots[i]) {
                Some(auction) => {
                    auctions.push(auction);
                },
                None => {},
            }
            i += 1;
        }
        proof {
            slots@.unique_seq_to_set();
        }
        auctions
    }

    /// The open AOT auctions, each once, in the order of the map's walk.
    pub fn get_active_aot_auctions(&self) -> (auctions: Vec<&AotAuction>)
        ensures
            auctions@.len() == self.aot().dom().len(),
            exists|slots: Seq<u64>|
                {
                    &&& slots.no_duplicates()
                    &&& slots.to_set() == self.aot().dom()
                    &&& slots.len() == auctions@.len()
                    &&& forall|i: int|
                        0 <= i < slots.len() ==> (#[trigger] auctions@[i])@ == self.aot()[slots[i]]
                },
    {
        let slots = slots_of(&self.aot_auctions);
        let mut auctions: Vec<&AotAuction> = Vec::new();
        let mut i: usize = 0;
        assert(self.aot().dom() =~= self.aot_auctions@.dom());
        while i < slots.len()
            invariant
                i <= slots.len(),
                slots@.to_set() == self.aot().dom(),
                self.aot().dom() == self.aot_auctions@.dom(),
                auctions@.len() == i,
                forall|n: int|
                    0 <= n < i ==> (#[trigger] auctions@[n])@ == self.aot()[slots@[n]],
            decreases slots.len() - i,
        {
            assert(slots@.to_set().contains(slots@[i as int]));
            match self.aot_auctions.get(&slots[i]) {
                Some(auction) => {
                    auctions.push(auction);
                },
                None => {},
            }
            i += 1;
        }
        proof {
            slots@.unique_seq_to_set();
        }
        auctions
    }
}

} // verus!
