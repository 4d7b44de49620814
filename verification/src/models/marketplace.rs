//! The rolling window of slots.

use std::collections::HashMap;
use vstd::prelude::*;
use crate::models::slot::{Slot, SlotView};
use crate::models::types::TransactionType;
use crate::outside::{is_clock_reading, now_millis};
use crate::utils::transaction::{calculate_base_fee, is_fee_draw};
use crate::utils::walk::{lemma_walk_end, lemma_walk_step, slots_of};
use crate::{MAX_BASE_FEE, MAX_SLOT_DURATION_MS, WINDOW_SIZE};

verus! {

/// The slots by number, the current slot, the time one slot lasts and the
/// fee that new slots are priced from.
#[derive(Debug)]
pub struct SlotMarketplace {
    pub slots: HashMap<u64, Slot>,
    pub current_slot: u64,
    pub slot_duration_ms: i64,
    pub base_fee: u64,
}

/// What a [`SlotMarketplace`] holds, with the slots by their views.
pub ghost struct SlotMarketplaceView {
    pub slots: Map<u64, SlotView>,
    pub current_slot: u64,
    pub slot_duration_ms: i64,
    pub base_fee: u64,
}

impl View for SlotMarketplace {
    type V = SlotMarketplaceView;

    open spec fn view(&self) -> SlotMarketplaceView {
        SlotMarketplaceView {
            slots: self.slots@.map_values(|slot: Slot| slot@),
            current_slot: self.current_slot,
            slot_duration_ms: self.slot_duration_ms,
            base_fee: self.base_fee,
        }
    }
}

/// Whether the times of a window that starts at `now` are numbers that
/// `i64` holds.
pub open spec fn window_times_fit(now: i64, slot_duration_ms: i64) -> bool {
    &&& i64::MIN <= slot_duration_ms * WINDOW_SIZE <= i64::MAX
    &&& i64::MIN <= now + slot_duration_ms * WINDOW_SIZE <= i64::MAX
}

/// Whether a slot duration and a base fee are within what a marketplace
/// accepts.
pub open spec fn settings_fit(slot_duration_ms: i64, base_fee: u64) -> bool {
    &&& -MAX_SLOT_DURATION_MS <= slot_duration_ms <= MAX_SLOT_DURATION_MS
    &&& base_fee <= MAX_BASE_FEE
}

/// The slots of `slots` numbered from `from` on, `depth` numbers far, in
/// rising order; a number without a slot is passed over.
pub open spec fn window(slots: Map<u64, SlotView>, from: u64, depth: nat) -> Seq<SlotView>
    decreases depth,
{
    if depth == 0 {
        Seq::empty()
    } else {
        let before = window(slots, from, (depth - 1) as nat);
        let number = from + depth - 1;
        if number <= u64::MAX && slots.contains_key(number as u64) {
            before.push(slots[number as u64])
        } else {
            before
        }
    }
}

/// The views of a sequence of slots.
pub open spec fn slot_views(slots: Seq<Slot>) -> Seq<SlotView> {
    slots.map_values(|slot: Slot| slot@)
}

impl SlotMarketplaceView {
    /// The slots are those numbered below the end of the window, each under
    /// its own number, and the settings are within bounds.
    pub open spec fn wf(self) -> bool {
        &&& self.current_slot + WINDOW_SIZE <= u64::MAX
        &&& forall|number: u64|
            self.slots.contains_key(number) <==> number < self.current_slot + WINDOW_SIZE
        &&& forall|number: u64| #[trigger]
            self.slots.contains_key(number) ==> self.slots[number].slot_number == number
        &&& settings_fit(self.slot_duration_ms, self.base_fee)
    }

    /// The number of the slot that enters the window at the next tick.
    pub open spec fn edge(self) -> int {
        self.current_slot + WINDOW_SIZE
    }

    /// The marketplace after a tick at `now`: the current slot is the next
    /// one, every slot whose time has passed is expired unless it is filled,
    /// and the slot at the edge, if it was missing, is there, priced at
    /// `edge_fee`.
    pub open spec fn advanced(self, now: i64, edge_fee: u64) -> SlotMarketplaceView {
        let aged = self.slots.map_values(|slot: SlotView| slot.aged(now));
        let edge = self.edge() as u64;
        SlotMarketplaceView {
            slots: if aged.contains_key(edge) {
                aged
            } else {
                aged.insert(
                    edge,
                    SlotView::fresh(
                        edge,
                        (now + self.slot_duration_ms * WINDOW_SIZE) as i64,
                        edge_fee,
                        now,
                    ),
                )
            },
            current_slot: (self.current_slot + 1) as u64,
            ..self
        }
    }

    /// Whether this is a marketplace as it is opened at `now`: the current
    /// slot is 0 and the window holds fresh slots, one slot duration apart,
    /// each priced by a draw from the base fee.
    pub open spec fn opened_at(self, slot_duration_ms: i64, base_fee: u64, now: i64) -> bool {
        &&& self.current_slot == 0
        &&& self.slot_duration_ms == slot_duration_ms
        &&& self.base_fee == base_fee
        &&& forall|number: u64| self.slots.contains_key(number) <==> number < WINDOW_SIZE
        &&& forall|number: u64| #[trigger]
            self.slots.contains_key(number) ==> is_fee_draw(base_fee, self.slots[number].base_fee)
                && self.slots[number] == SlotView::fresh(
                number,
                (now + slot_duration_ms * number) as i64,
                self.slots[number].base_fee,
                now,
            )
    }

    /// The marketplace with `slot` in the place of the slot `number`, if
    /// there is such a slot.
    pub open spec fn with_slot(self, number: u64, slot: SlotView) -> SlotMarketplaceView {
        if self.slots.contains_key(number) {
            SlotMarketplaceView { slots: self.slots.insert(number, slot), ..self }
        } else {
            self
        }
    }

    /// The marketplace with the leading JIT bid shown on the slot `number`.
    pub open spec fn showing_jit_bid(self, number: u64, bidder: String, amount: u64) -> SlotMarketplaceView {
        self.with_slot(number, self.slots[number].showing_jit_bid(bidder, amount))
    }

    /// The marketplace with the standing of an AOT auction shown on the
    /// slot `number`.
    pub open spec fn showing_aot_bid(
        self,
        number: u64,
        bidder: String,
        amount: u64,
        bids: Seq<(String, u64)>,
        ends_at: i64,
    ) -> SlotMarketplaceView {
        self.with_slot(number, self.slots[number].showing_aot_bid(bidder, amount, bids, ends_at))
    }

    /// The marketplace with the slot `number` reserved for `winner`.
    pub open spec fn reserved(
        self,
        number: u64,
        winner: String,
        winning_bid: u64,
        transaction_type: TransactionType,
    ) -> SlotMarketplaceView {
        self.with_slot(number, self.slots[number].reserved(winner, winning_bid, transaction_type))
    }

    /// The marketplace with the slot `number` filled at `now`, if the units
    /// it has used can take `compute_units_used` more.
    pub open spec fn filled(
        self,
        number: u64,
        winner: String,
        transaction_id: String,
        compute_units_used: u64,
        now: i64,
    ) -> SlotMarketplaceView {
        if self.slots.contains_key(number) && self.slots[number].compute_units_used
            + compute_units_used <= u64::MAX {
            self.with_slot(
                number,
                self.slots[number].filled(winner, transaction_id, compute_units_used, now),
            )
        } else {
            self
        }
    }

    /// The first available slot of the window, if there is one.
    pub open spec fn is_next_available(self, found: Option<u64>) -> bool {
        match found {
            Some(number) => {
                &&& self.current_slot <= number < self.current_slot + WINDOW_SIZE
                &&& self.slots.contains_key(number)
                &&& self.slots[number].state is Available
                &&& forall|other: u64|
                    self.current_slot <= other < number ==> !(#[trigger] self.slots.contains_key(
                        other,
                    ) && self.slots[other].state is Available)
            },
            None => forall|other: u64|
                self.current_slot <= other < self.current_slot + WINDOW_SIZE ==> !(
                #[trigger] self.slots.contains_key(other) && self.slots[other].state is Available),
        }
    }
}

impl SlotMarketplace {
    /// Opens a marketplace at the time `now`: slots 0 up to the window size,
    /// all available, one slot duration apart, each with a fee drawn from
    /// the base fee.
    pub fn new_at(slot_duration_ms: i64, base_fee: u64, now: i64) -> (marketplace: Self)
        requires
            settings_fit(slot_duration_ms, base_fee),
            window_times_fit(now, slot_duration_ms),
        ensures
            marketplace@.opened_at(slot_duration_ms, base_fee, now),
            marketplace@.wf(),
    {
        let mut marketplace = SlotMarketplace {
            slots: HashMap::new(),
            current_slot: 0,
            slot_duration_ms,
            base_fee,
        };
        let mut i: u64 = 0;
        while i < WINDOW_SIZE
            invariant
                i <= WINDOW_SIZE,
                settings_fit(slot_duration_ms, base_fee),
                window_times_fit(now, slot_duration_ms),
                marketplace.current_slot == 0,
                marketplace.slot_duration_ms == slot_duration_ms,
                marketplace.base_fee == base_fee,
                forall|number: u64| marketplace@.slots.contains_key(number) <==> number < i,
                forall|number: u64| #[trigger]
                    marketplace@.slots.contains_key(number) ==> is_fee_draw(
                        base_fee,
                        marketplace@.slots[number].base_fee,
                    ) && marketplace@.slots[number] == SlotView::fresh(
                        number,
                        (now + slot_duration_ms * number) as i64,
                        marketplace@.slots[number].base_fee,
                        now,
                    ),
            decreases WINDOW_SIZE - i,
        {
            assert(i64::MIN <= slot_duration_ms * i <= i64::MAX && i64::MIN <= now
                + slot_duration_ms * i <= i64::MAX) by (nonlinear_arith)
                requires
                    0 <= i < 100,
                    i64::MIN <= slot_duration_ms * 100 <= i64::MAX,
                    i64::MIN <= now + slot_duration_ms * 100 <= i64::MAX,
                    i64::MIN <= now <= i64::MAX,
            ;
            let estimated_time = now + slot_duration_ms * (i as i64);
            let fee = calculate_base_fee(base_fee);
            let slot = Slot::new_at(i, estimated_time, fee, now);
            let ghost held = marketplace@.slots;
            marketplace.slots.insert(i, slot);
            assert(marketplace@.slots =~= held.insert(i, slot@));
            i += 1;
        }
        marketplace
    }

    /// Opens a marketplace now.
    pub fn new(slot_duration_ms: i64, base_fee: u64) -> (marketplace: Self)
        requires
            settings_fit(slot_duration_ms, base_fee),
        ensures
            exists|now: i64|
                is_clock_reading(now) && #[trigger] marketplace@.opened_at(
                    slot_duration_ms,
                    base_fee,
                    now,
                ),
            marketplace@.wf(),
    {
        let now = now_millis();
        Self::new_at(slot_duration_ms, base_fee, now)
    }

    /// Moves to the next slot at the time `now`. The slot that enters the
    /// window is priced at `edge_fee`.
    pub fn advance_slot_with(&mut self, now: i64, edge_fee: u64)
        requires
            old(self).current_slot + WINDOW_SIZE <= u64::MAX,
            window_times_fit(now, old(self).slot_duration_ms),
        ensures
            final(self)@ == old(self)@.advanced(now, edge_fee),
            old(self)@.wf() && old(self).current_slot + WINDOW_SIZE < u64::MAX ==> final(self)@.wf(),
    {
        let edge = self.current_slot + WINDOW_SIZE;
        self.current_slot = self.current_slot + 1;
        let numbers = slots_of(&self.slots);
        let ghost before = old(self)@.slots;
        assert(before.dom() =~= old(self).slots@.dom());
        let mut i: usize = 0;
        while i < numbers.len()
            invariant
                i <= numbers.len(),
                numbers@.no_duplicates(),
                numbers@.to_set() == before.dom(),
                before == old(self)@.slots,
                self.current_slot == old(self).current_slot + 1,
                self.slot_duration_ms == old(self).slot_duration_ms,
                self.base_fee == old(self).base_fee,
                forall|number: u64| self@.slots.contains_key(number) <==> before.contains_key(number),
                forall|number: u64| #[trigger]
                    self@.slots.contains_key(number) ==> self@.slots[number] == if numbers@.take(
                        i as int,
                    ).contains(number) {
                        before[number].aged(now)
                    } else {
                        before[number]
                    },
            decreases numbers.len() - i,
        {
            let number = numbers[i];
            proof {
                lemma_walk_step(numbers@, i as int);
                assert(numbers@.to_set().contains(number));
                assert(before.contains_key(number));
                assert(self@.slots.contains_key(number));
            }
            let ghost held = self@.slots;
            match self.slots.remove(&number) {
                Some(mut slot) => {
                    slot.expire_if_stale(now);
                    self.slots.insert(number, slot);
                    assert(self@.slots =~= held.insert(number, slot@));
                },
                None => {},
            }
            i += 1;
        }
        let ghost aged = before.map_values(|slot: SlotView| slot.aged(now));
        proof {
            lemma_walk_end(numbers@, before);
            assert(numbers@.take(i as int) == numbers@);
            assert(self@.slots =~= aged);
        }
        if !self.slots.contains_key(&edge) {
            let estimated_time = now + self.slot_duration_ms * (WINDOW_SIZE as i64);
            let slot = Slot::new_at(edge, estimated_time, edge_fee, now);
            self.slots.insert(edge, slot);
            assert(self@.slots =~= aged.insert(edge, slot@));
        }
    }

    /// Moves to the next slot now: every slot whose time has passed is
    /// expired unless it is filled, and the slot that enters the window is
    /// created with a fee drawn from the base fee.
    pub fn advance_slot(&mut self)
        requires
            old(self).current_slot + WINDOW_SIZE <= u64::MAX,
            settings_fit(old(self).slot_duration_ms, old(self).base_fee),
        ensures
            exists|now: i64, edge_fee: u64|
                is_clock_reading(now) && is_fee_draw(old(self).base_fee, edge_fee) && final(self)@
                    == #[trigger] old(self)@.advanced(now, edge_fee),
            old(self)@.wf() && old(self).current_slot + WINDOW_SIZE < u64::MAX ==> final(self)@.wf(),
    {
        let now = now_millis();
        let edge_fee = calculate_base_fee(self.base_fee);
        self.advance_slot_with(now, edge_fee)
    }

    /// Shows the leading JIT bid on the slot `number`, if there is such a
    /// slot. Whatever state the slot is in is written over: a slot that was
    /// reserved, filled or expired stands in an auction again.
    pub fn show_jit_bid(&mut self, number: u64, bidder: String, amount: u64)
        ensures
            final(self)@ == old(self)@.showing_jit_bid(number, bidder, amount),
    {
        let ghost held = self@.slots;
        match self.slots.remove(&number) {
            Some(mut slot) => {
                slot.show_jit_bid(bidder, amount);
                self.slots.insert(number, slot);
                assert(self@.slots =~= held.insert(number, slot@));
            },
            None => {
                assert(self@.slots =~= held);
            },
        }
    }

    /// Shows the standing of an AOT auction on the slot `number`, if there
    /// is such a slot: the highest bid and its bidder, the bids of the
    /// auction in the order they were placed, and the deadline. Whatever
    /// state the slot is in is written over.
    pub fn show_aot_bid(
        &mut self,
        number: u64,
        bidder: String,
        amount: u64,
        bids: Vec<(String, u64)>,
        ends_at: i64,
    )
        ensures
            final(self)@ == old(self)@.showing_aot_bid(number, bidder, amount, bids@, ends_at),
    {
        let ghost held = self@.slots;
        match self.slots.remove(&number) {
            Some(mut slot) => {
                slot.show_aot_bid(bidder, amount, bids, ends_at);
                self.slots.insert(number, slot);
                assert(self@.slots =~= held.insert(number, slot@));
            },
            None => {
                assert(self@.slots =~= held);
            },
        }
    }

    /// Reserves the slot `number` for `winner`, if there is such a slot.
    /// Whatever state the slot is in is written over: a slot that was
    /// filled or expired is reserved again.
    pub fn reserve_slot(
        &mut self,
        number: u64,
        winner: String,
        winning_bid: u64,
        transaction_type: TransactionType,
    )
        ensures
            final(self)@ == old(self)@.reserved(number, winner, winning_bid, transaction_type),
    {
        let ghost held = self@.slots;
        match self.slots.remove(&number) {
            Some(mut slot) => {
                slot.reserve(winner, winning_bid, transaction_type);
                self.slots.insert(number, slot);
                assert(self@.slots =~= held.insert(number, slot@));
            },
            None => {
                assert(self@.slots =~= held);
            },
        }
    }

    /// Fills the slot `number` at the time `now`, if there is such a slot
    /// and the units it has used can take `compute_units_used` more.
    /// Whatever state the slot is in is written over.
    pub fn fill_slot_at(
        &mut self,
        number: u64,
        winner: String,
        transaction_id: String,
        compute_units_used: u64,
        now: i64,
    )
        ensures
            final(self)@ == old(self)@.filled(
                number,
                winner,
                transaction_id,
                compute_units_used,
                now,
            ),
    {
        let ghost held = self@.slots;
        match self.slots.remove(&number) {
            Some(mut slot) => {
                let ghost found = slot@;
                assert(found == held[number]);
                if slot.compute_units_used <= u64::MAX - compute_units_used {
                    slot.fill_at(winner, transaction_id, compute_units_used, now);
                }
                self.slots.insert(number, slot);
                assert(self@.slots =~= held.insert(number, slot@));
                assert(held.insert(number, found) =~= held);
            },
            None => {
                assert(self@.slots =~= held);
            },
        }
    }

    /// The slots numbered from `current_slot` on, `depth` numbers far, in
    /// rising order.
    pub fn get_window(&self, current_slot: u64, depth: u64) -> (slots: Vec<Slot>)
        ensures
            slot_views(slots@) == window(self@.slots, current_slot, depth as nat),
    {
        let mut slots: Vec<Slot> = Vec::new();
        let mut k: u64 = 0;
        assert(slot_views(slots@) =~= Seq::<SlotView>::empty());
        while k < depth
            invariant
                k <= depth,
                slot_views(slots@) == window(self@.slots, current_slot, k as nat),
            decreases depth - k,
        {
            let ghost held = slots@;
            if current_slot <= u64::MAX - k {
                let number = current_slot + k;
                match self.slots.get(&number) {
                    Some(slot) => {
                        let copy = slot.clone();
                        slots.push(copy);
                        assert(self@.slots.contains_key(number));
                        assert(slot_views(slots@) =~= slot_views(held).push(copy@));
                    },
                    None => {
                        assert(!self@.slots.contains_key(number));
                    },
                }
            }
            k += 1;
        }
        slots
    }

    /// The first available slot of the window, if there is one.
    pub fn get_next_available_slot(&self) -> (found: Option<u64>)
        requires
            self.current_slot + WINDOW_SIZE <= u64::MAX,
        ensures
            self@.is_next_available(found),
    {
        let mut number = self.current_slot;
        let end = self.current_slot + WINDOW_SIZE;
        while number < end
            invariant
                self.current_slot <= number <= end,
                end == self.current_slot + WINDOW_SIZE,
                forall|other: u64|
                    self.current_slot <= other < number ==> !(#[trigger] self@.slots.contains_key(
                        other,
                    ) && self@.slots[other].state is Available),
            decreases end - number,
        {
            let available = match self.slots.get(&number) {
                Some(slot) => slot.is_available(),
                None => false,
            };
            if available {
                assert(self@.slots.contains_key(number));
                return Some(number);
            }
            number += 1;
        }
        None
    }
}

/// Counts that describe the marketplace at one moment.
#[derive(Clone, Copy, Debug, PartialEq, Eq)]
pub struct MarketplaceStats {
    pub current_slot: u64,
    pub total_slots: usize,
    pub active_jit_auctions: usize,
    pub active_aot_auctions: usize,
    pub total_transactions: usize,
}

} // verus!
