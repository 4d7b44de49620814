//! What holds of the auctions and of the slots whatever the bids are.

use vstd::prelude::*;
use crate::models::auction::{
    bids_total, lemma_highest_index, losing_entries, own_total, total, AotAuctionView, JitAuction,
};
use crate::models::marketplace::{settings_fit, window_times_fit, SlotMarketplaceView};
use crate::models::slot::{SlotStateView, SlotView};
use crate::state::JIT_FILL_UNITS;
use crate::WINDOW_SIZE;
use crate::models::types::TransactionType;

verus! {

/// The auction after the bids `bids`, placed one after another.
pub open spec fn jit_run(auction: JitAuction, bids: Seq<(String, u64)>) -> JitAuction
    decreases bids.len(),
{
    if bids.len() == 0 {
        auction
    } else {
        jit_run(auction, bids.drop_last()).after_bid(bids.last().0, bids.last().1)
    }
}

/// Whether the bid at `index` is taken when the bids are placed one after
/// another.
pub open spec fn jit_taken(auction: JitAuction, bids: Seq<(String, u64)>, index: int) -> bool {
    jit_run(auction, bids.take(index)).accepts(bids[index].1)
}

/// Whether the bid at `index` is the one that leads after all the bids: it
/// was taken, and every other bid that was taken came before it and offered
/// strictly less.
pub open spec fn jit_leads(auction: JitAuction, bids: Seq<(String, u64)>, index: int) -> bool {
    &&& 0 <= index < bids.len()
    &&& jit_taken(auction, bids, index)
    &&& jit_run(auction, bids).current_highest_bidder == Some(bids[index])
    &&& forall|i: int|
        0 <= i < bids.len() && i != index && #[trigger] jit_taken(auction, bids, i) ==> i < index
            && bids[i].1 < bids[index].1
}

/// Whether a bid is taken does not depend on the bids after it.
proof fn lemma_taken_in_front(auction: JitAuction, bids: Seq<(String, u64)>, index: int)
    requires
        0 <= index < bids.len() - 1,
    ensures
        jit_taken(auction, bids, index) == jit_taken(auction, bids.drop_last(), index),
{
    assert(bids.take(index) == bids.drop_last().take(index));
}

/// In a JIT auction that starts without a leader, the bids that are taken
/// rise strictly, and the leader after any number of bids is the one bid
/// with the greatest amount among those taken. No bid is taken exactly when
/// there is no leader.
pub proof fn law_jit_leader_is_highest(auction: JitAuction, bids: Seq<(String, u64)>)
    requires
        auction.current_highest_bidder is None,
    ensures
        forall|i: int, j: int|
            0 <= i < j < bids.len() && #[trigger] jit_taken(auction, bids, i) && #[trigger] jit_taken(
                auction,
                bids,
                j,
            ) ==> bids[i].1 < bids[j].1,
        jit_run(auction, bids).current_highest_bidder is Some ==> exists|index: int| #[trigger]
            jit_leads(auction, bids, index),
        jit_run(auction, bids).current_highest_bidder is None ==> forall|i: int|
            0 <= i < bids.len() ==> !#[trigger] jit_taken(auction, bids, i),
        jit_run(auction, bids).min_bid == auction.min_bid,
    decreases bids.len(),
{
    if bids.len() > 0 {
        let front = bids.drop_last();
        let last = bids.len() - 1;
        law_jit_leader_is_highest(auction, front);
        let before = jit_run(auction, front);
        assert(bids.take(last) == front);
        assert forall|i: int| 0 <= i < last implies jit_taken(auction, bids, i) == jit_taken(
            auction,
            front,
            i,
        ) by {
            lemma_taken_in_front(auction, bids, i);
        }
        if before.accepts(bids[last].1) {
            assert(jit_taken(auction, bids, last));
            if before.current_highest_bidder is Some {
                let index = choose|index: int| #[trigger] jit_leads(auction, front, index);
                assert(front[index] == bids[index]);
                assert forall|i: int|
                    0 <= i < last && #[trigger] jit_taken(auction, bids, i) implies bids[i].1
                    < bids[last].1 by {
                    assert(jit_taken(auction, front, i));
                    assert(front[i] == bids[i]);
                }
            }
            assert(jit_leads(auction, bids, last));
        } else {
            assert(!jit_taken(auction, bids, last));
            if before.current_highest_bidder is Some {
                let index = choose|index: int| #[trigger] jit_leads(auction, front, index);
                assert(front[index] == bids[index]);
                assert forall|i: int|
                    0 <= i < bids.len() && i != index && #[trigger] jit_taken(
                        auction,
                        bids,
                        i,
                    ) implies i < index && bids[i].1 < bids[index].1 by {
                    assert(jit_taken(auction, front, i));
                    assert(front[i] == bids[i]);
                }
                assert(jit_leads(auction, bids, index));
            }
        }
        assert forall|i: int, j: int|
            0 <= i < j < bids.len() && #[trigger] jit_taken(auction, bids, i) && #[trigger] jit_taken(
                auction,
                bids,
                j,
            ) implies bids[i].1 < bids[j].1 by {
            if j < last {
                assert(jit_taken(auction, front, i) && jit_taken(auction, front, j));
                assert(front[i] == bids[i] && front[j] == bids[j]);
            } else {
                assert(jit_taken(auction, front, i));
                let index = choose|index: int| #[trigger] jit_leads(auction, front, index);
                assert(front[index] == bids[index] && front[i] == bids[i]);
            }
        }
    }
}

/// The bids of an auction are those of the winner and those to refund: the
/// refunds and all that the winner has bid make the sum of all bids.
pub proof fn law_refunds_and_winner_bids_make_total(auction: AotAuctionView)
    requires
        auction.bids.len() > 0,
    ensures
        total(auction.losers()) + own_total(auction.bids, (auction.winner()->0).0@) == bids_total(
            auction.bids,
        ),
{
    lemma_split_by_bidder(auction.bids, (auction.winner()->0).0@);
}

/// Splitting the bids by a bidder keeps the sum.
pub proof fn lemma_split_by_bidder(bids: Seq<(String, u64, i64)>, bidder: Seq<char>)
    ensures
        total(losing_entries(bids, bidder)) + own_total(bids, bidder) == bids_total(bids),
    decreases bids.len(),
{
    if bids.len() > 0 {
        lemma_split_by_bidder(bids.drop_last(), bidder);
        let before = losing_entries(bids.drop_last(), bidder);
        if bids.last().0@ != bidder {
            let entry = (bids.last().0, bids.last().1);
            assert(before.push(entry).drop_last() == before);
        }
    }
}

/// Conservation: when the winner has placed no bid but the winning one,
/// the refunds and the winning bid make the sum of all bids.
pub proof fn law_refunds_and_winning_bid_make_total(auction: AotAuctionView)
    requires
        auction.bids.len() > 0,
        own_total(auction.bids, (auction.winner()->0).0@) == (auction.winner()->0).1,
    ensures
        total(auction.losers()) + (auction.winner()->0).1 == bids_total(auction.bids),
{
    law_refunds_and_winner_bids_make_total(auction);
}

/// The winning bid is the greatest bid, and the first among equals.
pub proof fn law_winner_is_first_highest(auction: AotAuctionView)
    requires
        auction.bids.len() > 0,
    ensures
        exists|index: int|
            {
                &&& 0 <= index < auction.bids.len()
                &&& auction.winner() == Some(
                    ((#[trigger] auction.bids[index]).0, auction.bids[index].1),
                )
                &&& forall|i: int|
                    0 <= i < auction.bids.len() ==> (#[trigger] auction.bids[i]).1
                        <= auction.bids[index].1
                &&& forall|i: int| 0 <= i < index ==> (#[trigger] auction.bids[i]).1 < auction.bids[index].1
            },
{
    lemma_highest_index(auction.bids);
    let index = crate::models::auction::highest_index(auction.bids);
    assert(auction.winner() == Some((auction.bids[index].0, auction.bids[index].1)));
}

/// A slot that is created, shown in an auction, reserved and filled, in
/// this order and with nothing in between, passes through the stages
/// available, in auction, reserved and filled: each step takes it to the
/// next stage, none is skipped and none comes twice.
pub proof fn law_slot_life(
    slot_number: u64,
    estimated_time: i64,
    base_fee: u64,
    created: i64,
    kind: TransactionType,
    bidder: String,
    amount: u64,
    bids: Seq<(String, u64)>,
    ends_at: i64,
    winner: String,
    winning_bid: u64,
    transaction_id: String,
    compute_units_used: u64,
    executed: i64,
)
    ensures
        ({
            let created_slot = SlotView::fresh(slot_number, estimated_time, base_fee, created);
            let in_auction = if kind == TransactionType::Jit {
                created_slot.showing_jit_bid(bidder, amount)
            } else {
                created_slot.showing_aot_bid(bidder, amount, bids, ends_at)
            };
            let reserved = in_auction.reserved(winner, winning_bid, kind);
            let filled = reserved.filled(winner, transaction_id, compute_units_used, executed);
            &&& created_slot.state.stage() == Some(0nat)
            &&& in_auction.state.stage() == Some(1nat)
            &&& reserved.state.stage() == Some(2nat)
            &&& filled.state.stage() == Some(3nat)
            &&& created_slot.state is Available
            &&& in_auction.state.in_auction()
            &&& reserved.state is Reserved
            &&& filled.state is Filled
        }),
{
}

/// A tick takes the slot that becomes current, if it stands in an auction
/// that has a winner and its time has not passed, from the auction to
/// reserved and on to filled: aging leaves it in the auction, the
/// reservation takes it to the next stage, and the fill to the last.
pub proof fn law_tick_fills_sold_slot(
    marketplace: SlotMarketplaceView,
    now: i64,
    edge_fee: u64,
    winner: String,
    winning_bid: u64,
    reference: String,
)
    requires
        marketplace.wf(),
        marketplace.current_slot + WINDOW_SIZE < u64::MAX,
        marketplace.slots[(marketplace.current_slot + 1) as u64].state.in_auction(),
        !marketplace.slots[(marketplace.current_slot + 1) as u64].stale_at(now),
        marketplace.slots[(marketplace.current_slot + 1) as u64].compute_units_used
            + JIT_FILL_UNITS <= u64::MAX,
    ensures
        ({
            let current = (marketplace.current_slot + 1) as u64;
            let advanced = marketplace.advanced(now, edge_fee);
            let reserved = advanced.reserved(current, winner, winning_bid, TransactionType::Jit);
            let filled = advanced.with_jit_winner(Some((winner, winning_bid)), reference, now);
            &&& advanced.slots[current].state.stage() == Some(1nat)
            &&& reserved.slots[current].state.stage() == Some(2nat)
            &&& filled.slots[current].state.stage() == Some(3nat)
            &&& filled.slots[current].state == (SlotStateView::Filled {
                winner,
                transaction_id: reference,
                execution_time: now,
            })
        }),
{
    let current = (marketplace.current_slot + 1) as u64;
    assert(marketplace.slots.contains_key(current));
    let advanced = marketplace.advanced(now, edge_fee);
    assert(advanced.slots.contains_key(current));
    assert(advanced.slots[current] == marketplace.slots[current].aged(now));
}

/// The marketplace after the ticks `ticks`, each a time and the fee of the
/// slot that enters at the edge, in their order.
pub open spec fn after_ticks(marketplace: SlotMarketplaceView, ticks: Seq<(i64, u64)>) -> SlotMarketplaceView
    decreases ticks.len(),
{
    if ticks.len() == 0 {
        marketplace
    } else {
        after_ticks(marketplace, ticks.drop_last()).advanced(ticks.last().0, ticks.last().1)
    }
}

/// The window keeps its width: after any number of ticks the current slot
/// has moved on by that number, and the slots are those numbered below the
/// current slot and the hundred from it on, each under its own number. A
/// slot that was there before the first tick is still there.
pub proof fn law_window_keeps_width(marketplace: SlotMarketplaceView, ticks: Seq<(i64, u64)>)
    requires
        marketplace.wf(),
        marketplace.current_slot + ticks.len() + WINDOW_SIZE <= u64::MAX,
    ensures
        after_ticks(marketplace, ticks).wf(),
        after_ticks(marketplace, ticks).current_slot == marketplace.current_slot + ticks.len(),
        forall|number: u64|
            after_ticks(marketplace, ticks).slots.contains_key(number) <==> number
                < marketplace.current_slot + ticks.len() + WINDOW_SIZE,
        forall|number: u64|
            marketplace.slots.contains_key(number) ==> after_ticks(
                marketplace,
                ticks,
            ).slots.contains_key(number),
    decreases ticks.len(),
{
    if ticks.len() > 0 {
        law_window_keeps_width(marketplace, ticks.drop_last());
        let before = after_ticks(marketplace, ticks.drop_last());
        let after = before.advanced(ticks.last().0, ticks.last().1);
        assert forall|number: u64| after.slots.contains_key(number) <==> number
            < before.current_slot + 1 + WINDOW_SIZE by {
            if number < before.current_slot + WINDOW_SIZE {
                assert(before.slots.contains_key(number));
            }
        }
        assert forall|number: u64| #[trigger]
            after.slots.contains_key(number) implies after.slots[number].slot_number
            == number by {
            if number < before.current_slot + WINDOW_SIZE {
                assert(before.slots.contains_key(number));
                assert(after.slots[number] == before.slots[number].aged(ticks.last().0));
            }
        }
    }
}

/// A marketplace as it is opened holds the slots from 0 up to the window
/// size and no others, each under its own number, available and with
/// nothing used; where the slot duration is not negative, no slot is
/// estimated before an earlier one.
pub proof fn law_window_opens_full(
    marketplace: SlotMarketplaceView,
    slot_duration_ms: i64,
    base_fee: u64,
    now: i64,
)
    requires
        marketplace.opened_at(slot_duration_ms, base_fee, now),
        settings_fit(slot_duration_ms, base_fee),
        window_times_fit(now, slot_duration_ms),
    ensures
        marketplace.wf(),
        marketplace.current_slot == 0,
        forall|number: u64| marketplace.slots.contains_key(number) <==> number < WINDOW_SIZE,
        forall|number: u64|
            number < WINDOW_SIZE ==> {
                &&& (#[trigger] marketplace.slots[number]).slot_number == number
                &&& marketplace.slots[number].state is Available
                &&& marketplace.slots[number].compute_units_used == 0
            },
        slot_duration_ms >= 0 ==> forall|earlier: u64, later: u64|
            earlier <= later < WINDOW_SIZE ==> (#[trigger] marketplace.slots[earlier]).estimated_time
                <= (#[trigger] marketplace.slots[later]).estimated_time,
{
    assert forall|number: u64| number < WINDOW_SIZE implies {
        &&& (#[trigger] marketplace.slots[number]).slot_number == number
        &&& marketplace.slots[number].state is Available
        &&& marketplace.slots[number].compute_units_used == 0
    } by {
        assert(marketplace.slots.contains_key(number));
    }
    if slot_duration_ms >= 0 {
        assert forall|earlier: u64, later: u64| earlier <= later < WINDOW_SIZE implies (
        #[trigger] marketplace.slots[earlier]).estimated_time <= (
        #[trigger] marketplace.slots[later]).estimated_time by {
            assert(marketplace.slots.contains_key(earlier));
            assert(marketplace.slots.contains_key(later));
            assert(slot_duration_ms * earlier <= slot_duration_ms * later) by (nonlinear_arith)
                requires
                    0 <= slot_duration_ms,
                    earlier <= later,
            ;
            assert(0 <= slot_duration_ms * earlier) by (nonlinear_arith)
                requires
                    0 <= slot_duration_ms,
            ;
            assert(slot_duration_ms * later <= slot_duration_ms * WINDOW_SIZE) by (nonlinear_arith)
                requires
                    0 <= slot_duration_ms,
                    later < WINDOW_SIZE,
            ;
        }
    }
}

/// A tick leaves a slot at its stage or takes it out of the life of a sold
/// slot: a slot whose time has not passed keeps its state, a filled slot
/// stays filled, and any other slot whose time has passed is expired.
pub proof fn law_aging(slot: SlotView, now: i64)
    ensures
        !slot.stale_at(now) ==> slot.aged(now) == slot,
        slot.state is Filled ==> slot.aged(now) == slot,
        slot.stale_at(now) && !(slot.state is Filled) ==> slot.aged(now).state
            == SlotStateView::Expired,
        slot.aged(now).state.stage() is Some ==> slot.aged(now).state.stage() == slot.state.stage(),
{
}

} // verus!
