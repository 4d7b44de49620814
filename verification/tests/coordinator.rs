use raiku_simulator::events::AppEvent;
use raiku_simulator::models::auction::{can_end_after, AuctionError};
use raiku_simulator::models::slot::SlotState;
use raiku_simulator::models::transaction::TransactionStatus;
use raiku_simulator::models::types::{InclusionType, TransactionType};
use raiku_simulator::state::{fill_reference, AppState, SubmitError, SubmitReceipt};
use raiku_simulator::INITIAL_PLAYER_BALANCE;

fn name(text: &str) -> String {
    text.to_string()
}

fn opened() -> AppState {
    AppState::new_at(400, 1_000_000, 0)
}

#[test]
fn new_state_is_empty_but_for_the_window() {
    let state = opened();
    assert_eq!(state.get_current_slot(), 0);
    let stats = state.get_marketplace_stats();
    assert_eq!(stats.current_slot, 0);
    assert_eq!(stats.total_slots, 100);
    assert_eq!(stats.active_jit_auctions, 0);
    assert_eq!(stats.active_aot_auctions, 0);
    assert_eq!(stats.total_transactions, 0);
    assert_eq!(state.get_total_transaction_count(), 0);
    let now_state = AppState::new(400, 1_000_000);
    assert_eq!(now_state.marketplace.slots.len(), 100);
}

#[test]
fn fill_reference_spells_the_slot_number() {
    assert_eq!(fill_reference(0), "transaction_0");
    assert_eq!(fill_reference(1234), "transaction_1234");
    assert_eq!(fill_reference(u64::MAX), "transaction_18446744073709551615");
}

#[test]
fn tick_without_due_auction_only_moves_the_window() {
    let mut state = opened();
    let (started, _) = state.start_aot_auction_at(40, 1_000_000, 1_000, 0);
    assert_eq!(started, Ok(()));
    let (placed, _) = state.submit_aot_bid_at(40, name("A"), 1_000_000, 1);
    assert_eq!(placed, Ok(()));
    let (started, _) = state.start_jit_auction_at(2, 1_000_000, 0);
    assert_eq!(started, Ok(()));
    let report = state.tick_with(0, 5_555);
    assert_eq!(report.current_slot, 1);
    assert_eq!(report.jit_winner, None);
    assert!(report.aot_resolved.is_empty());
    assert_eq!(report.events.len(), 3);
    assert_eq!(report.events[0], AppEvent::SlotAdvanced { current_slot: 1 });
    match &report.events[1] {
        AppEvent::SlotsUpdated { slots } => {
            assert_eq!(slots.len(), 50);
            assert_eq!(slots[0].slot_number, 1);
            assert_eq!(slots[49].slot_number, 50);
        }
        other => panic!("unexpected event {:?}", other),
    }
    assert_eq!(
        report.events[2],
        AppEvent::MarketplaceStats {
            current_slot: 1,
            active_jit_auctions: 1,
            active_aot_auctions: 1,
            total_transactions: 0,
        }
    );
    assert_eq!(state.auctions.jit_auctions.len(), 1);
    assert_eq!(state.auctions.aot_auctions.len(), 1);
    assert_eq!(state.auctions.aot_auctions.get(&40).unwrap().bids.len(), 1);
    assert_eq!(state.marketplace.current_slot, 1);
    assert_eq!(state.marketplace.slots.len(), 101);
    assert_eq!(state.marketplace.slots.get(&100).unwrap().base_fee, 5_555);
    for number in 0..100u64 {
        assert_eq!(state.marketplace.slots.get(&number).unwrap().state, SlotState::Available);
    }
}

#[test]
fn tick_resolves_the_jit_auction_of_the_new_current_slot() {
    let mut state = opened();
    let (started, _) = state.start_jit_auction_at(1, 1_000_000, 0);
    assert_eq!(started, Ok(()));
    let (placed, _) = state.submit_jit_bid(1, name("A"), 2_000_000);
    assert_eq!(placed, Ok(()));
    let report = state.tick_with(10, 5_555);
    assert_eq!(report.current_slot, 1);
    assert_eq!(report.jit_winner, Some((name("A"), 2_000_000)));
    assert_eq!(report.events.len(), 4);
    assert_eq!(
        report.events[3],
        AppEvent::JitAuctionResolved { slot_number: 1, winner: name("A"), winning_bid: 2_000_000 }
    );
    assert!(state.auctions.jit_auctions.is_empty());
    let slot = state.marketplace.slots.get(&1).unwrap();
    assert_eq!(
        slot.state,
        SlotState::Filled { winner: name("A"), transaction_id: name("transaction_1"), execution_time: 10 }
    );
    assert_eq!(slot.compute_units_used, 200_000);
}

#[test]
fn tick_removes_a_jit_auction_without_bids_silently() {
    let mut state = opened();
    let (started, _) = state.start_jit_auction_at(1, 1_000_000, 0);
    assert_eq!(started, Ok(()));
    let report = state.tick_with(0, 5_555);
    assert_eq!(report.jit_winner, None);
    assert_eq!(report.events.len(), 3);
    assert!(state.auctions.jit_auctions.is_empty());
    assert_eq!(state.marketplace.slots.get(&1).unwrap().state, SlotState::Available);
}

#[test]
fn tick_resolves_due_aot_auctions_and_reserves_their_slots() {
    let mut state = opened();
    let (started, _) = state.start_aot_auction_at(1, 10_000_000, 30, 0);
    assert_eq!(started, Ok(()));
    assert_eq!(state.submit_aot_bid_at(1, name("A"), 10_000_000, 1).0, Ok(()));
    assert_eq!(state.submit_aot_bid_at(1, name("B"), 12_000_000, 2).0, Ok(()));
    let report = state.tick_with(0, 5_555);
    assert_eq!(
        report.aot_resolved,
        vec![(1, name("B"), 12_000_000, vec![(name("A"), 10_000_000)])]
    );
    assert_eq!(report.events.len(), 4);
    assert_eq!(
        report.events[3],
        AppEvent::AotAuctionResolved { slot_number: 1, winner: name("B"), winning_bid: 12_000_000 }
    );
    assert!(state.auctions.aot_auctions.is_empty());
    assert_eq!(
        state.marketplace.slots.get(&1).unwrap().state,
        SlotState::Reserved {
            winner: name("B"),
            winning_bid: 12_000_000,
            transaction_type: TransactionType::Aot
        }
    );
}

#[test]
fn tick_expires_a_stale_slot_before_it_is_filled() {
    let mut state = opened();
    assert_eq!(state.start_jit_auction_at(1, 1_000_000, 0).0, Ok(()));
    assert_eq!(state.submit_jit_bid(1, name("A"), 2_000_000).0, Ok(()));
    let report = state.tick_with(401, 5_555);
    assert_eq!(report.jit_winner, Some((name("A"), 2_000_000)));
    assert_eq!(state.marketplace.slots.get(&0).unwrap().state, SlotState::Expired);
    assert!(matches!(state.marketplace.slots.get(&1).unwrap().state, SlotState::Filled { .. }));
    assert_eq!(state.marketplace.slots.get(&2).unwrap().state, SlotState::Available);
}

#[test]
fn tick_now_moves_to_the_next_slot() {
    let mut state = AppState::new(400, 1_000_000);
    let report = state.tick();
    assert_eq!(report.current_slot, 1);
    assert_eq!(report.events.len(), 3);
    assert_eq!(state.marketplace.slots.len(), 101);
    let (current, events) = state.advance_slot();
    assert_eq!(current, 2);
    assert_eq!(events.len(), 3);
}

#[test]
fn events_reach_a_subscriber_in_the_order_they_were_published() {
    let mut state = opened();
    let mut receiver = state.events.subscribe();
    assert_eq!(state.start_jit_auction_at(1, 1_000_000, 0).0, Ok(()));
    assert_eq!(state.submit_jit_bid(1, name("A"), 2_000_000).0, Ok(()));
    assert_eq!(state.submit_jit_bid(1, name("B"), 1).0, Err(AuctionError::BidTooLow));
    assert_eq!(
        receiver.try_recv().unwrap(),
        AppEvent::JitAuctionStarted { slot_number: 1, min_bid: 1_050_000 }
    );
    assert_eq!(
        receiver.try_recv().unwrap(),
        AppEvent::JitBidSubmitted { slot_number: 1, bidder: name("A"), amount: 2_000_000 }
    );
    assert!(receiver.try_recv().is_err());
    let report = state.tick_with(0, 7);
    for event in report.events {
        assert_eq!(receiver.try_recv().unwrap(), event);
    }
    assert!(receiver.try_recv().is_err());
}

#[test]
fn publishing_without_subscribers_does_not_fail() {
    let mut state = opened();
    let (result, events) = state.start_aot_auction_at(7, 1_000, 10, 5);
    assert_eq!(result, Ok(()));
    assert_eq!(events, vec![AppEvent::AotAuctionStarted { slot_number: 7, min_bid: 1_000, ends_at: 10_005 }]);
    let (again, events) = state.start_aot_auction_at(7, 1_000, 10, 5);
    assert_eq!(again, Err(AuctionError::AlreadyExists));
    assert!(events.is_empty());
    let stats = state.broadcast_stats();
    assert_eq!(
        stats,
        AppEvent::MarketplaceStats {
            current_slot: 0,
            active_jit_auctions: 0,
            active_aot_auctions: 1,
            total_transactions: 0
        }
    );
}

#[test]
fn resolution_helpers_announce_their_winners() {
    let mut state = opened();
    assert_eq!(state.resolve_jit_auction(3), (None, vec![]));
    assert_eq!(state.start_jit_auction_at(3, 100, 0).0, Ok(()));
    assert_eq!(state.submit_jit_bid(3, name("A"), 500).0, Ok(()));
    let (winner, events) = state.resolve_jit_auction(3);
    assert_eq!(winner, Some((name("A"), 500)));
    assert_eq!(events, vec![AppEvent::JitAuctionResolved { slot_number: 3, winner: name("A"), winning_bid: 500 }]);
    assert_eq!(state.start_aot_auction_at(4, 100, 1, 0).0, Ok(()));
    assert_eq!(state.submit_aot_bid_at(4, name("B"), 100, 0).0, Ok(()));
    let (resolved, events) = state.resolve_ready_aot_auctions_at(0, 1_001);
    assert_eq!(resolved, vec![(4, name("B"), 100, vec![])]);
    assert_eq!(events, vec![AppEvent::AotAuctionResolved { slot_number: 4, winner: name("B"), winning_bid: 100 }]);
    assert_eq!(state.start_aot_auction_at(5, 100, 1_000, 0).0, Ok(()));
    let (resolved, events) = state.resolve_ready_aot_auctions(4);
    assert!(resolved.is_empty() && events.is_empty());
}

#[test]
fn jit_submission_runs_all_its_steps() {
    let mut state = opened();
    let (result, events) = state.submit_jit_transaction_with(
        name("session-a"),
        2_000_000,
        1_000,
        name("payload"),
        1_000_000,
        name("tx-1"),
        77,
    );
    assert_eq!(
        result,
        Ok(SubmitReceipt { transaction_id: name("tx-1"), slot_number: 1, bid_amount: 2_000_000 })
    );
    assert_eq!(events.len(), 3);
    assert_eq!(events[0], AppEvent::JitAuctionStarted { slot_number: 1, min_bid: 1_050_000 });
    assert_eq!(
        events[1],
        AppEvent::JitBidSubmitted { slot_number: 1, bidder: name("session-a"), amount: 2_000_000 }
    );
    let stored = state.get_transaction("tx-1").unwrap();
    assert_eq!(events[2], AppEvent::TransactionUpdated { transaction: stored.clone() });
    assert_eq!(stored.sender, "session-a");
    assert_eq!(stored.inclusion_type, InclusionType::Jit);
    assert_eq!(stored.status, TransactionStatus::Pending);
    assert_eq!(stored.compute_units, 1_000);
    assert_eq!(stored.priority_fee, 2_000_000);
    assert_eq!(stored.data, "payload");
    assert_eq!(stored.created_at, 77);
    assert_eq!(stored.included_at, None);
    assert_eq!(
        state.marketplace.slots.get(&1).unwrap().state,
        SlotState::JitAuction { current_bid: 2_000_000, bidder: name("session-a") }
    );
    assert_eq!(
        state.auctions.jit_auctions.get(&1).unwrap().current_highest_bidder,
        Some((name("session-a"), 2_000_000))
    );
    let player = &state.game.player_stats[0];
    assert_eq!(player.session_id, "session-a");
    assert_eq!(player.balance, INITIAL_PLAYER_BALANCE - 2_000_000);
    assert_eq!(player.total_sol_spent, 2_000_000);
    assert_eq!(player.total_bids_placed, 1);
    assert!(player.has_placed_first_bid);
    assert!(player.participated_slots.contains(&1));
    assert_eq!(state.get_session_transactions("session-a"), vec![stored]);
}

#[test]
fn jit_submission_joins_an_open_auction() {
    let mut state = opened();
    let first = state.submit_jit_transaction_with(name("a"), 2_000_000, 1, name(""), 1_000_000, name("t1"), 0);
    assert!(first.0.is_ok());
    let (second, events) =
        state.submit_jit_transaction_with(name("b"), 3_000_000, 1, name(""), 9_000_000, name("t2"), 0);
    assert!(second.is_ok());
    assert_eq!(events.len(), 2);
    assert_eq!(state.auctions.jit_auctions.get(&1).unwrap().min_bid, 1_050_000);
    assert_eq!(
        state.marketplace.slots.get(&1).unwrap().state,
        SlotState::JitAuction { current_bid: 3_000_000, bidder: name("b") }
    );
}

#[test]
fn jit_submission_fails_step_by_step() {
    let mut state = opened();
    let (poor, events) = state.submit_jit_transaction_with(
        name("a"),
        INITIAL_PLAYER_BALANCE + 1,
        1,
        name(""),
        1_000_000,
        name("t1"),
        0,
    );
    assert_eq!(poor, Err(SubmitError::InsufficientBalance));
    assert!(events.is_empty());
    assert_eq!(state.game.player_stats.len(), 1);
    assert_eq!(state.game.player_stats[0].balance, INITIAL_PLAYER_BALANCE);
    assert!(state.auctions.jit_auctions.is_empty());

    state.game.player_stats[0].total_bids_placed = u32::MAX;
    let (stuck, _) =
        state.submit_jit_transaction_with(name("a"), 5, 1, name(""), 1_000_000, name("t1"), 0);
    assert_eq!(stuck, Err(SubmitError::PaymentFailed));
    state.game.player_stats[0].total_bids_placed = 0;

    let (heavy, events) = state.submit_jit_transaction_with(
        name("a"),
        2_000_000,
        48_000_001,
        name(""),
        1_000_000,
        name("t1"),
        0,
    );
    assert_eq!(heavy, Err(SubmitError::ComputeUnitsExceeded));
    assert!(events.is_empty());
    assert_eq!(state.game.player_stats[0].balance, INITIAL_PLAYER_BALANCE - 2_000_000);
    assert!(state.auctions.jit_auctions.is_empty());

    let (low, events) =
        state.submit_jit_transaction_with(name("a"), 1_000_000, 1, name(""), 1_000_000, name("t1"), 0);
    assert_eq!(low, Err(SubmitError::BidRejected(AuctionError::BidTooLow)));
    assert_eq!(events, vec![AppEvent::JitAuctionStarted { slot_number: 1, min_bid: 1_050_000 }]);
    assert_eq!(state.auctions.jit_auctions.len(), 1);
    assert_eq!(state.marketplace.slots.get(&1).unwrap().state, SlotState::Available);
    assert_eq!(state.get_total_transaction_count(), 0);
    assert_eq!(state.game.player_stats[0].balance, INITIAL_PLAYER_BALANCE - 3_000_000);
}

#[test]
fn aot_submission_runs_all_its_steps() {
    let mut state = opened();
    let (result, events) = state.submit_aot_transaction_with(
        name("s"),
        30,
        1_000_000,
        1_000,
        name("payload"),
        1_000_000,
        35,
        name("tx-9"),
        500,
    );
    assert_eq!(
        result,
        Ok(SubmitReceipt { transaction_id: name("tx-9"), slot_number: 30, bid_amount: 1_000_000 })
    );
    assert_eq!(events.len(), 3);
    assert_eq!(
        events[0],
        AppEvent::AotAuctionStarted { slot_number: 30, min_bid: 1_000_000, ends_at: 35_500 }
    );
    assert_eq!(
        events[1],
        AppEvent::AotBidSubmitted { slot_number: 30, bidder: name("s"), amount: 1_000_000 }
    );
    assert_eq!(
        state.marketplace.slots.get(&30).unwrap().state,
        SlotState::AotAuction {
            highest_bid: 1_000_000,
            highest_bidder: name("s"),
            bids: vec![(name("s"), 1_000_000)],
            ends_at: 35_500,
        }
    );
    let stored = state.get_transaction("tx-9").unwrap();
    assert_eq!(stored.inclusion_type, InclusionType::Aot { reserved_slot: 30 });
    assert_eq!(stored.created_at, 500);
    assert!(state.game.player_stats[0].participated_slots.contains(&30));
}

#[test]
fn aot_submission_shows_every_bid_of_the_auction_on_the_slot() {
    let mut state = opened();
    for (session, amount, id) in [("a", 1_000_000u64, "t1"), ("b", 2_000_000, "t2"), ("a", 3_500_000, "t3")] {
        let (result, _) = state.submit_aot_transaction_with(
            name(session),
            30,
            amount,
            1,
            name(""),
            1_000_000,
            35,
            name(id),
            500,
        );
        assert!(result.is_ok());
    }
    let (low, _) =
        state.submit_aot_transaction_with(name("c"), 30, 3_600_000, 1, name(""), 1_000_000, 35, name("t4"), 500);
    assert_eq!(low, Err(SubmitError::BidRejected(AuctionError::BidTooLow)));
    assert_eq!(
        state.marketplace.slots.get(&30).unwrap().state,
        SlotState::AotAuction {
            highest_bid: 3_500_000,
            highest_bidder: name("a"),
            bids: vec![(name("a"), 1_000_000), (name("b"), 2_000_000), (name("a"), 3_500_000)],
            ends_at: 35_500,
        }
    );
    assert_eq!(
        state.auctions.aot_standing(30),
        Some((vec![(name("a"), 1_000_000), (name("b"), 2_000_000), (name("a"), 3_500_000)], 35_500))
    );
    assert_eq!(state.auctions.aot_standing(31), None);
}

#[test]
fn aot_submission_fails_step_by_step() {
    let mut state = opened();
    state.tick_with(0, 1);
    state.tick_with(0, 1);
    let (behind, events) =
        state.submit_aot_transaction_with(name("s"), 1, 5, 1, name(""), 1_000, 35, name("t"), 0);
    assert_eq!(behind, Err(SubmitError::InvalidSlot));
    assert!(events.is_empty());
    assert!(state.game.player_stats.is_empty());

    let (poor, _) = state.submit_aot_transaction_with(
        name("s"),
        2,
        INITIAL_PLAYER_BALANCE + 1,
        1,
        name(""),
        1_000,
        35,
        name("t"),
        0,
    );
    assert_eq!(poor, Err(SubmitError::InsufficientBalance));

    let (heavy, _) = state.submit_aot_transaction_with(
        name("s"),
        2,
        5_000,
        u64::MAX,
        name(""),
        1_000,
        35,
        name("t"),
        0,
    );
    assert_eq!(heavy, Err(SubmitError::ComputeUnitsExceeded));

    let (low, events) =
        state.submit_aot_transaction_with(name("s"), 2, 999, 1, name(""), 1_000, 35, name("t"), 0);
    assert_eq!(low, Err(SubmitError::BidRejected(AuctionError::BidTooLow)));
    assert_eq!(events.len(), 1);

    let (late, events) = state.submit_aot_transaction_with(
        name("s"),
        2,
        5_000,
        1,
        name(""),
        1_000,
        35,
        name("t"),
        35_001,
    );
    assert_eq!(late, Err(SubmitError::BidRejected(AuctionError::AuctionEnded)));
    assert!(events.is_empty());
    assert_eq!(state.get_total_transaction_count(), 0);
}

#[test]
fn submissions_now_get_fresh_names() {
    let mut state = AppState::new(400, 1_000_000);
    let (jit, _) = state.submit_jit_transaction(name("s"), 2_000_000, 1, name("d"), 1_000_000);
    let jit = jit.unwrap();
    assert_eq!(jit.slot_number, 1);
    assert_eq!(jit.transaction_id.len(), 36);
    let (aot, _) = state.submit_aot_transaction(name("s"), 9, 2_000_000, 1, name("d"), 1_000_000, 35);
    let aot = aot.unwrap();
    assert_eq!(aot.slot_number, 9);
    assert_ne!(aot.transaction_id, jit.transaction_id);
    let stored = state.get_transaction(&aot.transaction_id).unwrap();
    assert!(stored.created_at > 1_600_000_000_000);
    assert_eq!(state.get_session_transaction_count("s"), 2);
}

#[test]
fn aot_submission_behind_the_current_slot_changes_nothing() {
    let mut state = opened();
    state.tick_with(0, 1);
    state.tick_with(0, 1);
    assert_eq!(state.marketplace.current_slot, 2);
    let slots = state.marketplace.slots.len();
    let (behind, events) = state.submit_aot_transaction(name("s"), 1, 2_000_000, 1, name("d"), 1_000_000, 35);
    assert_eq!(behind, Err(SubmitError::InvalidSlot));
    assert!(events.is_empty());
    assert!(state.game.player_stats.is_empty());
    assert_eq!(state.get_total_transaction_count(), 0);
    assert!(!state.auctions.has_aot_auction(1));
    assert_eq!(state.marketplace.current_slot, 2);
    assert_eq!(state.marketplace.slots.len(), slots);
}

#[test]
fn submission_fails_after_payment_where_no_auction_can_be_opened() {
    let mut state = opened();
    let (jit, events) =
        state.submit_jit_transaction_with(name("a"), 2_000_000, 1, name(""), u64::MAX, name("t1"), 0);
    assert_eq!(jit, Err(SubmitError::AuctionNotStarted));
    assert!(events.is_empty());
    assert_eq!(state.game.player_stats[0].balance, INITIAL_PLAYER_BALANCE - 2_000_000);
    assert!(!state.auctions.has_jit_auction(1));
    assert_eq!(state.get_total_transaction_count(), 0);
    let (aot, events) = state.submit_aot_transaction_with(
        name("a"),
        5,
        3_000_000,
        1,
        name(""),
        1_000_000,
        i64::MAX,
        name("t2"),
        0,
    );
    assert_eq!(aot, Err(SubmitError::AuctionNotStarted));
    assert!(events.is_empty());
    assert_eq!(state.game.player_stats[0].balance, INITIAL_PLAYER_BALANCE - 5_000_000);
    assert!(!state.auctions.has_aot_auction(5));
    assert_eq!(state.start_jit_auction_at(1, 1_000_000, 0).0, Ok(()));
    let (placed, _) =
        state.submit_jit_transaction_with(name("a"), 2_000_000, 1, name(""), u64::MAX, name("t3"), 0);
    assert!(placed.is_ok());
    assert_eq!(SubmitError::AuctionNotStarted.status_code(), 500);
    assert!(can_end_after(i64::MAX - 1_000, 1));
    assert!(!can_end_after(i64::MAX - 999, 1));
    assert!(can_end_after(i64::MIN, 9_223_372_036_854_775));
    assert!(!can_end_after(0, 9_223_372_036_854_776));
    assert!(!can_end_after(0, i64::MIN));
}

#[test]
fn submit_errors_map_to_status_codes() {
    assert_eq!(SubmitError::InvalidSlot.status_code(), 400);
    assert_eq!(SubmitError::InsufficientBalance.status_code(), 402);
    assert_eq!(SubmitError::PaymentFailed.status_code(), 402);
    assert_eq!(SubmitError::ComputeUnitsExceeded.status_code(), 400);
    assert_eq!(SubmitError::BidRejected(AuctionError::NotFound).status_code(), 400);
}
