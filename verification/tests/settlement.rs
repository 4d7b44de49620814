use std::collections::HashMap;

use raiku_simulator::config::port_setting;
use raiku_simulator::events::{AppEvent, EventBroadcaster};
use raiku_simulator::managers::game::names;
use raiku_simulator::managers::leaderboard::{can_display, display_name, top_entries};
use raiku_simulator::models::auction::{base_fee_fits, AotAuction, Bid, JitAuction};
use raiku_simulator::models::player::PlayerStats;
use raiku_simulator::models::slot::{Slot, SlotState};
use raiku_simulator::models::transaction::{Transaction, TransactionStatus};
use raiku_simulator::models::types::{InclusionType, TransactionType};
use raiku_simulator::services::refunds::aggregate_refunds;
use raiku_simulator::services::settlement::settle_tick;
use raiku_simulator::services::transaction::{
    announce_updates, loss_reason, outbid_reason, settle_loser_if_room, settle_loser_transactions,
    settle_winner, settle_winner_transactions, waiting_refund,
};
use raiku_simulator::state::AppState;
use raiku_simulator::utils::amount::{decimal_text, digit_text, sol_text};
use raiku_simulator::utils::ranking::score_less;
use raiku_simulator::utils::walk::slots_of;
use raiku_simulator::INITIAL_PLAYER_BALANCE;

fn name(text: &str) -> String {
    text.to_string()
}

fn resolved_tick() -> (AppState, raiku_simulator::state::TickReport) {
    let mut state = AppState::new_at(400, 1_000_000, 0);
    let jit = state.submit_jit_transaction_with(name("jit-w"), 2_000_000, 1, name(""), 1_000_000, name("j1"), 0);
    assert!(jit.0.is_ok());
    for (session, amount, id) in
        [("a", 1_000_000u64, "a1"), ("b", 3_000_000, "b1"), ("a", 5_000_000, "a2"), ("c", 7_000_000, "c1")]
    {
        let placed = state.submit_aot_transaction_with(
            name(session),
            1,
            amount,
            1,
            name(""),
            1_000_000,
            30,
            name(id),
            0,
        );
        assert!(placed.0.is_ok());
    }
    let report = state.tick_with(1, 9);
    (state, report)
}

fn balance_of(state: &AppState, session: &str) -> u64 {
    state.game.player_stats[state.game.find_player(session).unwrap()].balance
}

#[test]
fn settle_tick_settles_each_winner_and_each_loser_once() {
    let (mut state, report) = resolved_tick();
    let skipped = settle_tick(&mut state, &report);
    assert!(skipped.is_empty());
    assert_eq!(balance_of(&state, "jit-w"), INITIAL_PLAYER_BALANCE - 2_000_000);
    assert_eq!(balance_of(&state, "a"), INITIAL_PLAYER_BALANCE);
    assert_eq!(balance_of(&state, "b"), INITIAL_PLAYER_BALANCE);
    assert_eq!(balance_of(&state, "c"), INITIAL_PLAYER_BALANCE - 7_000_000);
    assert_eq!(
        state.get_transaction("j1").unwrap().status,
        TransactionStatus::AuctionWon { slot: 1, winning_bid: 2_000_000 }
    );
    assert_eq!(
        state.get_transaction("c1").unwrap().status,
        TransactionStatus::AuctionWon { slot: 1, winning_bid: 7_000_000 }
    );
    for id in ["a1", "a2", "b1"] {
        assert_eq!(
            state.get_transaction(id).unwrap().status,
            TransactionStatus::Failed { reason: name("Lost auction for slot 1") }
        );
    }
    let loser = &state.game.player_stats[state.game.find_player("a").unwrap()];
    assert_eq!(loser.total_auctions_participated, 1);
    let quiet = state.tick_with(1, 9);
    assert!(settle_tick(&mut state, &quiet).is_empty());
    assert_eq!(balance_of(&state, "a"), INITIAL_PLAYER_BALANCE);
}

#[test]
fn settle_tick_gives_back_the_sessions_without_room() {
    let (mut state, report) = resolved_tick();
    let loser = state.game.find_player("a").unwrap();
    state.game.player_stats[loser].balance = u64::MAX;
    let winner = state.game.find_player("jit-w").unwrap();
    state.game.player_stats[winner].total_auctions_won = u32::MAX;
    let skipped = settle_tick(&mut state, &report);
    assert_eq!(skipped, vec![name("jit-w"), name("a")]);
    assert_eq!(balance_of(&state, "a"), u64::MAX);
    assert_eq!(state.get_transaction("a1").unwrap().status, TransactionStatus::Pending);
    assert_eq!(state.get_transaction("j1").unwrap().status, TransactionStatus::Pending);
    assert_eq!(balance_of(&state, "b"), INITIAL_PLAYER_BALANCE);
    assert_eq!(
        state.get_transaction("b1").unwrap().status,
        TransactionStatus::Failed { reason: name("Lost auction for slot 1") }
    );
    assert_eq!(
        state.get_transaction("c1").unwrap().status,
        TransactionStatus::AuctionWon { slot: 1, winning_bid: 7_000_000 }
    );
}

#[test]
fn tick_settlement_pays_winners_and_refunds_losers() {
    let mut state = AppState::new_at(400, 1_000_000, 0);
    let jit = state.submit_jit_transaction_with(name("jit-w"), 2_000_000, 1, name(""), 1_000_000, name("j1"), 0);
    assert!(jit.0.is_ok());
    let low = state.submit_jit_transaction_with(name("jit-l"), 1_500_000, 1, name(""), 1_000_000, name("j2"), 0);
    assert!(low.0.is_err());
    for (session, amount, id) in
        [("a", 1_000_000u64, "a1"), ("b", 3_000_000, "b1"), ("a", 5_000_000, "a2"), ("c", 7_000_000, "c1")]
    {
        let placed = state.submit_aot_transaction_with(
            name(session),
            1,
            amount,
            1,
            name(""),
            1_000_000,
            30,
            name(id),
            0,
        );
        assert!(placed.0.is_ok());
    }
    let report = state.tick_with(1, 9);
    assert_eq!(report.jit_winner, Some((name("jit-w"), 2_000_000)));
    assert_eq!(report.aot_resolved.len(), 1);
    let jit_done =
        settle_winner(&mut state, "jit-w", 1, 2_000_000, InclusionType::Jit, TransactionType::Jit).unwrap();
    assert_eq!(jit_done.events.len(), 1);
    let (slot, winner, bid, losers) = report.aot_resolved[0].clone();
    assert_eq!((slot, winner.as_str(), bid), (1, "c", 7_000_000));
    let inclusion = InclusionType::Aot { reserved_slot: 1 };
    let aot_done = settle_winner(&mut state, "c", 1, bid, inclusion, TransactionType::Aot).unwrap();
    assert_eq!(aot_done.events.len(), 1);
    assert_eq!(aot_done.refund_total, 0);
    let refunds = aggregate_refunds(&losers);
    assert_eq!(refunds, vec![(name("a"), 6_000_000), (name("b"), 3_000_000)]);
    let mut announced = 0;
    for (loser, refund) in refunds {
        let (changed, events) = settle_loser_if_room(&mut state, &loser, 1, refund, inclusion).unwrap();
        assert_eq!(changed.len(), events.len());
        announced += events.len();
    }
    assert_eq!(announced, 3);
    let balance = |state: &AppState, session: &str| -> u64 {
        state.game.player_stats[state.game.find_player(session).unwrap()].balance
    };
    assert_eq!(balance(&state, "jit-w"), INITIAL_PLAYER_BALANCE - 2_000_000);
    assert_eq!(balance(&state, "jit-l"), INITIAL_PLAYER_BALANCE - 1_500_000);
    assert_eq!(balance(&state, "a"), INITIAL_PLAYER_BALANCE);
    assert_eq!(balance(&state, "b"), INITIAL_PLAYER_BALANCE);
    assert_eq!(balance(&state, "c"), INITIAL_PLAYER_BALANCE - 7_000_000);
    assert_eq!(
        state.get_transaction("j1").unwrap().status,
        TransactionStatus::AuctionWon { slot: 1, winning_bid: 2_000_000 }
    );
    assert_eq!(
        state.get_transaction("c1").unwrap().status,
        TransactionStatus::AuctionWon { slot: 1, winning_bid: 7_000_000 }
    );
    for id in ["a1", "a2", "b1"] {
        assert_eq!(
            state.get_transaction(id).unwrap().status,
            TransactionStatus::Failed { reason: name("Lost auction for slot 1") }
        );
    }
    let winner = &state.game.player_stats[state.game.find_player("c").unwrap()];
    assert_eq!(winner.total_auctions_won, 1);
    assert_eq!(winner.aot_wins, 1);
    assert_eq!(winner.total_auctions_participated, 1);
    let loser = &state.game.player_stats[state.game.find_player("a").unwrap()];
    assert_eq!(loser.total_auctions_won, 0);
    assert_eq!(loser.total_auctions_participated, 1);
    let quiet = state.tick_with(1, 9);
    assert!(quiet.jit_winner.is_none() && quiet.aot_resolved.is_empty());
}

#[test]
fn settlement_is_skipped_when_the_record_has_no_room() {
    let mut state = AppState::new_at(400, 1_000_000, 0);
    assert!(state.game.pay_for_bid(name("w"), 5, 3).is_ok());
    state.add_transaction(name("w"), Transaction::jit_with(name("t"), name("w"), 1, 5, name(""), 0));
    state.game.player_stats[0].total_auctions_won = u32::MAX;
    let skipped = settle_winner(&mut state, "w", 3, 5, InclusionType::Jit, TransactionType::Jit);
    assert!(skipped.is_none());
    assert_eq!(state.get_transaction("t").unwrap().status, TransactionStatus::Pending);
    state.game.player_stats[0].total_auctions_won = 0;
    state.game.player_stats[0].balance = u64::MAX;
    assert!(settle_loser_if_room(&mut state, "w", 3, 1, InclusionType::Jit).is_none());
    assert!(settle_loser_if_room(&mut state, "w", 3, u128::MAX, InclusionType::Jit).is_none());
    assert!(settle_loser_if_room(&mut state, "nobody", 3, u128::MAX, InclusionType::Jit).is_some());
    let done = settle_loser_if_room(&mut state, "w", 3, 0, InclusionType::Jit).unwrap();
    assert_eq!(done.0.len(), 1);
    let done = settle_winner(&mut state, "w", 3, 5, InclusionType::Jit, TransactionType::Jit).unwrap();
    assert!(done.changed.is_empty());
    assert_eq!(state.game.player_stats[0].total_auctions_won, 1);
}

#[test]
fn refund_is_known_before_the_settlement() {
    let mut state = AppState::new_at(400, 1_000_000, 0);
    for (id, fee) in [("a", 10u64), ("b", u64::MAX), ("c", u64::MAX), ("d", 500_000)] {
        state.add_transaction(name("w"), Transaction::jit_with(name(id), name("w"), 1, fee, name(""), 0));
    }
    assert_eq!(
        waiting_refund(&state.ledger, "w", 500_000, InclusionType::Jit),
        10 + 2 * (u64::MAX as u128)
    );
    assert_eq!(waiting_refund(&state.ledger, "w", 500_000, InclusionType::Aot { reserved_slot: 1 }), 0);
    assert_eq!(waiting_refund(&state.ledger, "x", 500_000, InclusionType::Jit), 0);
    let (changed, refund) =
        settle_winner_transactions(&mut state.ledger, "w", 4, 500_000, InclusionType::Jit, 77);
    assert_eq!(refund, 10 + 2 * (u64::MAX as u128));
    assert_eq!(changed.len(), 4);
    assert_eq!(changed[3].status, TransactionStatus::AuctionWon { slot: 4, winning_bid: 500_000 });
    assert_eq!(changed[3].included_at, Some(77));
    let events = announce_updates(&changed);
    assert_eq!(events.len(), 4);
    assert_eq!(events[0], AppEvent::TransactionUpdated { transaction: changed[0].clone() });
    assert!(settle_loser_transactions(&mut state.ledger, "w", 4, InclusionType::Jit).is_empty());
}

#[test]
fn amounts_are_written_in_sol() {
    assert_eq!(sol_text(0), "0");
    assert_eq!(sol_text(1), "0.000000001");
    assert_eq!(sol_text(1_000_000), "0.001");
    assert_eq!(sol_text(1_050_000_000), "1.05");
    assert_eq!(sol_text(1_000_000_000), "1");
    assert_eq!(sol_text(20_000_000_000), "20");
    assert_eq!(sol_text(123_456_789_012), "123.456789012");
    assert_eq!(sol_text(999_999_999), "0.999999999");
    assert_eq!(sol_text(100_000_000), "0.1");
    assert_eq!(sol_text(10_100_000_010), "10.10000001");
    assert_eq!(sol_text(u64::MAX), "18446744073.709551615");
    for digit in 0..10u64 {
        assert_eq!(digit_text(digit), digit.to_string());
    }
    for number in [0u64, 7, 10, 42, 100, 1_234_567_890, u64::MAX - 1, u64::MAX] {
        assert_eq!(decimal_text(number), number.to_string());
    }
    assert_eq!(decimal_text(9_007), "9007");
}

#[test]
fn failure_reasons_name_the_slot_and_the_refund() {
    assert_eq!(loss_reason(0), "Lost auction for slot 0");
    assert_eq!(loss_reason(u64::MAX), "Lost auction for slot 18446744073709551615");
    assert_eq!(outbid_reason(2_500_000), "Outbid by higher amount. Refunding 0.0025 SOL");
    assert_eq!(outbid_reason(3_000_000_000), "Outbid by higher amount. Refunding 3 SOL");
}

#[test]
fn tick_needs_room_for_the_window() {
    let mut state = AppState::new_at(400, 1_000_000, 0);
    assert!(state.can_tick());
    state.marketplace.current_slot = u64::MAX - 100;
    assert!(state.can_tick());
    state.marketplace.current_slot = u64::MAX - 99;
    assert!(!state.can_tick());
    state.marketplace.current_slot = 0;
    state.marketplace.base_fee = u64::MAX;
    assert!(!state.can_tick());
}

#[test]
fn base_fee_fits_while_the_premium_is_an_amount() {
    assert!(base_fee_fits(0));
    assert!(base_fee_fits(1_000_000));
    assert!(base_fee_fits(17_568_327_689_247_192_014));
    assert!(!base_fee_fits(17_568_327_689_247_192_016));
    assert!(!base_fee_fits(u64::MAX));
    assert_eq!(JitAuction::new_at(1, 17_568_327_689_247_192_000, 0).min_bid, 18_446_744_073_709_551_600);
}

#[test]
fn broadcaster_delivers_to_every_subscriber() {
    let mut broadcaster = EventBroadcaster::new();
    broadcaster.broadcast(AppEvent::SlotAdvanced { current_slot: 1 });
    let mut first = broadcaster.subscribe();
    let mut second = broadcaster.clone().subscribe();
    let events = vec![
        AppEvent::SlotAdvanced { current_slot: 2 },
        AppEvent::SlotsUpdated { slots: vec![Slot::new_at(2, 5, 6, 7)] },
    ];
    broadcaster.broadcast_all(&events);
    for receiver in [&mut first, &mut second] {
        assert_eq!(receiver.try_recv().unwrap(), events[0]);
        assert_eq!(receiver.try_recv().unwrap(), events[1]);
        assert!(receiver.try_recv().is_err());
    }
}

#[test]
fn slow_subscriber_loses_the_oldest_events() {
    let mut broadcaster = EventBroadcaster::new();
    let mut receiver = broadcaster.subscribe();
    for slot in 0..20_000u64 {
        broadcaster.broadcast(AppEvent::SlotAdvanced { current_slot: slot });
    }
    assert!(receiver.try_recv().is_err());
    match receiver.try_recv().unwrap() {
        AppEvent::SlotAdvanced { current_slot } => assert!(current_slot > 0),
        other => panic!("unexpected event {:?}", other),
    }
}

#[test]
fn copies_equal_their_sources() {
    let mut slot = Slot::new_at(1, 2, 3, 4);
    slot.show_aot_bid(name("a"), 9, vec![(name("b"), 5), (name("a"), 9)], 10);
    assert_eq!(slot.clone(), slot);
    assert_eq!(slot.state.clone(), slot.state);
    assert_ne!(slot.state, SlotState::Available);
    let event = AppEvent::SlotsUpdated { slots: vec![slot.clone(), Slot::new_at(5, 6, 7, 8)] };
    assert_eq!(event.clone(), event);
    let mut jit = JitAuction::new_at(1, 100, 0);
    assert!(jit.submit_bid(name("a"), 500).is_ok());
    assert_eq!(jit.clone(), jit);
    let mut aot = AotAuction::new_at(1, 100, 5, 0);
    assert!(aot.submit_bid_at(name("a"), 500, 1).is_ok());
    assert_eq!(aot.clone(), aot);
    let bid = Bid {
        bidder_id: name("a"),
        amount: 1,
        slot_number: 2,
        timestamp: 3,
        bid_type: TransactionType::Aot,
    };
    assert_eq!(bid.clone(), bid);
}

#[test]
fn slots_of_a_map_are_its_keys() {
    let mut map: HashMap<u64, u8> = HashMap::new();
    assert!(slots_of(&map).is_empty());
    for key in [5u64, 1, 9] {
        map.insert(key, 0);
    }
    let mut slots = slots_of(&map);
    slots.sort();
    assert_eq!(slots, vec![1, 5, 9]);
}

#[test]
fn helpers_of_the_leaderboard() {
    assert_eq!(display_name("abcdefgh"), "Player abcdef");
    assert_eq!(display_name("éabcdxyz"), "Player éabcd");
    assert_eq!(display_name("sixsix"), "Player sixsix");
    assert!(can_display("abcdefgh"));
    assert!(can_display("sixsix"));
    assert!(!can_display(""));
    assert!(!can_display("abc"));
    assert!(!can_display("abcdeéfg"));
    assert!(names(&[name("a"), name("b")], "b"));
    assert!(!names(&[name("a"), name("b")], "c"));
    assert!(score_less((1, 3), (1, 2)));
    assert!(!score_less((2, 4), (1, 2)));
    let players = vec![PlayerStats::new(name("first-one")), PlayerStats::new(name("second123"))];
    let entries = top_entries(&players, &vec![1, 0], &vec![(1, 1), (2, 1)]);
    assert_eq!(entries.len(), 2);
    assert_eq!(entries[0].session_id, "first-one");
    assert_eq!(entries[0].rank, 1);
    assert_eq!(entries[1].display_name, "Player second");
}

#[test]
fn port_is_read_from_its_text() {
    assert_eq!(port_setting(Some(name("3000"))), 3000);
    assert_eq!(port_setting(Some(name("4294967295"))), u32::MAX);
    assert_eq!(port_setting(Some(name("4294967296"))), 8080);
    assert_eq!(port_setting(Some(name(" 80"))), 8080);
    assert_eq!(port_setting(None), 8080);
}
