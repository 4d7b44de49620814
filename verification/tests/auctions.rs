use raiku_simulator::managers::auction::AuctionManager;
use raiku_simulator::models::auction::{AotAuction, AuctionError, JitAuction};
use raiku_simulator::MIN_AOT_BID_INCREMENT;

const SOL: u64 = 1_000_000_000;

fn name(text: &str) -> String {
    text.to_string()
}

#[test]
fn jit_minimum_bid_is_base_fee_with_premium() {
    let auction = JitAuction::new_at(5, SOL / 1000, 7);
    assert_eq!(auction.min_bid, 1_050_000);
    assert_eq!(auction.slot_number, 5);
    assert_eq!(auction.created_at, 7);
    assert_eq!(auction.current_highest_bidder, None);
}

#[test]
fn jit_minimum_bid_rounds_down() {
    assert_eq!(JitAuction::new_at(1, 19, 0).min_bid, 19);
    assert_eq!(JitAuction::new_at(1, 20, 0).min_bid, 21);
    assert_eq!(JitAuction::new_at(1, 0, 0).min_bid, 0);
    assert_eq!(JitAuction::new_at(1, 1_000, 0).min_bid, 1_050);
}

#[test]
fn jit_low_and_late_bids_are_refused() {
    let mut manager = AuctionManager::new();
    assert_eq!(manager.start_jit_auction_at(5, SOL / 1000, 0), Ok(()));
    assert_eq!(manager.jit_auctions.get(&5).unwrap().min_bid, 1_050_000);
    assert_eq!(manager.submit_jit_bid(5, name("A"), 900_000), Err(AuctionError::BidTooLow));
    assert_eq!(manager.jit_auctions.get(&5).unwrap().current_highest_bidder, None);
    assert_eq!(manager.submit_jit_bid(5, name("A"), 2_000_000), Ok(()));
    assert_eq!(
        manager.jit_auctions.get(&5).unwrap().current_highest_bidder,
        Some((name("A"), 2_000_000))
    );
    assert_eq!(manager.submit_jit_bid(5, name("B"), 1_500_000), Err(AuctionError::BidTooLow));
    assert_eq!(manager.resolve_jit(5), Some((name("A"), 2_000_000)));
    assert!(manager.jit_auctions.is_empty());
    assert_eq!(manager.resolve_jit(5), None);
}

#[test]
fn jit_equal_bid_does_not_take_the_lead() {
    let mut auction = JitAuction::new_at(1, 1_000, 0);
    assert_eq!(auction.submit_bid(name("A"), 2_000), Ok(()));
    assert_eq!(auction.submit_bid(name("B"), 2_000), Err(AuctionError::BidTooLow));
    assert_eq!(auction.resolve(), Some((name("A"), 2_000)));
    assert_eq!(auction.submit_bid(name("B"), 2_001), Ok(()));
    assert_eq!(auction.resolve(), Some((name("B"), 2_001)));
}

#[test]
fn jit_bid_at_the_minimum_is_taken() {
    let mut auction = JitAuction::new_at(1, 1_000, 0);
    assert_eq!(auction.submit_bid(name("A"), 1_049), Err(AuctionError::BidTooLow));
    assert_eq!(auction.submit_bid(name("A"), 1_050), Ok(()));
}

#[test]
fn jit_leader_is_the_highest_taken_bid() {
    let mut auction = JitAuction::new_at(9, 100, 0);
    let bids: Vec<(&str, u64)> =
        vec![("a", 50), ("b", 105), ("c", 105), ("d", 300), ("e", 200), ("f", 301), ("g", 10)];
    let mut highest: Option<(String, u64)> = None;
    for (bidder, amount) in bids {
        let result = auction.submit_bid(name(bidder), amount);
        let beats = match &highest {
            Some((_, leading)) => amount > *leading,
            None => true,
        };
        if amount >= 105 && beats {
            assert_eq!(result, Ok(()));
            highest = Some((name(bidder), amount));
        } else {
            assert_eq!(result, Err(AuctionError::BidTooLow));
        }
        assert_eq!(auction.resolve(), highest);
    }
    assert_eq!(auction.resolve(), Some((name("f"), 301)));
}

#[test]
fn jit_start_twice_is_refused() {
    let mut manager = AuctionManager::new();
    assert_eq!(manager.start_jit_auction_at(3, 1_000, 0), Ok(()));
    assert_eq!(manager.submit_jit_bid(3, name("A"), 5_000), Ok(()));
    assert_eq!(manager.start_jit_auction_at(3, 9_000, 1), Err(AuctionError::AlreadyExists));
    assert_eq!(manager.jit_auctions.get(&3).unwrap().min_bid, 1_050);
    assert_eq!(manager.jit_auctions.get(&3).unwrap().current_highest_bidder, Some((name("A"), 5_000)));
}

#[test]
fn jit_bid_without_auction_is_not_found() {
    let mut manager = AuctionManager::new();
    assert_eq!(manager.submit_jit_bid(3, name("A"), 5_000), Err(AuctionError::NotFound));
    assert_eq!(manager.submit_aot_bid_at(3, name("A"), 5_000, 0), Err(AuctionError::NotFound));
}

#[test]
fn aot_bid_below_the_increment_is_refused() {
    let mut manager = AuctionManager::new();
    assert_eq!(manager.start_aot_auction_at(50, SOL / 100, 30, 1_000), Ok(()));
    assert_eq!(manager.aot_auctions.get(&50).unwrap().ends_at, 31_000);
    assert_eq!(manager.submit_aot_bid_at(50, name("A"), 10_000_000, 1_001), Ok(()));
    assert_eq!(
        manager.submit_aot_bid_at(50, name("B"), 10_500_000, 1_002),
        Err(AuctionError::BidTooLow)
    );
    assert_eq!(manager.submit_aot_bid_at(50, name("B"), 12_000_000, 1_003), Ok(()));
    assert!(manager.resolve_ready_aot_at(49, 1_004).is_empty());
    let resolved = manager.resolve_ready_aot_at(50, 1_004);
    assert_eq!(
        resolved,
        vec![(50, name("B"), 12_000_000, vec![(name("A"), 10_000_000)])]
    );
    assert!(manager.aot_auctions.is_empty());
}

#[test]
fn aot_next_bid_must_reach_highest_plus_increment() {
    let mut auction = AotAuction::new_at(7, 5_000, 60, 0);
    assert_eq!(auction.get_min_next_bid(), 5_000);
    assert_eq!(auction.submit_bid_at(name("A"), 4_999, 1), Err(AuctionError::BidTooLow));
    assert_eq!(auction.submit_bid_at(name("A"), 5_000, 1), Ok(()));
    assert_eq!(auction.get_min_next_bid(), 5_000 + MIN_AOT_BID_INCREMENT);
    assert_eq!(
        auction.submit_bid_at(name("B"), 5_000 + MIN_AOT_BID_INCREMENT - 1, 2),
        Err(AuctionError::BidTooLow)
    );
    assert_eq!(auction.submit_bid_at(name("B"), 5_000 + MIN_AOT_BID_INCREMENT, 2), Ok(()));
    assert_eq!(auction.bids.len(), 2);
    assert_eq!(auction.bids[1], (name("B"), 1_005_000, 2));
}

#[test]
fn aot_bid_near_the_largest_amount_is_refused_without_overflow() {
    let mut auction = AotAuction::new_at(7, 0, 60, 0);
    assert_eq!(auction.submit_bid_at(name("A"), u64::MAX - 5, 1), Ok(()));
    assert_eq!(auction.submit_bid_at(name("B"), u64::MAX, 2), Err(AuctionError::BidTooLow));
    assert_eq!(auction.bids.len(), 1);
}

#[test]
fn aot_bid_after_the_deadline_is_refused() {
    let mut auction = AotAuction::new_at(7, 5_000, 60, 1_000);
    assert_eq!(auction.ends_at, 61_000);
    assert!(!auction.has_ended_at(61_000));
    assert!(auction.has_ended_at(61_001));
    assert_eq!(auction.submit_bid_at(name("A"), 9_000, 61_000), Ok(()));
    assert_eq!(auction.submit_bid_at(name("B"), 9_000_000, 61_001), Err(AuctionError::AuctionEnded));
    assert_eq!(auction.submit_bid_at(name("B"), 1, 61_001), Err(AuctionError::AuctionEnded));
    assert_eq!(auction.bids.len(), 1);
}

#[test]
fn aot_is_due_at_its_deadline_or_its_slot() {
    let auction = AotAuction::new_at(10, 5_000, 60, 0);
    assert!(!auction.should_resolve_at(9, 60_000));
    assert!(auction.should_resolve_at(10, 0));
    assert!(auction.should_resolve_at(11, 0));
    assert!(auction.should_resolve_at(0, 60_001));
}

#[test]
fn aot_highest_bid_is_the_first_of_equals() {
    let mut auction = AotAuction::new_at(10, 0, 60, 0);
    auction.bids.push((name("A"), 5, 1));
    auction.bids.push((name("B"), 9, 2));
    auction.bids.push((name("C"), 9, 3));
    auction.bids.push((name("D"), 2, 4));
    assert_eq!(auction.get_highest_bid(), Some(&(name("B"), 9, 2)));
    assert_eq!(auction.resolve(), Some((name("B"), 9)));
    assert_eq!(
        auction.get_losers(),
        vec![(name("A"), 5), (name("C"), 9), (name("D"), 2)]
    );
}

#[test]
fn aot_without_bids_has_no_winner_and_no_losers() {
    let auction = AotAuction::new_at(10, 0, 60, 0);
    assert_eq!(auction.get_highest_bid(), None);
    assert_eq!(auction.resolve(), None);
    assert!(auction.get_losers().is_empty());
}

#[test]
fn aot_earlier_bids_of_the_winner_are_not_refunded() {
    let mut auction = AotAuction::new_at(10, 1_000_000, 60, 0);
    assert_eq!(auction.submit_bid_at(name("A"), 1_000_000, 1), Ok(()));
    assert_eq!(auction.submit_bid_at(name("B"), 2_000_000, 2), Ok(()));
    assert_eq!(auction.submit_bid_at(name("A"), 3_000_000, 3), Ok(()));
    assert_eq!(auction.resolve(), Some((name("A"), 3_000_000)));
    assert_eq!(auction.get_losers(), vec![(name("B"), 2_000_000)]);
}

#[test]
fn aot_refunds_and_winning_bid_make_the_sum_of_bids() {
    let mut auction = AotAuction::new_at(10, 1_000_000, 60, 0);
    let bids: Vec<(&str, u64)> =
        vec![("A", 1_000_000), ("B", 2_000_000), ("C", 3_500_000), ("B", 5_000_000), ("W", 9_000_000)];
    let mut sum: u64 = 0;
    for (bidder, amount) in bids {
        assert_eq!(auction.submit_bid_at(name(bidder), amount, 1), Ok(()));
        sum += amount;
    }
    let (winner, winning_bid) = auction.resolve().unwrap();
    assert_eq!(winner, "W");
    let refunds: u64 = auction.get_losers().iter().map(|entry| entry.1).sum();
    assert_eq!(refunds + winning_bid, sum);
}

#[test]
fn aot_resolution_skips_auctions_that_are_not_due_and_drops_empty_ones() {
    let mut manager = AuctionManager::new();
    assert_eq!(manager.start_aot_auction_at(5, 100, 10, 0), Ok(()));
    assert_eq!(manager.start_aot_auction_at(6, 100, 10, 0), Ok(()));
    assert_eq!(manager.start_aot_auction_at(60, 100, 1_000, 0), Ok(()));
    assert_eq!(manager.start_aot_auction_at(61, 100, 5, 0), Ok(()));
    assert_eq!(manager.submit_aot_bid_at(5, name("A"), 100, 1), Ok(()));
    assert_eq!(manager.submit_aot_bid_at(60, name("B"), 100, 1), Ok(()));
    assert_eq!(manager.submit_aot_bid_at(61, name("C"), 100, 1), Ok(()));
    let mut resolved = manager.resolve_ready_aot_at(6, 5_001);
    resolved.sort();
    assert_eq!(
        resolved,
        vec![(5, name("A"), 100, vec![]), (61, name("C"), 100, vec![])]
    );
    assert_eq!(manager.aot_auctions.len(), 1);
    assert!(manager.aot_auctions.contains_key(&60));
}

#[test]
fn aot_start_twice_is_refused() {
    let mut manager = AuctionManager::new();
    assert_eq!(manager.start_aot_auction_at(5, 100, 10, 0), Ok(()));
    assert_eq!(manager.start_aot_auction_at(5, 900, 99, 7), Err(AuctionError::AlreadyExists));
    assert_eq!(manager.aot_auctions.get(&5).unwrap().min_bid, 100);
    assert_eq!(manager.aot_auctions.get(&5).unwrap().ends_at, 10_000);
}

#[test]
fn active_auctions_are_listed_once_each() {
    let mut manager = AuctionManager::new();
    assert_eq!(manager.start_jit_auction_at(1, 100, 0), Ok(()));
    assert_eq!(manager.start_jit_auction_at(2, 100, 0), Ok(()));
    assert_eq!(manager.start_aot_auction_at(9, 100, 10, 0), Ok(()));
    let mut jit: Vec<u64> = manager.get_active_jit_auctions().iter().map(|a| a.slot_number).collect();
    jit.sort();
    assert_eq!(jit, vec![1, 2]);
    let aot: Vec<u64> = manager.get_active_aot_auctions().iter().map(|a| a.slot_number).collect();
    assert_eq!(aot, vec![9]);
}

#[test]
fn clock_variants_open_and_close_auctions() {
    let mut manager = AuctionManager::new();
    assert_eq!(manager.start_jit_auction(1, 1_000), Ok(()));
    assert!(manager.jit_auctions.get(&1).unwrap().created_at > 1_600_000_000_000);
    assert_eq!(manager.start_aot_auction(2, 1_000, 30), Ok(()));
    let auction = manager.aot_auctions.get(&2).unwrap();
    assert_eq!(auction.ends_at - auction.created_at, 30_000);
    assert!(!auction.has_ended());
    assert!(!auction.should_resolve(1));
    assert!(auction.should_resolve(2));
    assert_eq!(manager.submit_aot_bid(2, name("A"), 1_000), Ok(()));
    assert!(manager.resolve_ready_aot(1).is_empty());
    assert_eq!(manager.resolve_ready_aot(2), vec![(2, name("A"), 1_000, vec![])]);
    assert_eq!(manager.start_aot_auction(3, 1_000, -5), Ok(()));
    assert!(manager.aot_auctions.get(&3).unwrap().has_ended());
    assert_eq!(manager.submit_aot_bid(3, name("A"), 1_000), Err(AuctionError::AuctionEnded));
}
