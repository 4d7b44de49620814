use raiku_simulator::models::marketplace::SlotMarketplace;
use raiku_simulator::models::slot::{Slot, SlotState};
use raiku_simulator::models::types::TransactionType;
use raiku_simulator::{MAX_COMPUTE_UNITS_PER_SLOT, WINDOW_SIZE};

fn name(text: &str) -> String {
    text.to_string()
}

#[test]
fn new_slot_is_available_with_full_capacity() {
    let slot = Slot::new_at(4, 1_000, 777, 5);
    assert_eq!(slot.slot_number, 4);
    assert_eq!(slot.state, SlotState::Available);
    assert_eq!(slot.estimated_time, 1_000);
    assert_eq!(slot.base_fee, 777);
    assert_eq!(slot.compute_units_available, MAX_COMPUTE_UNITS_PER_SLOT);
    assert_eq!(slot.compute_units_used, 0);
    assert_eq!(slot.created_at, 5);
    assert!(slot.is_available());
}

#[test]
fn slot_is_stale_only_after_its_time() {
    let slot = Slot::new_at(4, 1_000, 777, 5);
    assert!(!slot.is_expired_at(999));
    assert!(!slot.is_expired_at(1_000));
    assert!(slot.is_expired_at(1_001));
    assert!(Slot::new_at(1, 0, 1, 0).is_expired());
    assert!(!Slot::new_at(1, i64::MAX, 1, 0).is_expired());
}

#[test]
fn slot_passes_from_available_to_filled() {
    let mut slot = Slot::new(4, 1_000, 777);
    assert!(slot.is_available());
    slot.show_jit_bid(name("A"), 900);
    assert_eq!(slot.state, SlotState::JitAuction { current_bid: 900, bidder: name("A") });
    assert!(!slot.is_available());
    slot.reserve(name("A"), 900, TransactionType::Jit);
    assert_eq!(
        slot.state,
        SlotState::Reserved { winner: name("A"), winning_bid: 900, transaction_type: TransactionType::Jit }
    );
    slot.fill_at(name("A"), name("tx"), 200_000, 55);
    assert_eq!(
        slot.state,
        SlotState::Filled { winner: name("A"), transaction_id: name("tx"), execution_time: 55 }
    );
    assert_eq!(slot.compute_units_used, 200_000);
    slot.fill(name("A"), name("tx2"), 1);
    assert_eq!(slot.compute_units_used, 200_001);
}

#[test]
fn slot_shows_the_standing_of_its_aot_auction() {
    let mut slot = Slot::new_at(4, 1_000, 777, 0);
    slot.show_aot_bid(name("B"), 1_200, vec![(name("A"), 1_000), (name("B"), 1_200)], 9_000);
    assert_eq!(
        slot.state,
        SlotState::AotAuction {
            highest_bid: 1_200,
            highest_bidder: name("B"),
            bids: vec![(name("A"), 1_000), (name("B"), 1_200)],
            ends_at: 9_000,
        }
    );
}

#[test]
fn stale_slot_expires_unless_filled() {
    let mut open = Slot::new_at(1, 100, 1, 0);
    open.expire_if_stale(100);
    assert_eq!(open.state, SlotState::Available);
    open.expire_if_stale(101);
    assert_eq!(open.state, SlotState::Expired);
    let mut reserved = Slot::new_at(2, 100, 1, 0);
    reserved.reserve(name("A"), 5, TransactionType::Aot);
    reserved.expire_if_stale(500);
    assert_eq!(reserved.state, SlotState::Expired);
    let mut filled = Slot::new_at(3, 100, 1, 0);
    filled.fill_at(name("A"), name("tx"), 1, 50);
    let before = filled.clone();
    filled.expire_if_stale(500);
    assert_eq!(filled, before);
}

#[test]
fn marketplace_opens_with_a_full_window() {
    let market = SlotMarketplace::new_at(400, 1_000_000, 10_000);
    assert_eq!(market.current_slot, 0);
    assert_eq!(market.slot_duration_ms, 400);
    assert_eq!(market.base_fee, 1_000_000);
    assert_eq!(market.slots.len(), WINDOW_SIZE as usize);
    for number in 0..WINDOW_SIZE {
        let slot = market.slots.get(&number).unwrap();
        assert_eq!(slot.slot_number, number);
        assert_eq!(slot.state, SlotState::Available);
        assert_eq!(slot.estimated_time, 10_000 + 400 * number as i64);
        assert_eq!(slot.created_at, 10_000);
        assert!(slot.base_fee >= 1_000_000 && slot.base_fee < 10_000_000);
    }
}

#[test]
fn window_keeps_its_size_over_a_hundred_advances() {
    let mut market = SlotMarketplace::new_at(400, 1_000_000, 0);
    for step in 0..100u64 {
        market.advance_slot_with(400 * (step as i64 + 1), 2_000_000);
    }
    assert_eq!(market.current_slot, 100);
    assert_eq!(market.slots.len(), 200);
    for number in 0..200u64 {
        assert_eq!(market.slots.get(&number).unwrap().slot_number, number);
    }
    assert!(!market.slots.contains_key(&200));
    let window = market.get_window(100, 100);
    assert_eq!(window.len(), 100);
    for (place, slot) in window.iter().enumerate() {
        assert_eq!(slot.slot_number, 100 + place as u64);
    }
    for number in 0..100u64 {
        assert_eq!(market.slots.get(&number).unwrap().state, SlotState::Expired);
    }
}

#[test]
fn advance_adds_the_edge_slot_and_expires_stale_ones() {
    let mut market = SlotMarketplace::new_at(400, 1_000_000, 0);
    market.advance_slot_with(801, 4_242);
    assert_eq!(market.current_slot, 1);
    let edge = market.slots.get(&100).unwrap();
    assert_eq!(edge.state, SlotState::Available);
    assert_eq!(edge.base_fee, 4_242);
    assert_eq!(edge.estimated_time, 801 + 400 * 100);
    assert_eq!(edge.created_at, 801);
    assert_eq!(market.slots.get(&0).unwrap().state, SlotState::Expired);
    assert_eq!(market.slots.get(&1).unwrap().state, SlotState::Expired);
    assert_eq!(market.slots.get(&2).unwrap().state, SlotState::Expired);
    assert_eq!(market.slots.get(&3).unwrap().state, SlotState::Available);
}

#[test]
fn advance_keeps_a_slot_that_is_already_at_the_edge() {
    let mut market = SlotMarketplace::new_at(400, 1_000_000, 0);
    market.slots.insert(100, Slot::new_at(100, 123_456, 9, 1));
    market.advance_slot_with(0, 4_242);
    assert_eq!(market.slots.get(&100).unwrap().base_fee, 9);
    assert_eq!(market.slots.get(&100).unwrap().estimated_time, 123_456);
}

#[test]
fn advance_now_draws_the_edge_fee_from_the_base_fee() {
    let mut market = SlotMarketplace::new(400, 1_000_000);
    market.advance_slot();
    assert_eq!(market.current_slot, 1);
    let edge = market.slots.get(&100).unwrap();
    assert!(edge.base_fee >= 1_000_000 && edge.base_fee < 10_000_000);
    assert_eq!(edge.estimated_time - edge.created_at, 40_000);
}

#[test]
fn window_listing_is_ordered_and_bounded() {
    let mut market = SlotMarketplace::new_at(400, 1_000_000, 0);
    market.slots.remove(&12);
    let numbers: Vec<u64> = market.get_window(10, 5).iter().map(|slot| slot.slot_number).collect();
    assert_eq!(numbers, vec![10, 11, 13, 14]);
    assert!(market.get_window(10, 0).is_empty());
    assert_eq!(market.get_window(98, 50).len(), 2);
    assert!(market.get_window(u64::MAX, 3).is_empty());
}

#[test]
fn next_available_slot_is_the_first_in_the_window() {
    let mut market = SlotMarketplace::new_at(400, 1_000_000, 0);
    assert_eq!(market.get_next_available_slot(), Some(0));
    market.reserve_slot(0, name("A"), 1, TransactionType::Jit);
    market.show_jit_bid(1, name("A"), 1);
    assert_eq!(market.get_next_available_slot(), Some(2));
    for number in 0..100u64 {
        market.reserve_slot(number, name("A"), 1, TransactionType::Aot);
    }
    assert_eq!(market.get_next_available_slot(), None);
}

#[test]
fn marketplace_changes_only_slots_that_exist() {
    let mut market = SlotMarketplace::new_at(400, 1_000_000, 0);
    market.show_jit_bid(500, name("A"), 1);
    market.show_aot_bid(500, name("A"), 1, vec![(name("A"), 1)], 9);
    market.reserve_slot(500, name("A"), 1, TransactionType::Jit);
    market.fill_slot_at(500, name("A"), name("tx"), 1, 0);
    assert_eq!(market.slots.len(), 100);
    market.fill_slot_at(7, name("A"), name("tx"), 200_000, 33);
    assert_eq!(
        market.slots.get(&7).unwrap().state,
        SlotState::Filled { winner: name("A"), transaction_id: name("tx"), execution_time: 33 }
    );
    market.slots.get_mut(&8).unwrap().compute_units_used = u64::MAX;
    market.fill_slot_at(8, name("A"), name("tx"), 1, 33);
    assert_eq!(market.slots.get(&8).unwrap().state, SlotState::Available);
}
