use raiku_simulator::config::{
    origins_setting, signed_setting, unsigned_setting, AuctionConfig, GlobalConfig, MarketplaceConfig,
    ServerConfig,
};
use raiku_simulator::managers::ledger::TransactionLedger;
use raiku_simulator::utils::text::{split_list, trim_text};
use raiku_simulator::managers::session::SessionManager;
use raiku_simulator::models::requests::{page_request, paginate, TransactionBatchQuery, TransactionQuery};
use raiku_simulator::models::responses::ApiResponse;
use raiku_simulator::models::session::Session;
use raiku_simulator::models::transaction::{Transaction, TransactionStatus};
use raiku_simulator::models::types::{InclusionType, TransactionType};
use raiku_simulator::services::session::{
    create_or_validate_session, create_or_validate_session_with, get_session_from_cookie,
    get_session_from_cookie_at, session_cookie_value, session_from_cookie, Unauthorized,
};
use raiku_simulator::services::transaction::{
    fee_matches, settle_loser, update_transaction_status_lose, update_transaction_status_win,
    update_transaction_status_win_at,
};
use raiku_simulator::state::AppState;
use raiku_simulator::utils::ranking::rank;
use raiku_simulator::utils::rate_limiter::{RateLimiter, TokenBucket};
use raiku_simulator::utils::transaction::{calculate_base_fee, scaled_fee};
use raiku_simulator::INITIAL_PLAYER_BALANCE;

fn name(text: &str) -> String {
    text.to_string()
}

fn jit(id: &str, sender: &str, fee: u64, at: i64) -> Transaction {
    Transaction::jit_with(name(id), name(sender), 10, fee, name("data"), at)
}

#[test]
fn transactions_are_created_pending() {
    let transaction = jit("t", "s", 5, 9);
    assert_eq!(transaction.id, "t");
    assert_eq!(transaction.sender, "s");
    assert_eq!(transaction.status, TransactionStatus::Pending);
    assert_eq!(transaction.priority_fee, 5);
    assert_eq!(transaction.created_at, 9);
    assert!(transaction.is_pending());
    let ahead = Transaction::aot_with(name("u"), name("s"), 10, 6, 44, name("d"), 1);
    assert_eq!(ahead.inclusion_type, InclusionType::Aot { reserved_slot: 44 });
    let now_jit = Transaction::jit(name("s"), 1, 2, name("d"));
    assert_eq!(now_jit.id.len(), 36);
    assert_eq!(now_jit.id.matches('-').count(), 4);
    assert!(now_jit.created_at > 1_600_000_000_000);
    let now_aot = Transaction::aot(name("s"), 1, 2, 3, name("d"));
    assert_ne!(now_aot.id, now_jit.id);
    assert_eq!(now_aot.inclusion_type, InclusionType::Aot { reserved_slot: 3 });
}

#[test]
fn transaction_marks_change_the_status() {
    let mut transaction = jit("t", "s", 5, 9);
    transaction.mark_included_at(3, 77);
    assert_eq!(transaction.status, TransactionStatus::Included { slot: 3, execution_time: 77 });
    assert_eq!(transaction.included_at, Some(77));
    assert!(!transaction.is_pending());
    transaction.mark_auction_won(3, 5);
    assert_eq!(transaction.status, TransactionStatus::AuctionWon { slot: 3, winning_bid: 5 });
    assert_eq!(transaction.included_at, Some(77));
    transaction.mark_failed(name("why"));
    assert_eq!(transaction.status, TransactionStatus::Failed { reason: name("why") });
    transaction.mark_included(4);
    assert!(transaction.included_at.unwrap() > 1_600_000_000_000);
}

#[test]
fn ledger_stores_by_identifier_and_lists_by_session() {
    let mut ledger = TransactionLedger::new();
    ledger.add(name("s1"), jit("a", "s1", 1, 10));
    ledger.add(name("s2"), jit("b", "s2", 2, 20));
    ledger.add(name("s1"), jit("c", "s1", 3, 30));
    assert_eq!(ledger.total_count(), 3);
    assert_eq!(ledger.session_count("s1"), 2);
    assert_eq!(ledger.session_count("nobody"), 0);
    assert_eq!(ledger.find("b"), Some(1));
    assert_eq!(ledger.find_session("s2"), Some(1));
    assert_eq!(ledger.get("c").unwrap().priority_fee, 3);
    assert_eq!(ledger.get("x"), None);
    let of_s1: Vec<String> = ledger.of_session_all("s1").into_iter().map(|t| t.id).collect();
    assert_eq!(of_s1, vec!["a", "c"]);
    let mut changed = jit("a", "s1", 100, 10);
    changed.mark_failed(name("r"));
    ledger.store(changed.clone());
    assert_eq!(ledger.total_count(), 3);
    assert_eq!(ledger.get("a"), Some(changed));
    ledger.store(jit("orphan", "s9", 1, 1));
    assert_eq!(ledger.total_count(), 4);
    assert!(ledger.of_session_all("s9").is_empty());
}

#[test]
fn ledger_pages_are_cut_from_the_listing() {
    let mut ledger = TransactionLedger::new();
    for i in 0..7 {
        ledger.add(name("s"), jit(&format!("t{}", i), "s", i, 100 - i as i64));
    }
    let ids = |page: Vec<Transaction>| -> Vec<String> { page.into_iter().map(|t| t.id).collect() };
    assert_eq!(ids(ledger.of_session_paginated("s", 0, 3)), vec!["t0", "t1", "t2"]);
    assert_eq!(ids(ledger.of_session_paginated("s", 5, 3)), vec!["t5", "t6"]);
    assert!(ledger.of_session_paginated("s", 7, 3).is_empty());
    assert!(ledger.of_session_paginated("s", u64::MAX, 3).is_empty());
    assert!(ledger.of_session_paginated("s", 0, 0).is_empty());
    assert!(ledger.of_session_paginated("nobody", 0, 3).is_empty());
    assert_eq!(ledger.of_session_paginated("s", 2, u32::MAX).len(), 5);
}

#[test]
fn all_transactions_are_paged_from_the_newest() {
    let mut ledger = TransactionLedger::new();
    ledger.add(name("s"), jit("old", "s", 1, -50));
    ledger.add(name("s"), jit("new", "s", 1, 300));
    ledger.add(name("t"), jit("mid-first", "t", 1, 100));
    ledger.add(name("t"), jit("mid-second", "t", 1, 100));
    let ids = |page: Vec<Transaction>| -> Vec<String> { page.into_iter().map(|t| t.id).collect() };
    assert_eq!(ids(ledger.all_paginated(0, 10)), vec!["new", "mid-first", "mid-second", "old"]);
    assert_eq!(ids(ledger.all_paginated(1, 2)), vec!["mid-first", "mid-second"]);
    assert!(ledger.all_paginated(4, 2).is_empty());
    let mut state = AppState::new_at(400, 1_000, 0);
    state.add_transaction(name("s"), jit("a", "s", 1, 5));
    state.update_transaction(jit("b", "s", 1, 9));
    assert_eq!(ids(state.get_all_transactions_paginated(0, 5)), vec!["b", "a"]);
    assert_eq!(ids(state.get_session_transactions_paginated("s", 0, 5)), vec!["a"]);
}

#[test]
fn ranking_is_stable_and_descending() {
    assert_eq!(rank(&vec![(1, 1), (5, 1), (3, 1), (5, 1), (0, 1)]), vec![1, 3, 2, 0, 4]);
    assert_eq!(rank(&vec![(1, 2), (2, 4), (3, 4), (1, 3)]), vec![2, 0, 1, 3]);
    assert_eq!(rank(&vec![(u64::MAX, 1), (u64::MAX, u64::MAX), (u64::MAX - 1, 1)]), vec![0, 2, 1]);
    assert!(rank(&vec![]).is_empty());
}

#[test]
fn winner_settlement_marks_won_and_outbid_transactions() {
    let mut state = AppState::new_at(400, 1_000, 0);
    assert!(state.game.pay_for_bid(name("w"), 3_000_000, 5).is_ok());
    state.add_transaction(name("w"), jit("first", "w", 1_000_000, 1));
    state.add_transaction(name("w"), jit("second", "w", 2_000_000, 2));
    state.add_transaction(name("w"), jit("close", "w", 2_000_000 + 99_999, 3));
    state.add_transaction(
        name("w"),
        Transaction::aot_with(name("other-kind"), name("w"), 1, 7, 5, name("d"), 4),
    );
    state.add_transaction(name("x"), jit("other-session", "x", 2_000_000, 5));
    let before = state.game.player_stats[0].balance;
    let settlement = update_transaction_status_win_at(
        &mut state,
        "w",
        5,
        2_000_000,
        InclusionType::Jit,
        TransactionType::Jit,
        900,
    );
    assert_eq!(settlement.refund_total, 1_000_000);
    assert_eq!(settlement.changed.len(), 3);
    assert_eq!(settlement.events.len(), 3);
    assert_eq!(
        state.get_transaction("first").unwrap().status,
        TransactionStatus::Failed { reason: name("Outbid by higher amount. Refunding 0.001 SOL") }
    );
    let won = state.get_transaction("second").unwrap();
    assert_eq!(won.status, TransactionStatus::AuctionWon { slot: 5, winning_bid: 2_000_000 });
    assert_eq!(won.included_at, Some(900));
    assert_eq!(
        state.get_transaction("close").unwrap().status,
        TransactionStatus::AuctionWon { slot: 5, winning_bid: 2_000_000 }
    );
    assert_eq!(state.get_transaction("other-kind").unwrap().status, TransactionStatus::Pending);
    assert_eq!(state.get_transaction("other-session").unwrap().status, TransactionStatus::Pending);
    let player = &state.game.player_stats[0];
    assert_eq!(player.balance, before + 1_000_000);
    assert_eq!(player.total_auctions_won, 1);
    assert_eq!(player.jit_wins, 1);
    assert_eq!(player.total_auctions_participated, 1);
    let again = update_transaction_status_win(
        &mut state,
        "w",
        5,
        2_000_000,
        InclusionType::Jit,
        TransactionType::Jit,
    );
    assert!(again.changed.is_empty());
    assert_eq!(again.refund_total, 0);
    let nobody = update_transaction_status_win(
        &mut state,
        "nobody",
        5,
        1,
        InclusionType::Jit,
        TransactionType::Jit,
    );
    assert!(nobody.changed.is_empty());
}

#[test]
fn fee_matches_within_the_tolerance() {
    assert!(fee_matches(1_000_000, 1_000_000));
    assert!(fee_matches(1_099_999, 1_000_000));
    assert!(fee_matches(900_001, 1_000_000));
    assert!(!fee_matches(1_100_000, 1_000_000));
    assert!(!fee_matches(900_000, 1_000_000));
    assert!(!fee_matches(0, u64::MAX));
}

#[test]
fn loser_settlement_fails_waiting_transactions_and_refunds() {
    let mut state = AppState::new_at(400, 1_000, 0);
    assert!(state.game.pay_for_bid(name("l"), 7, 9).is_ok());
    let inclusion = InclusionType::Aot { reserved_slot: 9 };
    state.add_transaction(name("l"), Transaction::aot_with(name("a"), name("l"), 1, 7, 9, name("d"), 1));
    state.add_transaction(name("l"), Transaction::aot_with(name("b"), name("l"), 1, 7, 8, name("d"), 1));
    state.game.player_stats[0].current_streak = 3;
    let (changed, events) = settle_loser(&mut state, "l", 9, 7, inclusion);
    assert_eq!(changed.len(), 1);
    assert_eq!(events.len(), 1);
    assert_eq!(
        state.get_transaction("a").unwrap().status,
        TransactionStatus::Failed { reason: name("Lost auction for slot 9") }
    );
    assert_eq!(state.get_transaction("b").unwrap().status, TransactionStatus::Pending);
    let player = &state.game.player_stats[0];
    assert_eq!(player.balance, INITIAL_PLAYER_BALANCE);
    assert_eq!(player.current_streak, 0);
    assert_eq!(player.total_auctions_participated, 1);
    let (none, _) = update_transaction_status_lose(&mut state, "l", 9, inclusion);
    assert!(none.is_empty());
    let (other, _) = update_transaction_status_lose(&mut state, "l", 8, InclusionType::Aot { reserved_slot: 8 });
    assert_eq!(other.len(), 1);
}

#[test]
fn sessions_live_a_day_from_their_last_use() {
    let mut session = Session::new_at(name("s"), 1_000);
    assert_eq!(session.created_at, 1_000);
    assert_eq!(session.last_active, 1_000);
    assert_eq!(session.expires_at, 86_401_000);
    assert!(!session.is_expired_at(86_401_000));
    assert!(session.is_expired_at(86_401_001));
    assert!(session.is_valid_at(5));
    session.extend_at(2_000);
    assert_eq!(session.created_at, 1_000);
    assert_eq!(session.last_active, 2_000);
    assert_eq!(session.expires_at, 86_402_000);
    let mut live = Session::new(name("t"));
    assert!(live.is_valid());
    assert!(!live.is_expired());
    assert_eq!(live.expires_at - live.created_at, 86_400_000);
    live.expires_at = 0;
    assert!(live.is_expired());
    live.touch();
    assert!(live.is_valid());
    live.expires_at = 0;
    live.extend();
    assert!(live.is_valid());
}

#[test]
fn session_manager_uses_live_sessions_and_drops_ended_ones() {
    let mut manager = SessionManager::new();
    let made = manager.create_session_with(name("a"), 0);
    assert_eq!(made, Session::new_at(name("a"), 0));
    manager.create_session_with(name("b"), 10);
    assert_eq!(manager.get_session_count(), 2);
    assert_eq!(manager.find("b"), Some(1));
    let used = manager.get_session_at("a", 500).unwrap();
    assert_eq!(used.last_active, 500);
    assert_eq!(used.expires_at, 86_400_500);
    assert_eq!(manager.sessions[0], used);
    assert!(manager.validate_session_at("b", 86_400_010));
    assert_eq!(manager.get_session_at("a", 86_400_501 + 86_400_000), None);
    assert_eq!(manager.get_session_count(), 1);
    assert_eq!(manager.get_session_at("nobody", 0), None);
    assert!(!manager.validate_session_at("a", 0));
    let fresh = manager.create_session();
    assert_eq!(fresh.id.len(), 36);
    assert!(manager.validate_session(&fresh.id));
    assert_eq!(manager.get_session(&fresh.id).unwrap().id, fresh.id);
    assert_eq!(manager.cleanup_expired_sessions(), vec!["b"]);
    assert_eq!(manager.get_session_count(), 1);
    assert!(manager.cleanup_expired_sessions().is_empty());
}

#[test]
fn cleanup_gives_the_ended_sessions() {
    let mut manager = SessionManager::new();
    manager.create_session_with(name("a"), 0);
    manager.create_session_with(name("b"), 1_000);
    manager.create_session_with(name("c"), 5);
    manager.create_session_with(name("d"), 2_000);
    let removed = manager.cleanup_expired_sessions_at(86_400_006);
    assert_eq!(removed, vec!["a", "c"]);
    let left: Vec<&str> = manager.sessions.iter().map(|s| s.id.as_str()).collect();
    assert_eq!(left, vec!["b", "d"]);
}

#[test]
fn session_cookie_is_found_among_the_cookies() {
    let value = |header: &str| session_cookie_value(header.as_bytes()).map(|v| String::from_utf8(v).unwrap());
    assert_eq!(value("raiku_session=abc"), Some(name("abc")));
    assert_eq!(value("theme=dark; raiku_session=abc; other=1"), Some(name("abc")));
    assert_eq!(value("theme=dark;\t raiku_session=abc ;x"), Some(name("abc ")));
    assert_eq!(value("raiku_session=a=b"), Some(name("a")));
    assert_eq!(value("raiku_session="), Some(name("")));
    assert_eq!(value("xraiku_session=abc"), None);
    assert_eq!(value("raiku_sessio=abc"), None);
    assert_eq!(value("a=raiku_session=abc"), None);
    assert_eq!(value(""), None);
    assert_eq!(value(";;;"), None);
    assert_eq!(value("raiku_session=first; raiku_session=second"), Some(name("first")));
    assert_eq!(session_from_cookie(b"a=1; raiku_session=s-1"), Some(name("s-1")));
    assert_eq!(session_from_cookie(b"raiku_session=\xff\xfe"), None);
    assert_eq!(session_from_cookie(b"a=1"), None);
}

#[test]
fn request_session_comes_from_cookie_or_query() {
    let mut manager = SessionManager::new();
    manager.create_session_with(name("alive"), 0);
    manager.create_session_with(name("other"), 0);
    let query = name("other");
    assert_eq!(
        get_session_from_cookie_at(Some(b"raiku_session=alive"), Some(&query), &mut manager, 10),
        Ok(name("alive"))
    );
    assert_eq!(manager.sessions[0].last_active, 10);
    assert_eq!(manager.sessions[1].last_active, 0);
    assert_eq!(get_session_from_cookie_at(Some(b"x=1"), Some(&query), &mut manager, 20), Ok(name("other")));
    assert_eq!(
        get_session_from_cookie_at(Some(b"raiku_session=gone"), Some(&query), &mut manager, 20),
        Err(Unauthorized)
    );
    assert_eq!(get_session_from_cookie_at(None, None, &mut manager, 20), Err(Unauthorized));
    assert_eq!(get_session_from_cookie(None, None, &mut manager), Err(Unauthorized));
    assert_eq!(get_session_from_cookie(None, Some(&query), &mut manager), Err(Unauthorized));
    let live = manager.create_session();
    assert_eq!(get_session_from_cookie(None, Some(&live.id), &mut manager), Ok(live.id.clone()));
    let header = format!("a=b; raiku_session={}", live.id);
    assert_eq!(get_session_from_cookie(Some(header.as_bytes()), None, &mut manager), Ok(live.id));
}

#[test]
fn request_gets_its_session_or_a_new_one() {
    let mut manager = SessionManager::new();
    manager.create_session_with(name("alive"), 0);
    let (found, is_new) =
        create_or_validate_session_with(Some(b"raiku_session=alive"), &mut manager, name("n1"), 7);
    assert!(!is_new);
    assert_eq!(found.id, "alive");
    assert_eq!(found.last_active, 7);
    let (made, is_new) =
        create_or_validate_session_with(Some(b"raiku_session=gone"), &mut manager, name("n1"), 7);
    assert!(is_new);
    assert_eq!(made, Session::new_at(name("n1"), 7));
    let (made, is_new) = create_or_validate_session_with(None, &mut manager, name("n2"), 8);
    assert!(is_new);
    assert_eq!(made.id, "n2");
    assert_eq!(manager.get_session_count(), 3);
    let (fresh, is_new) = create_or_validate_session(None, &mut manager);
    assert!(is_new);
    assert_eq!(fresh.id.len(), 36);
}

#[test]
fn rate_limit_counts_requests_within_a_window() {
    let mut limiter = RateLimiter::new(1);
    assert_eq!(limiter.requests_per_window, 60);
    assert_eq!(limiter.window_duration_ms, 60_000);
    for _ in 0..60 {
        assert!(limiter.check_rate_limit_at("1.2.3.4", 1_000));
    }
    assert!(!limiter.check_rate_limit_at("1.2.3.4", 1_000));
    assert!(!limiter.check_rate_limit_at("1.2.3.4", 60_999));
    assert!(limiter.check_rate_limit_at("5.6.7.8", 60_999));
    assert!(limiter.check_rate_limit_at("1.2.3.4", 61_000));
    assert_eq!(limiter.buckets.len(), 2);
    assert_eq!(
        *limiter.buckets.get("1.2.3.4").unwrap(),
        TokenBucket { tokens: 60, last_refill: 61_000, window_start: 61_000, request_count: 1 }
    );
    assert_eq!(limiter.buckets.get("5.6.7.8").unwrap().request_count, 1);
    assert!(limiter.check_rate_limit("9.9.9.9"));
    let mut closed = RateLimiter::new(0);
    assert!(!closed.check_rate_limit_at("a", 0));
    assert_eq!(*closed.buckets.get("a").unwrap(), TokenBucket::new_at(0, 0));
}

#[test]
fn bucket_keeps_its_window_when_time_runs_backwards() {
    let mut bucket = TokenBucket::new_at(2, 1_000);
    assert!(bucket.take_request(i64::MIN, 2, 60_000));
    assert!(bucket.take_request(1_000, 2, 60_000));
    assert!(!bucket.take_request(1_001, 2, 60_000));
    assert_eq!(bucket.window_start, 1_000);
    assert!(bucket.take_request(i64::MAX, 2, 60_000));
    assert_eq!(bucket.request_count, 1);
}

#[test]
fn pages_are_clamped_and_counted() {
    let request = page_request(None, None);
    assert_eq!((request.page, request.limit, request.offset), (1, 20, 0));
    let request = page_request(Some(0), Some(0));
    assert_eq!((request.page, request.limit, request.offset), (1, 1, 0));
    let request = page_request(Some(3), Some(500));
    assert_eq!((request.page, request.limit, request.offset), (3, 100, 200));
    let request = page_request(Some(u32::MAX), Some(100));
    assert_eq!(request.offset, (u32::MAX as u64 - 1) * 100);
    let pagination = paginate(page_request(Some(2), Some(20)), 41);
    assert_eq!(pagination.total_pages, 3);
    assert_eq!(pagination.current_page, 2);
    assert_eq!(pagination.page_size, 20);
    assert_eq!(pagination.total_count, 41);
    assert!(pagination.has_next);
    assert!(pagination.has_prev);
    let pagination = paginate(page_request(Some(1), Some(20)), 0);
    assert_eq!(pagination.total_pages, 0);
    assert!(!pagination.has_next);
    assert!(!pagination.has_prev);
    assert_eq!(paginate(page_request(None, Some(20)), 40).total_pages, 2);
    assert_eq!(paginate(page_request(None, Some(1)), u64::MAX).total_pages, u64::MAX);
    let query = TransactionQuery { session_id: None, page: Some(2), limit: None, show_all: Some(true) };
    assert_eq!(query.page_request().offset, 20);
    assert!(query.wants_all());
    let query = TransactionQuery { session_id: None, page: None, limit: None, show_all: None };
    assert!(!query.wants_all());
    assert_eq!(TransactionBatchQuery { page: Some(4), limit: Some(5) }.page_request().offset, 15);
}

#[test]
fn settings_that_spell_no_number_fall_back() {
    let config = GlobalConfig::from_values(
        None,
        None,
        None,
        Some(name("")),
        Some(name("fast")),
        None,
        Some(name("-1")),
        Some(name("35s")),
    );
    assert_eq!(config.server.cors_allowed_origins, vec![""]);
    assert_eq!(
        config.marketplace,
        MarketplaceConfig { slot_duration_ms: 400, base_fee_lamports: 1_000_000, advance_slot_interval_ms: 400 }
    );
    assert_eq!(config.auction, AuctionConfig { aot_default_duration_sec: 35 });
    assert_eq!(signed_setting(Some(name("-250"))), Some(-250));
    assert_eq!(signed_setting(Some(name("+7"))), Some(7));
    assert_eq!(signed_setting(Some(name("9223372036854775808"))), None);
    assert_eq!(signed_setting(None), None);
    assert_eq!(unsigned_setting(Some(name("18446744073709551615"))), Some(u64::MAX));
    assert_eq!(unsigned_setting(Some(name("1.5"))), None);
    assert_eq!(unsigned_setting(None), None);
    assert_eq!(origins_setting(None), None);
}

#[test]
fn white_space_is_the_twenty_five_characters() {
    let listed: Vec<char> = "\u{9}\u{a}\u{b}\u{c}\u{d}\u{20}\u{85}\u{a0}\u{1680}\u{2000}\u{2001}\u{2002}\u{2003}\u{2004}\u{2005}\u{2006}\u{2007}\u{2008}\u{2009}\u{200a}\u{2028}\u{2029}\u{202f}\u{205f}\u{3000}"
        .chars()
        .collect();
    assert_eq!(listed.len(), 25);
    let mut text = String::new();
    for code in 0..=0x10FFFFu32 {
        if let Some(c) = char::from_u32(code) {
            text.clear();
            text.push(c);
            assert_eq!(trim_text(&text).is_empty(), listed.contains(&c), "U+{:04X}", code);
        }
    }
    assert_eq!(trim_text("\u{200b}x\u{180e}"), "\u{200b}x\u{180e}");
}

#[test]
fn numbers_are_read_as_digits_after_a_sign() {
    assert_eq!(signed_setting(Some(name("-0"))), Some(0));
    assert_eq!(signed_setting(Some(name("007"))), Some(7));
    assert_eq!(signed_setting(Some(name("-9223372036854775808"))), Some(i64::MIN));
    assert_eq!(signed_setting(Some(name("9223372036854775807"))), Some(i64::MAX));
    assert_eq!(signed_setting(Some(name("-9223372036854775809"))), None);
    assert_eq!(signed_setting(Some(name("00000000000000000000000000000012"))), Some(12));
    for text in ["", "+", "-", "--1", "+-1", "-+1", " 1", "1 ", "1_000", "0x10", "\u{663}", "1e3"] {
        assert_eq!(signed_setting(Some(name(text))), None, "{:?}", text);
        assert_eq!(unsigned_setting(Some(name(text))), None, "{:?}", text);
        assert_eq!(ServerConfig::with_defaults(None, Some(name(text)), None).port, 8080, "{:?}", text);
    }
    assert_eq!(unsigned_setting(Some(name("+18446744073709551615"))), Some(u64::MAX));
    assert_eq!(unsigned_setting(Some(name("18446744073709551616"))), None);
    assert_eq!(unsigned_setting(Some(name("-0"))), None);
    assert_eq!(unsigned_setting(Some(name("0"))), Some(0));
    assert_eq!(ServerConfig::with_defaults(None, Some(name("+80")), None).port, 80);
    assert_eq!(ServerConfig::with_defaults(None, Some(name("0443")), None).port, 443);
    assert_eq!(ServerConfig::with_defaults(None, Some(name("-0")), None).port, 8080);
}

#[test]
fn lists_are_cut_at_commas_and_trimmed() {
    assert_eq!(split_list("a,b"), vec!["a", "b"]);
    assert_eq!(split_list(" a\t, b c ,\u{a0}d\u{3000}"), vec!["a", "b c", "d"]);
    assert_eq!(split_list(""), vec![""]);
    assert_eq!(split_list(","), vec!["", ""]);
    assert_eq!(split_list("é , ,ü,"), vec!["é", "", "ü", ""]);
    assert_eq!(split_list("http://localhost:3000"), vec!["http://localhost:3000"]);
    assert_eq!(trim_text("  x y  "), "x y");
    assert_eq!(trim_text(" \n "), "");
    assert_eq!(trim_text("x"), "x");
    assert_eq!(
        origins_setting(Some(name("https://a.example, https://b.example"))),
        Some(vec![name("https://a.example"), name("https://b.example")])
    );
}

#[test]
fn settings_fall_back_to_their_defaults() {
    let config = GlobalConfig::from_values(None, None, None, None, None, None, None, None);
    assert_eq!(config.server.host, "0.0.0.0");
    assert_eq!(config.server.port, 8080);
    assert_eq!(config.server.cors_allowed_origins, vec!["http://localhost:3000"]);
    assert_eq!(
        config.marketplace,
        MarketplaceConfig { slot_duration_ms: 400, base_fee_lamports: 1_000_000, advance_slot_interval_ms: 400 }
    );
    assert_eq!(config.auction, AuctionConfig { aot_default_duration_sec: 35 });
    assert!(config.marketplace.is_usable());
    assert!(config.auction.is_usable());
    let config = GlobalConfig::from_values(
        Some(name("localhost")),
        Some(name("9000")),
        Some(name("7000")),
        Some(name("https://a , https://b")),
        Some(name("250")),
        Some(5),
        Some(name("100")),
        Some(name("60")),
    );
    assert_eq!(config.server.host, "localhost");
    assert_eq!(config.server.port, 9000);
    assert_eq!(config.server.cors_allowed_origins, vec!["https://a", "https://b"]);
    assert_eq!(config.marketplace.slot_duration_ms, 250);
    assert_eq!(config.marketplace.base_fee_lamports, 5);
    assert_eq!(config.marketplace.advance_slot_interval_ms, 100);
    assert_eq!(config.auction.aot_default_duration_sec, 60);
    let config = GlobalConfig::from_values(None, None, Some(name("7000")), None, None, None, None, None);
    assert_eq!(config.server.port, 7000);
    let config =
        GlobalConfig::from_values(None, Some(name("no")), Some(name("7000")), None, None, None, None, None);
    assert_eq!(config.server.port, 8080);
    assert_eq!(ServerConfig::with_defaults(None, Some(name("-1")), None).port, 8080);
    assert!(!MarketplaceConfig::with_defaults(Some(i64::MAX), None, None).is_usable());
    assert!(!MarketplaceConfig::with_defaults(None, Some(u64::MAX), None).is_usable());
    assert!(!AuctionConfig::with_defaults(Some(i64::MIN)).is_usable());
}

#[test]
fn responses_carry_data_unless_null() {
    let full = ApiResponse::success(name("ok"), serde_json::Value::from(5));
    assert!(full.success);
    assert_eq!(full.message, "ok");
    assert_eq!(full.code, 200);
    assert_eq!(full.data, Some(serde_json::Value::from(5)));
    let empty = ApiResponse::success(name("ok"), serde_json::Value::Null);
    assert_eq!(empty.data, None);
    let failed = ApiResponse::failure(name("no"), 404);
    assert!(!failed.success);
    assert_eq!(failed.message, "no");
    assert_eq!(failed.code, 404);
    assert_eq!(failed.data, None);
}

#[test]
fn base_fee_is_scaled_by_a_multiplier_in_thousandths() {
    assert_eq!(scaled_fee(1_000_000, 1_000), 1_000_000);
    assert_eq!(scaled_fee(1_000_000, 9_999), 9_999_000);
    assert_eq!(scaled_fee(7, 1_500), 10);
    assert_eq!(scaled_fee(1_844_674_407_370_955_161, 9_999), 18_444_899_399_302_180_654);
    let mut seen_other = false;
    for _ in 0..100 {
        let fee = calculate_base_fee(1_000_000);
        assert!((1_000_000..10_000_000).contains(&fee));
        seen_other = seen_other || fee != 1_000_000;
    }
    assert!(seen_other);
    assert_eq!(calculate_base_fee(0), 0);
}
