use raiku_simulator::managers::game::{GameManager, PaymentError};
use raiku_simulator::models::metrics::{Achievement, AchievementType};
use raiku_simulator::models::player::{InsufficientBalance, PlayerStats};
use raiku_simulator::models::types::TransactionType;
use raiku_simulator::services::refunds::aggregate_refunds;
use raiku_simulator::{INITIAL_PLAYER_BALANCE, LAMPORTS_PER_SOL};

fn name(text: &str) -> String {
    text.to_string()
}

fn kinds(player: &PlayerStats) -> Vec<AchievementType> {
    player.achievements.iter().map(|a| a.achievement_type).collect()
}

#[test]
fn achievements_have_their_names_and_rewards() {
    let first = Achievement::first_win();
    assert_eq!(first.achievement_type, AchievementType::FirstWin);
    assert_eq!(first.name, "First Win!");
    assert_eq!(first.description, "Win your first auction");
    assert!(first.reward_xp <= 50);
    let beginner = Achievement::beginner();
    assert_eq!(beginner.achievement_type, AchievementType::Beginner);
    assert_eq!(beginner.name, "Beginner Trader");
    assert_eq!(beginner.description, "Reach level 2");
    assert_eq!(beginner.reward_xp, 50);
    let experienced = Achievement::experienced();
    assert_eq!(experienced.name, "Experienced Trader");
    assert_eq!(experienced.description, "Reach level 5");
    assert_eq!(experienced.reward_xp, 150);
    let master = Achievement::master();
    assert_eq!(master.achievement_type, AchievementType::Master);
    assert_eq!(master.name, "Master Trader");
    assert_eq!(master.description, "Reach level 10");
    assert_eq!(master.reward_xp, 500);
}

#[test]
fn drawn_rewards_stay_in_their_ranges() {
    for _ in 0..200 {
        let bid = Achievement::first_bid().reward_xp;
        assert!((10..=25).contains(&bid));
        let legend = Achievement::legend();
        assert_eq!(legend.name, "Legendary!");
        assert!((400..=500).contains(&legend.reward_xp));
        assert!((30..=50).contains(&Achievement::early_bird().reward_xp));
        assert!((30..=50).contains(&Achievement::quick_draw().reward_xp));
        assert!((35..=50).contains(&Achievement::participant().reward_xp));
        assert!((75..=100).contains(&Achievement::big_spender().reward_xp));
        assert!((80..=120).contains(&Achievement::veteran().reward_xp));
        assert!((90..=130).contains(&Achievement::streak_starter().reward_xp));
        assert!((70..=110).contains(&Achievement::diversified().reward_xp));
        assert!((100..=140).contains(&Achievement::high_roller().reward_xp));
        assert!((110..=150).contains(&Achievement::dedicated().reward_xp));
        assert!((200..=300).contains(&Achievement::winning_streak().reward_xp));
        assert!((250..=350).contains(&Achievement::champion().reward_xp));
        assert!((200..=300).contains(&Achievement::big_league_spender().reward_xp));
        assert!((350..=450).contains(&Achievement::elite_trader().reward_xp));
        assert!((300..=400).contains(&Achievement::perfect_record().reward_xp));
    }
    assert_eq!(AchievementType::Veteran.reward_range(), (80, 120));
    assert_eq!(Achievement::with_reward(AchievementType::Champion, 7).reward_xp, 7);
    assert_eq!(Achievement::award(AchievementType::Champion).name, "Champion");
}

#[test]
fn new_player_starts_with_the_initial_balance() {
    let player = PlayerStats::new(name("s"));
    assert_eq!(player.session_id, "s");
    assert_eq!(player.balance, 100_000 * LAMPORTS_PER_SOL);
    assert_eq!(player.balance, INITIAL_PLAYER_BALANCE);
    assert_eq!(player.level, 1);
    assert_eq!(player.xp, 0);
    assert_eq!(player.total_sol_spent, 0);
    assert!(player.achievements.is_empty());
    assert!(!player.has_placed_first_bid);
    assert_eq!(player.win_rate(), 0);
}

#[test]
fn balance_is_deducted_only_when_it_suffices() {
    let mut player = PlayerStats::new(name("s"));
    player.balance = 100;
    assert!(player.is_balance_sufficient(100));
    assert!(!player.is_balance_sufficient(101));
    assert_eq!(player.deduct_balance(101), Err(InsufficientBalance { have: 100, need: 101 }));
    assert_eq!(player.balance, 100);
    assert_eq!(player.total_sol_spent, 0);
    assert_eq!(player.deduct_balance(60), Ok(()));
    assert_eq!(player.balance, 40);
    assert_eq!(player.total_sol_spent, 60);
    player.increment_balance(5);
    assert_eq!(player.balance, 45);
}

#[test]
fn experience_raises_the_level_once_per_addition() {
    let mut player = PlayerStats::new(name("s"));
    player.add_xp(99);
    assert_eq!((player.level, player.xp), (1, 99));
    player.add_xp(1);
    assert_eq!((player.level, player.xp), (2, 0));
    player.add_xp(500);
    assert_eq!((player.level, player.xp), (3, 300));
    player.add_xp(0);
    assert_eq!((player.level, player.xp), (4, 0));
}

#[test]
fn auction_counts_once_for_a_player_who_took_part() {
    let mut player = PlayerStats::new(name("s"));
    player.mark_auction_resolved(4);
    assert_eq!(player.total_auctions_participated, 0);
    player.track_bid(4);
    player.track_bid(4);
    assert_eq!(player.total_bids_placed, 2);
    player.mark_auction_resolved(4);
    player.mark_auction_resolved(4);
    assert_eq!(player.total_auctions_participated, 1);
    assert!(player.resolved_slots.contains(&4));
}

#[test]
fn win_rate_is_a_rounded_down_percentage() {
    let mut player = PlayerStats::new(name("s"));
    player.total_auctions_participated = 3;
    player.total_auctions_won = 2;
    assert_eq!(player.win_rate(), 66);
    player.total_auctions_won = 3;
    assert_eq!(player.win_rate(), 100);
}

#[test]
fn records_of_both_kinds_and_perfect_record() {
    let mut player = PlayerStats::new(name("s"));
    assert!(!player.has_won_both_auction_types());
    player.record_jit_win();
    assert!(!player.has_won_both_auction_types());
    player.record_aot_win();
    assert!(player.has_won_both_auction_types());
    assert!(!player.has_perfect_record());
    player.total_auctions_participated = 10;
    player.total_auctions_won = 10;
    assert!(player.has_perfect_record());
    player.total_auctions_participated = 11;
    assert!(!player.has_perfect_record());
}

#[test]
fn due_achievements_come_in_their_order() {
    let mut player = PlayerStats::new(name("s"));
    assert!(player.due_achievements().is_empty());
    player.has_placed_first_bid = true;
    player.total_auctions_won = 1;
    player.aot_wins = 1;
    player.jit_wins = 1;
    player.level = 2;
    player.total_sol_spent = 10 * LAMPORTS_PER_SOL;
    assert_eq!(
        player.due_achievements(),
        vec![
            AchievementType::FirstBid,
            AchievementType::FirstWin,
            AchievementType::QuickDraw,
            AchievementType::EarlyBird,
            AchievementType::Beginner,
            AchievementType::BigSpender,
            AchievementType::Diversified,
        ]
    );
    player.check_achievements();
    assert_eq!(kinds(&player).len(), 7);
    assert_eq!(kinds(&player)[0], AchievementType::FirstBid);
    assert!(player.has_achievement(AchievementType::Diversified));
    assert!(!player.has_achievement(AchievementType::Veteran));
    assert!(player.qualifies_for(AchievementType::Beginner));
    player.check_achievements();
    let after: Vec<AchievementType> =
        kinds(&player).into_iter().filter(|k| *k == AchievementType::FirstBid).collect();
    assert_eq!(after.len(), 1);
}

#[test]
fn rewards_are_added_as_experience() {
    let mut player = PlayerStats::new(name("s"));
    player.level = 4;
    player.xp = 0;
    player.total_auctions_participated = 1;
    assert_eq!(player.due_achievements(), vec![AchievementType::Beginner]);
    player.check_achievements();
    assert_eq!(player.xp, 50);
    assert_eq!(player.level, 4);
    assert_eq!(player.achievements[0], Achievement::beginner());
}

#[test]
fn winning_counts_the_win_and_a_bonus() {
    let mut player = PlayerStats::new(name("s"));
    player.level = 100;
    player.process_win(TransactionType::Aot);
    assert_eq!(player.total_auctions_won, 1);
    assert_eq!(player.current_streak, 1);
    assert_eq!(player.best_streak, 1);
    assert_eq!(player.aot_wins, 1);
    assert_eq!(player.jit_wins, 0);
    let earned: u32 = player.achievements.iter().map(|a| a.reward_xp).sum();
    assert!(player.xp >= 5 + earned && player.xp <= 19 + earned);
    assert_eq!(
        kinds(&player),
        vec![
            AchievementType::FirstWin,
            AchievementType::EarlyBird,
            AchievementType::Beginner,
            AchievementType::Experienced,
            AchievementType::Master
        ]
    );
    player.process_loss();
    assert_eq!(player.current_streak, 0);
    assert_eq!(player.best_streak, 1);
}

#[test]
fn game_finds_and_makes_players() {
    let mut game = GameManager::new();
    assert_eq!(game.find_player("a"), None);
    game.get_or_create_player(name("a")).balance = 5;
    game.get_or_create_player(name("b"));
    assert_eq!(game.get_or_create_player(name("a")).balance, 5);
    assert_eq!(game.player_stats.len(), 2);
    assert_eq!(game.find_player("b"), Some(1));
    game.process_auction_win("b", TransactionType::Jit);
    assert_eq!(game.player_stats[1].jit_wins, 1);
    assert_eq!(game.player_stats[0].jit_wins, 0);
    game.process_auction_win("nobody", TransactionType::Jit);
    game.process_auction_loss("nobody");
    game.process_auction_loss("b");
    assert_eq!(game.player_stats[1].current_streak, 0);
    assert_eq!(game.player_stats.len(), 2);
}

#[test]
fn game_removes_the_players_of_ended_sessions() {
    let mut game = GameManager::new();
    for id in ["a", "b", "c", "d"] {
        game.get_or_create_player(name(id));
    }
    game.cleanup_players(&[name("b"), name("d"), name("x")]);
    let left: Vec<&str> = game.player_stats.iter().map(|p| p.session_id.as_str()).collect();
    assert_eq!(left, vec!["a", "c"]);
    game.cleanup_players(&[]);
    assert_eq!(game.player_stats.len(), 2);
}

#[test]
fn paying_for_a_bid_charges_and_tracks() {
    let mut game = GameManager::new();
    assert_eq!(game.pay_for_bid(name("a"), 100, 7), Ok(()));
    assert_eq!(game.player_stats[0].balance, INITIAL_PLAYER_BALANCE - 100);
    assert_eq!(game.player_stats[0].total_sol_spent, 100);
    assert!(game.player_stats[0].participated_slots.contains(&7));
    assert_eq!(game.pay_for_bid(name("a"), u64::MAX, 7), Err(PaymentError::InsufficientBalance));
    game.player_stats[0].total_sol_spent = u64::MAX;
    assert_eq!(game.pay_for_bid(name("a"), 1, 7), Err(PaymentError::PaymentFailed));
    assert_eq!(game.player_stats[0].balance, INITIAL_PLAYER_BALANCE - 100);
}

#[test]
fn refunds_are_credited_to_known_players_only() {
    let mut game = GameManager::new();
    game.pay_for_bid(name("a"), 100, 7).unwrap();
    assert!(game.can_refund("a", 100));
    assert!(game.can_refund("nobody", u128::MAX));
    assert!(!game.can_refund("a", u64::MAX as u128));
    game.refund_player("a", 100, 7);
    assert_eq!(game.player_stats[0].balance, INITIAL_PLAYER_BALANCE);
    assert_eq!(game.player_stats[0].total_auctions_participated, 1);
    game.refund_player("nobody", 100, 7);
    assert_eq!(game.player_stats.len(), 1);
}

#[test]
fn refunds_are_summed_by_bidder() {
    let losers = vec![(name("a"), 5), (name("b"), 7), (name("a"), 11), (name("c"), 0), (name("b"), 1)];
    let refunds = aggregate_refunds(&losers);
    assert_eq!(refunds, vec![(name("a"), 16), (name("b"), 8), (name("c"), 0)]);
    let sum: u128 = refunds.iter().map(|refund| refund.1).sum();
    assert_eq!(sum, 24);
    assert!(aggregate_refunds(&vec![]).is_empty());
    let large = vec![(name("a"), u64::MAX), (name("a"), u64::MAX)];
    assert_eq!(aggregate_refunds(&large), vec![(name("a"), 2 * (u64::MAX as u128))]);
}

#[test]
fn leaderboard_ranks_the_best_ten() {
    let mut game = GameManager::new();
    for i in 0..12u32 {
        let player = game.get_or_create_player(format!("session-{:02}", i));
        player.total_auctions_won = i % 4;
        player.balance = 1_000 - i as u64;
        player.level = i + 1;
        player.total_auctions_participated = if i < 6 { 4 } else { 8 };
    }
    let board = game.generate_leaderboard_at(99);
    assert_eq!(board.last_updated, 99);
    assert_eq!(board.top_by_wins.len(), 10);
    let by_wins: Vec<&str> = board.top_by_wins.iter().map(|e| e.session_id.as_str()).collect();
    assert_eq!(
        by_wins,
        vec![
            "session-03", "session-07", "session-11", "session-02", "session-06", "session-10",
            "session-01", "session-05", "session-09", "session-00"
        ]
    );
    assert_eq!(board.top_by_wins[0].rank, 1);
    assert_eq!(board.top_by_wins[9].rank, 10);
    assert_eq!(board.top_by_wins[0].level, 4);
    assert_eq!(board.top_by_wins[0].display_name, "Player sessio");
    assert_eq!(board.top_by_balance[0].session_id, "session-00");
    assert_eq!(board.top_by_balance[9].session_id, "session-09");
    let by_rate: Vec<&str> = board.top_by_winrate.iter().map(|e| e.session_id.as_str()).collect();
    assert_eq!(
        by_rate,
        vec!["session-07", "session-11", "session-06", "session-10", "session-09", "session-08"]
    );
    assert!(game.generate_leaderboard().last_updated > 1_600_000_000_000);
}

#[test]
fn leaderboard_names_players_by_six_bytes() {
    let mut game = GameManager::new();
    game.get_or_create_player(name("abcdefgh"));
    game.get_or_create_player(name("éabcdxyz"));
    game.get_or_create_player(name("sixsix"));
    assert!(game.can_rank());
    let board = game.generate_leaderboard_at(0);
    assert_eq!(board.top_by_wins[0].display_name, "Player abcdef");
    assert_eq!(board.top_by_wins[1].display_name, "Player éabcd");
    assert_eq!(board.top_by_wins[2].display_name, "Player sixsix");
    assert!(board.top_by_winrate.is_empty());
}

#[test]
fn leaderboard_is_not_made_of_unnameable_sessions() {
    let mut game = GameManager::new();
    assert!(game.can_rank());
    game.get_or_create_player(name("abcdefgh"));
    assert!(game.can_rank());
    game.get_or_create_player(name("abc"));
    assert!(!game.can_rank());
    let mut split = GameManager::new();
    split.get_or_create_player(name("abcdeéfg"));
    assert!(!split.can_rank());
}
