//! What the marketplace keeps of a player: the balance, the counters, the
//! level and the achievements.

use std::collections::HashSet;
use vstd::prelude::*;
use crate::models::metrics::{Achievement, AchievementType, MAX_REWARD_XP};
use crate::models::types::TransactionType;
use crate::outside::random_in;
use crate::{INITIAL_PLAYER_BALANCE, LAMPORTS_PER_SOL};

verus! {

/// Number of achievements that there are.
pub const ACHIEVEMENT_COUNT: u32 = 20;

/// Least number of experience points that a won auction brings.
pub const MIN_WIN_XP: u32 = 5;

/// Greatest number of experience points that a won auction brings.
pub const MAX_WIN_XP: u32 = 19;

/// Greatest number of experience points with which a won auction can still
/// be counted.
pub const XP_CEILING: u32 = 4_294_957_276;

/// Highest level at which a won auction can still be counted.
pub const LEVEL_CEILING: u32 = 42_949_651;

/// A balance that does not cover an amount.
#[derive(Clone, Copy, Debug, PartialEq, Eq, Structural)]
pub struct InsufficientBalance {
    pub have: u64,
    pub need: u64,
}

/// The record of one player.
#[derive(Debug)]
pub struct PlayerStats {
    pub session_id: String,
    pub balance: u64,
    pub total_sol_spent: u64,
    pub total_auctions_participated: u32,
    pub total_auctions_won: u32,
    pub level: u32,
    pub current_streak: u32,
    pub best_streak: u32,
    pub xp: u32,
    pub achievements: Vec<Achievement>,
    pub participated_slots: HashSet<u64>,
    pub resolved_slots: HashSet<u64>,
    pub jit_wins: u32,
    pub aot_wins: u32,
    pub has_placed_first_bid: bool,
    pub total_bids_placed: u32,
}

/// What a [`PlayerStats`] holds, with the achievements as a sequence and the
/// slots as sets.
pub ghost struct PlayerStatsView {
    pub session_id: String,
    pub balance: u64,
    pub total_sol_spent: u64,
    pub total_auctions_participated: u32,
    pub total_auctions_won: u32,
    pub level: u32,
    pub current_streak: u32,
    pub best_streak: u32,
    pub xp: u32,
    pub achievements: Seq<Achievement>,
    pub participated_slots: Set<u64>,
    pub resolved_slots: Set<u64>,
    pub jit_wins: u32,
    pub aot_wins: u32,
    pub has_placed_first_bid: bool,
    pub total_bids_placed: u32,
}

impl View for PlayerStats {
    type V = PlayerStatsView;

    open spec fn view(&self) -> PlayerStatsView {
        PlayerStatsView {
            session_id: self.session_id,
            balance: self.balance,
            total_sol_spent: self.total_sol_spent,
            total_auctions_participated: self.total_auctions_participated,
            total_auctions_won: self.total_auctions_won,
            level: self.level,
            current_streak: self.current_streak,
            best_streak: self.best_streak,
            xp: self.xp,
            achievements: self.achievements@,
            participated_slots: self.participated_slots@,
            resolved_slots: self.resolved_slots@,
            jit_wins: self.jit_wins,
            aot_wins: self.aot_wins,
            has_placed_first_bid: self.has_placed_first_bid,
            total_bids_placed: self.total_bids_placed,
        }
    }
}

/// The order in which achievements are looked at and awarded.
pub open spec fn award_order() -> Seq<AchievementType> {
    seq![
        AchievementType::FirstBid,
        AchievementType::FirstWin,
        AchievementType::QuickDraw,
        AchievementType::EarlyBird,
        AchievementType::Participant,
        AchievementType::Beginner,
        AchievementType::BigSpender,
        AchievementType::Veteran,
        AchievementType::StreakStarter,
        AchievementType::Diversified,
        AchievementType::HighRoller,
        AchievementType::Experienced,
        AchievementType::Dedicated,
        AchievementType::WinningStreak,
        AchievementType::Champion,
        AchievementType::BigLeagueSpender,
        AchievementType::EliteTrader,
        AchievementType::Master,
        AchievementType::Legend,
        AchievementType::PerfectRecord,
    ]
}

/// Whether `awards` are the achievements `kinds`, one for one, as they are
/// awarded.
pub open spec fn are_awards_of(awards: Seq<Achievement>, kinds: Seq<AchievementType>) -> bool {
    &&& awards.len() == kinds.len()
    &&& forall|i: int| 0 <= i < awards.len() ==> (#[trigger] awards[i]).is_award_of(kinds[i])
}

impl PlayerStatsView {
    /// The record of a player who has not played yet.
    pub open spec fn fresh(session_id: String) -> PlayerStatsView {
        PlayerStatsView {
            session_id,
            balance: INITIAL_PLAYER_BALANCE,
            total_sol_spent: 0,
            total_auctions_participated: 0,
            total_auctions_won: 0,
            level: 1,
            current_streak: 0,
            best_streak: 0,
            xp: 0,
            achievements: Seq::empty(),
            participated_slots: Set::empty(),
            resolved_slots: Set::empty(),
            jit_wins: 0,
            aot_wins: 0,
            has_placed_first_bid: false,
            total_bids_placed: 0,
        }
    }

    /// Whether the counters that a bid of `amount` raises have room for it.
    pub open spec fn can_pay(self, amount: u64) -> bool {
        &&& self.total_sol_spent + amount <= u64::MAX
        &&& self.total_bids_placed < u32::MAX
    }

    /// The record after `amount` was paid for a bid on `slot_number`.
    pub open spec fn after_payment(self, amount: u64, slot_number: u64) -> PlayerStatsView {
        PlayerStatsView {
            balance: (self.balance - amount) as u64,
            total_sol_spent: (self.total_sol_spent + amount) as u64,
            participated_slots: self.participated_slots.insert(slot_number),
            has_placed_first_bid: true,
            total_bids_placed: (self.total_bids_placed + 1) as u32,
            ..self
        }
    }

    /// The experience points that the next level costs.
    pub open spec fn next_level_cost(self) -> int {
        self.level * 100
    }

    /// Whether `amount` experience points can be added within `u32`.
    pub open spec fn can_take_xp(self, amount: u32) -> bool {
        &&& self.xp + amount <= u32::MAX
        &&& self.next_level_cost() <= u32::MAX
        &&& self.level < u32::MAX
    }

    /// The record with `amount` more experience points: the player rises
    /// one level, and pays its cost, when the points reach it.
    pub open spec fn with_xp(self, amount: u32) -> PlayerStatsView {
        let total = self.xp + amount;
        if total >= self.next_level_cost() {
            PlayerStatsView {
                level: (self.level + 1) as u32,
                xp: (total - self.next_level_cost()) as u32,
                ..self
            }
        } else {
            PlayerStatsView { xp: total as u32, ..self }
        }
    }

    /// The record once the auction on `slot_number` is over: an auction that
    /// the player took part in counts, once.
    pub open spec fn with_resolved(self, slot_number: u64) -> PlayerStatsView {
        if self.participated_slots.contains(slot_number) {
            PlayerStatsView {
                resolved_slots: self.resolved_slots.insert(slot_number),
                total_auctions_participated: if self.resolved_slots.contains(slot_number) {
                    self.total_auctions_participated
                } else {
                    (self.total_auctions_participated + 1) as u32
                },
                ..self
            }
        } else {
            self
        }
    }

    /// Whether the player holds the achievement `kind`.
    pub open spec fn holds(self, kind: AchievementType) -> bool {
        exists|i: int|
            0 <= i < self.achievements.len() && (#[trigger] self.achievements[i]).achievement_type
                == kind
    }

    /// Whether the player has done what the achievement `kind` asks.
    pub open spec fn qualifies(self, kind: AchievementType) -> bool {
        match kind {
            AchievementType::FirstBid => self.has_placed_first_bid,
            AchievementType::FirstWin => self.total_auctions_won == 1,
            AchievementType::QuickDraw => self.jit_wins >= 1,
            AchievementType::EarlyBird => self.aot_wins >= 1,
            AchievementType::Participant => self.total_auctions_participated >= 5,
            AchievementType::Beginner => self.level >= 2,
            AchievementType::BigSpender => self.total_sol_spent >= 10 * LAMPORTS_PER_SOL,
            AchievementType::Veteran => self.total_auctions_won >= 10,
            AchievementType::StreakStarter => self.current_streak >= 5,
            AchievementType::Diversified => self.jit_wins > 0 && self.aot_wins > 0,
            AchievementType::HighRoller => self.total_sol_spent >= 50 * LAMPORTS_PER_SOL,
            AchievementType::Experienced => self.level >= 5,
            AchievementType::Dedicated => self.total_auctions_participated >= 50,
            AchievementType::WinningStreak => self.current_streak >= 20,
            AchievementType::Champion => self.total_auctions_won >= 50,
            AchievementType::BigLeagueSpender => self.total_sol_spent >= 100 * LAMPORTS_PER_SOL,
            AchievementType::EliteTrader => self.total_auctions_won >= 100,
            AchievementType::Master => self.level >= 10,
            AchievementType::Legend => self.current_streak >= 30,
            AchievementType::PerfectRecord => self.total_auctions_participated >= 10
                && self.total_auctions_won >= 10 && self.total_auctions_won
                == self.total_auctions_participated,
        }
    }

    /// Whether the achievement `kind` is due: asked for and not yet held.
    pub open spec fn earns(self, kind: AchievementType) -> bool {
        self.qualifies(kind) && !self.holds(kind)
    }

    /// Those of `kinds` that are due, in their order.
    pub open spec fn due_among(self, kinds: Seq<AchievementType>) -> Seq<AchievementType>
        decreases kinds.len(),
    {
        if kinds.len() == 0 {
            Seq::empty()
        } else {
            let before = self.due_among(kinds.drop_last());
            if self.earns(kinds.last()) {
                before.push(kinds.last())
            } else {
                before
            }
        }
    }

    /// The achievements that are due, in the order they are awarded in.
    pub open spec fn due(self) -> Seq<AchievementType> {
        self.due_among(award_order())
    }

    /// The record with one more achievement and its reward.
    pub open spec fn with_award(self, award: Achievement) -> PlayerStatsView {
        let rewarded = self.with_xp(award.reward_xp);
        PlayerStatsView { achievements: rewarded.achievements.push(award), ..rewarded }
    }

    /// The record with the achievements `awards`, taken one after another.
    pub open spec fn with_awards(self, awards: Seq<Achievement>) -> PlayerStatsView
        decreases awards.len(),
    {
        if awards.len() == 0 {
            self
        } else {
            self.with_awards(awards.drop_last()).with_award(awards.last())
        }
    }

    /// Whether every achievement can still be awarded within `u32`.
    pub open spec fn has_award_room(self) -> bool {
        &&& self.xp + ACHIEVEMENT_COUNT * MAX_REWARD_XP <= u32::MAX
        &&& (self.level + ACHIEVEMENT_COUNT) * 100 <= u32::MAX
    }

    /// The record after a won auction of the kind `kind`, before the points
    /// for it are added.
    pub open spec fn with_win(self, kind: TransactionType) -> PlayerStatsView {
        let streak = (self.current_streak + 1) as u32;
        PlayerStatsView {
            total_auctions_won: (self.total_auctions_won + 1) as u32,
            current_streak: streak,
            best_streak: if streak > self.best_streak {
                streak
            } else {
                self.best_streak
            },
            jit_wins: if kind == TransactionType::Jit {
                (self.jit_wins + 1) as u32
            } else {
                self.jit_wins
            },
            aot_wins: if kind == TransactionType::Jit {
                self.aot_wins
            } else {
                (self.aot_wins + 1) as u32
            },
            ..self
        }
    }

    /// Whether one more win, with its points and every achievement, can be
    /// counted within `u32`.
    pub open spec fn has_win_room(self) -> bool {
        &&& self.total_auctions_won < u32::MAX
        &&& self.current_streak < u32::MAX
        &&& self.jit_wins < u32::MAX
        &&& self.aot_wins < u32::MAX
        &&& self.xp <= XP_CEILING
        &&& self.level <= LEVEL_CEILING
    }

    /// The record after a won auction that brought `bonus` points, before
    /// the achievements are looked at.
    pub open spec fn after_win(self, kind: TransactionType, bonus: u32) -> PlayerStatsView {
        self.with_win(kind).with_xp(bonus)
    }

    /// Whether `result` is this record after `awards` were given for the
    /// achievements that were due.
    pub open spec fn is_awarded(self, result: PlayerStatsView, awards: Seq<Achievement>) -> bool {
        are_awards_of(awards, self.due()) && result == self.with_awards(awards)
    }

    /// Whether `result` is this record after a won auction that brought
    /// `bonus` points and then `awards` for the achievements that were due.
    pub open spec fn is_won(
        self,
        result: PlayerStatsView,
        kind: TransactionType,
        bonus: u32,
        awards: Seq<Achievement>,
    ) -> bool {
        &&& MIN_WIN_XP <= bonus <= MAX_WIN_XP
        &&& self.after_win(kind, bonus).is_awarded(result, awards)
    }

    /// Whether `result` is this record after a lost auction and then
    /// `awards` for the achievements that were due.
    pub open spec fn is_lost(self, result: PlayerStatsView, awards: Seq<Achievement>) -> bool {
        self.after_loss().is_awarded(result, awards)
    }

    /// The record after a lost auction, before the achievements are looked
    /// at: the streak is over.
    pub open spec fn after_loss(self) -> PlayerStatsView {
        PlayerStatsView { current_streak: 0, ..self }
    }
}

/// Adding points raises the points by no more than the amount and the level
/// by no more than one.
pub proof fn lemma_with_xp_bounds(stats: PlayerStatsView, amount: u32)
    ensures
        stats.with_xp(amount).xp <= stats.xp + amount,
        stats.level <= stats.with_xp(amount).level <= stats.level + 1,
{
}

impl PlayerStats {
    /// The record of a new player: the initial balance, level 1, nothing
    /// played.
    pub fn new(session_id: String) -> (stats: Self)
        ensures
            stats@ == PlayerStatsView::fresh(session_id),
    {
        PlayerStats {
            session_id,
            balance: INITIAL_PLAYER_BALANCE,
            total_sol_spent: 0,
            total_auctions_participated: 0,
            total_auctions_won: 0,
            level: 1,
            current_streak: 0,
            best_streak: 0,
            xp: 0,
            achievements: Vec::new(),
            participated_slots: HashSet::new(),
            resolved_slots: HashSet::new(),
            jit_wins: 0,
            aot_wins: 0,
            has_placed_first_bid: false,
            total_bids_placed: 0,
        }
    }

    /// Credits `amount` to the balance.
    pub fn increment_balance(&mut self, amount: u64)
        requires
            old(self).balance + amount <= u64::MAX,
        ensures
            final(self)@ == (PlayerStatsView {
                balance: (old(self).balance + amount) as u64,
                ..old(self)@
            }),
    {
        self.balance = self.balance + amount;
    }

    /// Takes `amount` from the balance and counts it as spent, if the
    /// balance covers it.
    pub fn deduct_balance(&mut self, amount: u64) -> (result: Result<(), InsufficientBalance>)
        requires
            old(self).balance >= amount ==> old(self).total_sol_spent + amount <= u64::MAX,
        ensures
            old(self).balance >= amount ==> result == Ok::<(), InsufficientBalance>(()) && final(self)@ == (PlayerStatsView {
                balance: (old(self).balance - amount) as u64,
                total_sol_spent: (old(self).total_sol_spent + amount) as u64,
                ..old(self)@
            }),
            old(self).balance < amount ==> result == Err::<(), InsufficientBalance>(
                InsufficientBalance { have: old(self).balance, need: amount },
            ) && final(self)@ == old(self)@,
    {
        if self.is_balance_sufficient(amount) {
            self.balance = self.balance - amount;
            self.total_sol_spent = self.total_sol_spent + amount;
            Ok(())
        } else {
            Err(InsufficientBalance { have: self.balance, need: amount })
        }
    }

    /// Whether the balance covers `amount`.
    pub fn is_balance_sufficient(&self, amount: u64) -> (sufficient: bool)
        ensures
            sufficient == (self.balance >= amount),
    {
        self.balance >= amount
    }

    /// The share of won auctions among those taken part in, in percent,
    /// rounded down; 0 for a player who took part in none.
    pub fn win_rate(&self) -> (percent: u64)
        ensures
            self.total_auctions_participated == 0 ==> percent == 0,
            self.total_auctions_participated > 0 ==> percent == self.total_auctions_won * 100
                / (self.total_auctions_participated as int),
    {
        if self.total_auctions_participated == 0 {
            0
        } else {
            (self.total_auctions_won as u64) * 100 / (self.total_auctions_participated as u64)
        }
    }

    /// Adds experience points; the player rises one level when the points
    /// reach its cost, a hundred times the level.
    pub fn add_xp(&mut self, amount: u32)
        requires
            old(self)@.can_take_xp(amount),
        ensures
            final(self)@ == old(self)@.with_xp(amount),
    {
        self.xp = self.xp + amount;
        self.check_level_up();
    }

    fn check_level_up(&mut self)
        requires
            old(self).level * 100 <= u32::MAX,
            old(self).level < u32::MAX,
        ensures
            final(self)@ == if old(self).xp >= old(self).level * 100 {
                PlayerStatsView {
                    level: (old(self).level + 1) as u32,
                    xp: (old(self).xp - old(self).level * 100) as u32,
                    ..old(self)@
                }
            } else {
                old(self)@
            },
    {
        let required_xp = self.level * 100;
        if self.xp >= required_xp {
            self.level = self.level + 1;
            self.xp = self.xp - required_xp;
        }
    }

    /// Notes a bid on `slot_number`.
    pub fn track_bid(&mut self, slot_number: u64)
        requires
            old(self).total_bids_placed < u32::MAX,
        ensures
            final(self)@ == (PlayerStatsView {
                participated_slots: old(self)@.participated_slots.insert(slot_number),
                has_placed_first_bid: true,
                total_bids_placed: (old(self).total_bids_placed + 1) as u32,
                ..old(self)@
            }),
    {
        self.participated_slots.insert(slot_number);
        self.has_placed_first_bid = true;
        self.total_bids_placed = self.total_bids_placed + 1;
    }

    /// Notes that the auction on `slot_number` is over.
    pub fn mark_auction_resolved(&mut self, slot_number: u64)
        requires
            old(self).total_auctions_participated < u32::MAX,
        ensures
            final(self)@ == old(self)@.with_resolved(slot_number),
    {
        if self.participated_slots.contains(&slot_number) {
            let ghost held = self.resolved_slots@;
            let newly = self.resolved_slots.insert(slot_number);
            if newly {
                self.total_auctions_participated = self.total_auctions_participated + 1;
            } else {
                assert(self.resolved_slots@ =~= held);
            }
        }
    }

    /// Counts a won JIT auction.
    pub fn record_jit_win(&mut self)
        requires
            old(self).jit_wins < u32::MAX,
        ensures
            final(self)@ == (PlayerStatsView {
                jit_wins: (old(self).jit_wins + 1) as u32,
                ..old(self)@
            }),
    {
        self.jit_wins = self.jit_wins + 1;
    }

    /// Counts a won AOT auction.
    pub fn record_aot_win(&mut self)
        requires
            old(self).aot_wins < u32::MAX,
        ensures
            final(self)@ == (PlayerStatsView {
                aot_wins: (old(self).aot_wins + 1) as u32,
                ..old(self)@
            }),
    {
        self.aot_wins = self.aot_wins + 1;
    }

    /// Whether the player has won an auction of each kind.
    pub fn has_won_both_auction_types(&self) -> (both: bool)
        ensures
            both == (self.jit_wins > 0 && self.aot_wins > 0),
    {
        self.jit_wins > 0 && self.aot_wins > 0
    }

    /// Whether the player has won all of at least ten auctions.
    pub fn has_perfect_record(&self) -> (perfect: bool)
        ensures
            perfect == self@.qualifies(AchievementType::PerfectRecord),
    {
        self.total_auctions_participated >= 10 && self.total_auctions_won >= 10
            && self.total_auctions_won == self.total_auctions_participated
    }

    /// Whether the player holds the achievement `kind`.
    pub fn has_achievement(&self, kind: AchievementType) -> (held: bool)
        ensures
            held == self@.holds(kind),
    {
        let mut i: usize = 0;
        while i < self.achievements.len()
            invariant
                i <= self.achievements.len(),
                forall|n: int| 0 <= n < i ==> (#[trigger] self.achievements@[n]).achievement_type != kind,
            decreases self.achievements.len() - i,
        {
            if self.achievements[i].achievement_type == kind {
                return true;
            }
            i += 1;
        }
        false
    }

    /// Whether the player has done what the achievement `kind` asks.
    pub fn qualifies_for(&self, kind: AchievementType) -> (qualified: bool)
        ensures
            qualified == self@.qualifies(kind),
    {
        match kind {
            AchievementType::FirstBid => self.has_placed_first_bid,
            AchievementType::FirstWin => self.total_auctions_won == 1,
            AchievementType::QuickDraw => self.jit_wins >= 1,
            AchievementType::EarlyBird => self.aot_wins >= 1,
            AchievementType::Participant => self.total_auctions_participated >= 5,
            AchievementType::Beginner => self.level >= 2,
            AchievementType::BigSpender => self.total_sol_spent >= 10 * LAMPORTS_PER_SOL,
            AchievementType::Veteran => self.total_auctions_won >= 10,
            AchievementType::StreakStarter => self.current_streak >= 5,
            AchievementType::Diversified => self.has_won_both_auction_types(),
            AchievementType::HighRoller => self.total_sol_spent >= 50 * LAMPORTS_PER_SOL,
            AchievementType::Experienced => self.level >= 5,
            AchievementType::Dedicated => self.total_auctions_participated >= 50,
            AchievementType::WinningStreak => self.current_streak >= 20,
            AchievementType::Champion => self.total_auctions_won >= 50,
            AchievementType::BigLeagueSpender => self.total_sol_spent >= 100 * LAMPORTS_PER_SOL,
            AchievementType::EliteTrader => self.total_auctions_won >= 100,
            AchievementType::Master => self.level >= 10,
            AchievementType::Legend => self.current_streak >= 30,
            AchievementType::PerfectRecord => self.has_perfect_record(),
        }
    }

    /// The achievements that are due, in the order they are awarded in.
    pub fn due_achievements(&self) -> (due: Vec<AchievementType>)
        ensures
            due@ == self@.due(),
            due@.len() <= ACHIEVEMENT_COUNT,
    {
        let order: Vec<AchievementType> = vec![
            AchievementType::FirstBid,
            AchievementType::FirstWin,
            AchievementType::QuickDraw,
            AchievementType::EarlyBird,
            AchievementType::Participant,
            AchievementType::Beginner,
            AchievementType::BigSpender,
            AchievementType::Veteran,
            AchievementType::StreakStarter,
            AchievementType::Diversified,
            AchievementType::HighRoller,
            AchievementType::Experienced,
            AchievementType::Dedicated,
            AchievementType::WinningStreak,
            AchievementType::Champion,
            AchievementType::BigLeagueSpender,
            AchievementType::EliteTrader,
            AchievementType::Master,
            AchievementType::Legend,
            AchievementType::PerfectRecord,
        ];
        assert(order@ =~= award_order());
        let mut due: Vec<AchievementType> = Vec::new();
        let mut i: usize = 0;
        while i < order.len()
            invariant
                i <= order.len(),
                order@ == award_order(),
                due@ == self@.due_among(order@.take(i as int)),
                due@.len() <= i,
            decreases order.len() - i,
        {
            let ghost next = order@.take(i + 1);
            assert(next.drop_last() == order@.take(i as int));
            assert(next.last() == order@[i as int]);
            let kind = order[i];
            if self.qualifies_for(kind) && !self.has_achievement(kind) {
                due.push(kind);
            }
            i += 1;
        }
        assert(order@.take(i as int) == order@);
        due
    }

    /// Whether every achievement can still be awarded within `u32`.
    pub fn can_take_awards(&self) -> (room: bool)
        ensures
            room == self@.has_award_room(),
    {
        self.xp <= u32::MAX - ACHIEVEMENT_COUNT * MAX_REWARD_XP && self.level <= (u32::MAX / 100)
            - ACHIEVEMENT_COUNT
    }

    /// Whether one more win, with its points and every achievement, can be
    /// counted within `u32`.
    pub fn can_count_win(&self) -> (room: bool)
        ensures
            room == self@.has_win_room(),
    {
        self.total_auctions_won < u32::MAX && self.current_streak < u32::MAX && self.jit_wins
            < u32::MAX && self.aot_wins < u32::MAX && self.xp <= XP_CEILING && self.level
            <= LEVEL_CEILING
    }

    /// Counts a won auction: the win, the streak, a bonus of
    /// [`MIN_WIN_XP`] to [`MAX_WIN_XP`] points, and then the achievements
    /// that are due.
    pub fn process_win(&mut self, transaction_type: TransactionType)
        requires
            old(self)@.has_win_room(),
        ensures
            exists|bonus: u32, awards: Seq<Achievement>| #[trigger]
                old(self)@.is_won(
                    final(self)@,
                    transaction_type,
                    bonus,
                    awards,
                ),
            final(self).session_id == old(self).session_id,
    {
        self.total_auctions_won = self.total_auctions_won + 1;
        self.current_streak = self.current_streak + 1;
        if self.current_streak > self.best_streak {
            self.best_streak = self.current_streak;
        }
        match transaction_type {
            TransactionType::Jit => self.record_jit_win(),
            TransactionType::Aot => self.record_aot_win(),
        }
        let bonus = random_in(MIN_WIN_XP as u64, MAX_WIN_XP as u64) as u32;
        assert(self@ == old(self)@.with_win(transaction_type));
        proof {
            let level = self.level as int;
            assert(level * 100 <= 42_949_651 * 100) by (nonlinear_arith)
                requires
                    level <= 42_949_651,
            ;
            lemma_with_xp_bounds(self@, bonus);
        }
        self.add_xp(bonus);
        let ghost won = self@;
        proof {
            let level = self.level as int;
            assert((level + 20) * 100 <= 42_949_672 * 100) by (nonlinear_arith)
                requires
                    level <= 42_949_652,
            ;
        }
        self.check_achievements();
        proof {
            let awards = choose|awards: Seq<Achievement>| #[trigger] won.is_awarded(self@, awards);
            assert(old(self)@.is_won(
                self@,
                transaction_type,
                bonus,
                awards,
            ));
        }
    }

    /// Counts a lost auction: the streak is over; then the achievements
    /// that are due are awarded.
    pub fn process_loss(&mut self)
        requires
            old(self)@.has_award_room(),
        ensures
            exists|awards: Seq<Achievement>| #[trigger] old(self)@.is_lost(final(self)@, awards),
            final(self).session_id == old(self).session_id,
    {
        self.current_streak = 0;
        let ghost lost = self@;
        self.check_achievements();
        proof {
            let awards = choose|awards: Seq<Achievement>| #[trigger] lost.is_awarded(self@, awards);
            assert(old(self)@.is_lost(self@, awards));
        }
    }

    /// Awards every achievement that is due: each brings a reward drawn
    /// from its range, added as experience points, in the order of the
    /// awards.
    pub fn check_achievements(&mut self)
        requires
            old(self)@.has_award_room(),
        ensures
            exists|awards: Seq<Achievement>| #[trigger] old(self)@.is_awarded(final(self)@, awards),
            final(self).session_id == old(self).session_id,
    {
        let due = self.due_achievements();
        let ghost mut awards: Seq<Achievement> = Seq::empty();
        let mut i: usize = 0;
        while i < due.len()
            invariant
                i <= due.len(),
                due@ == old(self)@.due(),
                due@.len() <= ACHIEVEMENT_COUNT,
                old(self)@.has_award_room(),
                are_awards_of(awards, due@.take(i as int)),
                self@ == old(self)@.with_awards(awards),
                self.session_id == old(self).session_id,
                self.xp <= old(self).xp + i * MAX_REWARD_XP,
                old(self).level <= self.level <= old(self).level + i,
            decreases due.len() - i,
        {
            let award = Achievement::award(due[i]);
            proof {
                lemma_with_xp_bounds(self@, award.reward_xp);
                let level = self.level as int;
                let ceiling = old(self).level + ACHIEVEMENT_COUNT;
                assert(level * 100 <= ceiling * 100) by (nonlinear_arith)
                    requires
                        level <= ceiling,
                ;
                assert(i * MAX_REWARD_XP + MAX_REWARD_XP <= ACHIEVEMENT_COUNT * MAX_REWARD_XP)
                    by (nonlinear_arith)
                    requires
                        i < ACHIEVEMENT_COUNT,
                ;
            }
            self.add_xp(award.reward_xp);
            proof {
                let longer = awards.push(award);
                assert(longer.drop_last() == awards);
                assert(longer.last() == award);
                assert(are_awards_of(longer, due@.take(i + 1))) by {
                    assert forall|n: int| 0 <= n < longer.len() implies (#[trigger] longer[n]).is_award_of(
                        due@.take(i + 1)[n],
                    ) by {
                        if n < awards.len() {
                            assert(longer[n] == awards[n]);
                            assert(due@.take(i as int)[n] == due@.take(i + 1)[n]);
                        }
                    }
                }
                awards = longer;
            }
            self.achievements.push(award);
            i += 1;
        }
        assert(due@.take(i as int) == due@);
        assert(old(self)@.is_awarded(self@, awards));
    }
}

} // verus!
