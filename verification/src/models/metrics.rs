//! Achievements and the leaderboard.

use vstd::prelude::*;
use crate::outside::random_in;

verus! {

/// The achievements that a player can earn.
#[derive(Clone, Copy, Debug, PartialEq, Eq, Structural)]
pub enum AchievementType {
    FirstWin,
    FirstBid,
    EarlyBird,
    QuickDraw,
    Participant,
    Beginner,
    BigSpender,
    Veteran,
    StreakStarter,
    Diversified,
    HighRoller,
    Experienced,
    Dedicated,
    WinningStreak,
    Champion,
    BigLeagueSpender,
    EliteTrader,
    Master,
    Legend,
    PerfectRecord,
}

/// Greatest reward, in experience points, of any achievement.
pub const MAX_REWARD_XP: u32 = 500;

impl AchievementType {
    /// The name that the achievement is shown under.
    pub open spec fn title(self) -> Seq<char> {
        match self {
            AchievementType::FirstWin => "First Win!"@,
            AchievementType::FirstBid => "Getting Started"@,
            AchievementType::EarlyBird => "Early Bird"@,
            AchievementType::QuickDraw => "Quick Draw"@,
            AchievementType::Participant => "Active Participant"@,
            AchievementType::Beginner => "Beginner Trader"@,
            AchievementType::BigSpender => "Big Spender"@,
            AchievementType::Veteran => "Veteran Trader"@,
            AchievementType::StreakStarter => "Streak Starter"@,
            AchievementType::Diversified => "Diversified Portfolio"@,
            AchievementType::HighRoller => "High Roller"@,
            AchievementType::Experienced => "Experienced Trader"@,
            AchievementType::Dedicated => "Dedicated Player"@,
            AchievementType::WinningStreak => "On Fire!"@,
            AchievementType::Champion => "Champion"@,
            AchievementType::BigLeagueSpender => "Big League Spender"@,
            AchievementType::EliteTrader => "Elite Trader"@,
            AchievementType::Master => "Master Trader"@,
            AchievementType::Legend => "Legendary!"@,
            AchievementType::PerfectRecord => "Perfect Record"@,
        }
    }

    /// What a player does to earn the achievement.
    pub open spec fn task(self) -> Seq<char> {
        match self {
            AchievementType::FirstWin => "Win your first auction"@,
            AchievementType::FirstBid => "Place your first bid"@,
            AchievementType::EarlyBird => "Win your first AOT auction"@,
            AchievementType::QuickDraw => "Win your first JIT auction"@,
            AchievementType::Participant => "Participate in 5 auctions"@,
            AchievementType::Beginner => "Reach level 2"@,
            AchievementType::BigSpender => "Spend 10 SOL in total"@,
            AchievementType::Veteran => "Win 10 auctions"@,
            AchievementType::StreakStarter => "Win 5 auctions in a row"@,
            AchievementType::Diversified => "Win both JIT and AOT auctions"@,
            AchievementType::HighRoller => "Spend 50 SOL in total"@,
            AchievementType::Experienced => "Reach level 5"@,
            AchievementType::Dedicated => "Participate in 50 auctions"@,
            AchievementType::WinningStreak => "Win 20 auctions in a row"@,
            AchievementType::Champion => "Win 50 auctions"@,
            AchievementType::BigLeagueSpender => "Spend 100 SOL in total"@,
            AchievementType::EliteTrader => "Win 100 auctions"@,
            AchievementType::Master => "Reach level 10"@,
            AchievementType::Legend => "Win 30 auctions in a row"@,
            AchievementType::PerfectRecord => "Win first 10 auctions with 100% win rate"@,
        }
    }

    /// The least reward of the achievement, in experience points.
    pub open spec fn least_reward(self) -> u32 {
        match self {
            AchievementType::FirstWin => 0,
            AchievementType::FirstBid => 10,
            AchievementType::EarlyBird => 30,
            AchievementType::QuickDraw => 30,
            AchievementType::Participant => 35,
            AchievementType::Beginner => 50,
            AchievementType::BigSpender => 75,
            AchievementType::Veteran => 80,
            AchievementType::StreakStarter => 90,
            AchievementType::Diversified => 70,
            AchievementType::HighRoller => 100,
            AchievementType::Experienced => 150,
            AchievementType::Dedicated => 110,
            AchievementType::WinningStreak => 200,
            AchievementType::Champion => 250,
            AchievementType::BigLeagueSpender => 200,
            AchievementType::EliteTrader => 350,
            AchievementType::Master => 500,
            AchievementType::Legend => 400,
            AchievementType::PerfectRecord => 300,
        }
    }

    /// The greatest reward of the achievement, in experience points.
    pub open spec fn greatest_reward(self) -> u32 {
        match self {
            AchievementType::FirstWin => 50,
            AchievementType::FirstBid => 25,
            AchievementType::EarlyBird => 50,
            AchievementType::QuickDraw => 50,
            AchievementType::Participant => 50,
            AchievementType::Beginner => 50,
            AchievementType::BigSpender => 100,
            AchievementType::Veteran => 120,
            AchievementType::StreakStarter => 130,
            AchievementType::Diversified => 110,
            AchievementType::HighRoller => 140,
            AchievementType::Experienced => 150,
            AchievementType::Dedicated => 150,
            AchievementType::WinningStreak => 300,
            AchievementType::Champion => 350,
            AchievementType::BigLeagueSpender => 300,
            AchievementType::EliteTrader => 450,
            AchievementType::Master => 500,
            AchievementType::Legend => 500,
            AchievementType::PerfectRecord => 400,
        }
    }

    /// The least and the greatest reward of the achievement.
    pub fn reward_range(self) -> (range: (u32, u32))
        ensures
            range.0 == self.least_reward(),
            range.1 == self.greatest_reward(),
            range.0 <= range.1 <= MAX_REWARD_XP,
    {
        match self {
            AchievementType::FirstWin => (0, 50),
            AchievementType::FirstBid => (10, 25),
            AchievementType::EarlyBird => (30, 50),
            AchievementType::QuickDraw => (30, 50),
            AchievementType::Participant => (35, 50),
            AchievementType::Beginner => (50, 50),
            AchievementType::BigSpender => (75, 100),
            AchievementType::Veteran => (80, 120),
            AchievementType::StreakStarter => (90, 130),
            AchievementType::Diversified => (70, 110),
            AchievementType::HighRoller => (100, 140),
            AchievementType::Experienced => (150, 150),
            AchievementType::Dedicated => (110, 150),
            AchievementType::WinningStreak => (200, 300),
            AchievementType::Champion => (250, 350),
            AchievementType::BigLeagueSpender => (200, 300),
            AchievementType::EliteTrader => (350, 450),
            AchievementType::Master => (500, 500),
            AchievementType::Legend => (400, 500),
            AchievementType::PerfectRecord => (300, 400),
        }
    }
}

/// An achievement as a player holds it, with the reward it brought.
#[derive(Debug, PartialEq, Eq)]
pub struct Achievement {
    pub achievement_type: AchievementType,
    pub name: String,
    pub description: String,
    pub reward_xp: u32,
}

impl Clone for Achievement {
    fn clone(&self) -> (r: Self)
        ensures
            r == *self,
    {
        Achievement {
            achievement_type: self.achievement_type,
            name: self.name.clone(),
            description: self.description.clone(),
            reward_xp: self.reward_xp,
        }
    }
}

impl Achievement {
    /// Whether this is the achievement `kind` as it is awarded: under its
    /// name, with its task, and with a reward within its range.
    pub open spec fn is_award_of(&self, kind: AchievementType) -> bool {
        &&& self.achievement_type == kind
        &&& self.name@ == kind.title()
        &&& self.description@ == kind.task()
        &&& kind.least_reward() <= self.reward_xp <= kind.greatest_reward()
    }

    /// The achievement `kind` with the reward `reward_xp`.
    pub fn with_reward(kind: AchievementType, reward_xp: u32) -> (achievement: Self)
        ensures
            achievement.achievement_type == kind,
            achievement.name@ == kind.title(),
            achievement.description@ == kind.task(),
            achievement.reward_xp == reward_xp,
    {
        let (name, description) = match kind {
            AchievementType::FirstWin => ("First Win!", "Win your first auction"),
            AchievementType::FirstBid => ("Getting Started", "Place your first bid"),
            AchievementType::EarlyBird => ("Early Bird", "Win your first AOT auction"),
            AchievementType::QuickDraw => ("Quick Draw", "Win your first JIT auction"),
            AchievementType::Participant => ("Active Participant", "Participate in 5 auctions"),
            AchievementType::Beginner => ("Beginner Trader", "Reach level 2"),
            AchievementType::BigSpender => ("Big Spender", "Spend 10 SOL in total"),
            AchievementType::Veteran => ("Veteran Trader", "Win 10 auctions"),
            AchievementType::StreakStarter => ("Streak Starter", "Win 5 auctions in a row"),
            AchievementType::Diversified => ("Diversified Portfolio", "Win both JIT and AOT auctions"),
            AchievementType::HighRoller => ("High Roller", "Spend 50 SOL in total"),
            AchievementType::Experienced => ("Experienced Trader", "Reach level 5"),
            AchievementType::Dedicated => ("Dedicated Player", "Participate in 50 auctions"),
            AchievementType::WinningStreak => ("On Fire!", "Win 20 auctions in a row"),
            AchievementType::Champion => ("Champion", "Win 50 auctions"),
            AchievementType::BigLeagueSpender => ("Big League Spender", "Spend 100 SOL in total"),
            AchievementType::EliteTrader => ("Elite Trader", "Win 100 auctions"),
            AchievementType::Master => ("Master Trader", "Reach level 10"),
            AchievementType::Legend => ("Legendary!", "Win 30 auctions in a row"),
            AchievementType::PerfectRecord => ("Perfect Record", "Win first 10 auctions with 100% win rate"),
        };
        Achievement {
            achievement_type: kind,
            name: name.to_owned(),
            description: description.to_owned(),
            reward_xp,
        }
    }

    /// Awards the achievement `kind`: the reward is drawn from its range.
    pub fn award(kind: AchievementType) -> (achievement: Self)
        ensures
            achievement.is_award_of(kind),
    {
        let (least, greatest) = kind.reward_range();
        let reward = if least == greatest {
            least
        } else {
            random_in(least as u64, greatest as u64) as u32
        };
        Self::with_reward(kind, reward)
    }

    /// Awards "First Win!".
    pub fn first_win() -> (achievement: Self)
        ensures
            achievement.is_award_of(AchievementType::FirstWin),
    {
        Self::award(AchievementType::FirstWin)
    }

    /// Awards "Getting Started".
    pub fn first_bid() -> (achievement: Self)
        ensures
            achievement.is_award_of(AchievementType::FirstBid),
    {
        Self::award(AchievementType::FirstBid)
    }

    /// Awards "Early Bird".
    pub fn early_bird() -> (achievement: Self)
        ensures
            achievement.is_award_of(AchievementType::EarlyBird),
    {
        Self::award(AchievementType::EarlyBird)
    }

    /// Awards "Quick Draw".
    pub fn quick_draw() -> (achievement: Self)
        ensures
            achievement.is_award_of(AchievementType::QuickDraw),
    {
        Self::award(AchievementType::QuickDraw)
    }

    /// Awards "Active Participant".
    pub fn participant() -> (achievement: Self)
        ensures
            achievement.is_award_of(AchievementType::Participant),
    {
        Self::award(AchievementType::Participant)
    }

    /// Awards "Beginner Trader".
    pub fn beginner() -> (achievement: Self)
        ensures
            achievement.is_award_of(AchievementType::Beginner),
    {
        Self::award(AchievementType::Beginner)
    }

    /// Awards "Big Spender".
    pub fn big_spender() -> (achievement: Self)
        ensures
            achievement.is_award_of(AchievementType::BigSpender),
    {
        Self::award(AchievementType::BigSpender)
    }

    /// Awards "Veteran Trader".
    pub fn veteran() -> (achievement: Self)
        ensures
            achievement.is_award_of(AchievementType::Veteran),
    {
        Self::award(AchievementType::Veteran)
    }

    /// Awards "Streak Starter".
    pub fn streak_starter() -> (achievement: Self)
        ensures
            achievement.is_award_of(AchievementType::StreakStarter),
    {
        Self::award(AchievementType::StreakStarter)
    }

    /// Awards "Diversified Portfolio".
    pub fn diversified() -> (achievement: Self)
        ensures
            achievement.is_award_of(AchievementType::Diversified),
    {
        Self::award(AchievementType::Diversified)
    }

    /// Awards "High Roller".
    pub fn high_roller() -> (achievement: Self)
        ensures
            achievement.is_award_of(AchievementType::HighRoller),
    {
        Self::award(AchievementType::HighRoller)
    }

    /// Awards "Experienced Trader".
    pub fn experienced() -> (achievement: Self)
        ensures
            achievement.is_award_of(AchievementType::Experienced),
    {
        Self::award(AchievementType::Experienced)
    }

    /// Awards "Dedicated Player".
    pub fn dedicated() -> (achievement: Self)
        ensures
            achievement.is_award_of(AchievementType::Dedicated),
    {
        Self::award(AchievementType::Dedicated)
    }

    /// Awards "On Fire!".
    pub fn winning_streak() -> (achievement: Self)
        ensures
            achievement.is_award_of(AchievementType::WinningStreak),
    {
        Self::award(AchievementType::WinningStreak)
    }

    /// Awards "Champion".
    pub fn champion() -> (achievement: Self)
        ensures
            achievement.is_award_of(AchievementType::Champion),
    {
        Self::award(AchievementType::Champion)
    }

    /// Awards "Big League Spender".
    pub fn big_league_spender() -> (achievement: Self)
        ensures
            achievement.is_award_of(AchievementType::BigLeagueSpender),
    {
        Self::award(AchievementType::BigLeagueSpender)
    }

    /// Awards "Elite Trader".
    pub fn elite_trader() -> (achievement: Self)
        ensures
            achievement.is_award_of(AchievementType::EliteTrader),
    {
        Self::award(AchievementType::EliteTrader)
    }

    /// Awards "Master Trader".
    pub fn master() -> (achievement: Self)
        ensures
            achievement.is_award_of(AchievementType::Master),
    {
        Self::award(AchievementType::Master)
    }

    /// Awards "Legendary!".
    pub fn legend() -> (achievement: Self)
        ensures
            achievement.is_award_of(AchievementType::Legend),
    {
        Self::award(AchievementType::Legend)
    }

    /// Awards "Perfect Record".
    pub fn perfect_record() -> (achievement: Self)
        ensures
            achievement.is_award_of(AchievementType::PerfectRecord),
    {
        Self::award(AchievementType::PerfectRecord)
    }

}

/// One line of a leaderboard.
#[derive(Debug, PartialEq, Eq)]
pub struct LeaderboardEntry {
    pub session_id: String,
    pub display_name: String,
    pub rank: u32,
    pub level: u32,
}

/// The ten best players by wins, by balance and by win rate.
#[derive(Debug, PartialEq, Eq)]
pub struct Leaderboard {
    pub top_by_wins: Vec<LeaderboardEntry>,
    pub top_by_balance: Vec<LeaderboardEntry>,
    pub top_by_winrate: Vec<LeaderboardEntry>,
    pub last_updated: i64,
}

} // verus!
