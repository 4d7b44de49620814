pub mod auction;
pub mod game;
pub mod leaderboard;
pub mod ledger;
pub mod session;
