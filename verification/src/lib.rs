//! A slot marketplace simulator: a rolling window of numbered slots, each sold
//! to the highest bidder in an immediate (JIT) or an advance (AOT) auction.
//!
//! Money is counted in lamports (`u64`, one SOL is [`LAMPORTS_PER_SOL`]) and
//! time in milliseconds since the Unix epoch (`i64`).

use vstd::prelude::*;

pub mod config;
pub mod events;
pub mod laws;
pub mod managers;
pub mod models;
pub mod outside;
pub mod services;
pub mod state;
pub mod utils;

verus! {

/// Lamports in one SOL.
pub const LAMPORTS_PER_SOL: u64 = 1_000_000_000;

/// Balance of a new player: 100 000 SOL.
pub const INITIAL_PLAYER_BALANCE: u64 = 100_000_000_000_000;

/// Compute units that one slot offers.
pub const MAX_COMPUTE_UNITS_PER_SLOT: u64 = 48_000_000;

/// Least amount by which an AOT bid must exceed the highest bid: 0.001 SOL.
pub const MIN_AOT_BID_INCREMENT: u64 = 1_000_000;

/// The minimum JIT bid is this many hundredths of the base fee.
pub const JIT_PREMIUM_PERCENT: u64 = 105;

/// Number of slots that the marketplace keeps ahead of the current one.
pub const WINDOW_SIZE: u64 = 100;

/// Largest base fee that a marketplace accepts: ten times as much still is
/// an amount.
pub const MAX_BASE_FEE: u64 = 1_844_674_407_370_955_161;

/// Largest duration, in seconds, that an auction can be opened for.
pub const MAX_DURATION_SECONDS: i64 = 9_000_000_000_000_000;

/// Largest slot duration, in milliseconds, that a marketplace accepts.
pub const MAX_SLOT_DURATION_MS: i64 = 90_000_000_000_000_000;

} // verus!
