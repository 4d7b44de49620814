pub mod amount;
pub mod lookup;
pub mod ranking;
pub mod rate_limiter;
pub mod text;
pub mod transaction;
pub mod walk;
