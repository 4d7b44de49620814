pub mod refunds;
pub mod session;
pub mod settlement;
pub mod transaction;
