pub mod auction;
pub mod marketplace;
pub mod metrics;
pub mod player;
pub mod requests;
pub mod responses;
pub mod session;
pub mod slot;
pub mod transaction;
pub mod types;
