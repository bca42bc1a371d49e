//! A verified stats-aggregation engine for a mining-pool dashboard.
//!
//! The engine polls three JSON feeds (handled by an unverified driver),
//! normalizes the raw values into domain units stored as integer hundredths,
//! gates every update on the observed block height, and maintains two
//! height-aligned, fixed-capacity hashrate histories.

pub mod data;
pub mod database;
pub mod engine;
pub mod extract;
pub mod history;
pub mod json;
pub mod num;

pub use data::MinerStats;
pub use data::NetworkStats;
pub use data::PoolStats;
pub use data::Stats;
pub use database::get_network_hashrate;
pub use engine::BeginOutcome;
pub use engine::UpdateError;
pub use extract::parse_blocks;
pub use extract::parse_info;
pub use extract::parse_prices;
pub use extract::parse_primary;
pub use extract::BlockInfo;
pub use extract::InfoFields;
pub use extract::PriceEntry;
pub use extract::PrimaryFields;
pub use num::Dec;

use vstd::prelude::*;

verus! {

/// Number of (height, value) points each hashrate history retains.
pub const HISTORY_CAPACITY: usize = 720;

} // verus!
