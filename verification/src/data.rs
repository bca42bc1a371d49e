//! The domain metrics the engine maintains, and their invariants.
//!
//! Every scalar metric is stored in hundredths of its domain unit (two
//! implied decimal places); `height`, `connected_miners` and `total_blocks`
//! are plain counters.

use vstd::prelude::*;

verus! {

/// Chain-wide metrics.  `hashrate` holds `(block height, Th/s hundredths)`
/// points; `difficulty` is in PH hundredths; `price` in hundredths of the
/// stable coin.  `reward` and `reward_reduction` are static placeholders not
/// sourced from any feed.
#[derive(Debug, Clone)]
pub struct NetworkStats {
    pub hashrate: Vec<(u64, u64)>,
    pub difficulty: u64,
    pub height: u64,
    pub reward: u8,
    pub reward_reduction: u8,
    pub price: u64,
}

/// Pool-wide metrics.  `hashrate` holds `(block height, Gh/s hundredths)`
/// points; `effort` and `confirming_new_block` are percentages in hundredths.
#[derive(Debug, Clone)]
pub struct PoolStats {
    pub hashrate: Vec<(u64, u64)>,
    pub connected_miners: u64,
    pub effort: u64,
    pub total_blocks: u64,
    pub confirming_new_block: u64,
}

/// Per-miner metrics.  No live feed fills these yet; they stay at their
/// initial values until a per-miner source exists.
#[derive(Debug, Clone)]
pub struct MinerStats {
    pub hashrate: Vec<(u64, u64)>,
    pub average_hashrate: u64,
    pub pending_shares: u64,
    pub pending_balance: u64,
    pub round_contribution: u64,
    pub total_paid: u64,
}

/// The snapshot handed read-only to the presentation layer once per tick.
#[derive(Debug, Clone)]
pub struct Stats {
    pub network: NetworkStats,
    pub pool: PoolStats,
    pub miner: MinerStats,
}

/// `confirming_new_block` is a percentage: at most 100.00.
pub const CONFIRMING_MAX: u64 = 10000;

impl Stats {
    /// The engine's invariant, held after construction and across every
    /// cycle: the two histories are equally long, hold at most 720 points,
    /// are height-aligned entry for entry, strictly ascend in height, never
    /// run ahead of the current height, and the confirmation gauge stays
    /// within 0..=100%.
    pub open spec fn wf(&self) -> bool {
        &&& self.network.hashrate@.len() == self.pool.hashrate@.len()
        &&& self.network.hashrate@.len() <= crate::HISTORY_CAPACITY
        &&& self.pool.confirming_new_block <= CONFIRMING_MAX
        &&& forall|i: int, j: int|
            0 <= i < j < self.network.hashrate@.len() ==> (#[trigger] self.network.hashrate@[i]).0
                < (#[trigger] self.network.hashrate@[j]).0
        &&& forall|i: int|
            0 <= i < self.network.hashrate@.len() ==> (#[trigger] self.pool.hashrate@[i]).0 == (
            #[trigger] self.network.hashrate@[i]).0
        &&& forall|i: int|
            0 <= i < self.network.hashrate@.len() ==> (#[trigger] self.network.hashrate@[i]).0
                <= self.network.height
    }

    /// The all-zero, empty-history snapshot every run starts from.
    pub fn default() -> (s: Stats)
        ensures
            s.wf(),
            s.network.hashrate@.len() == 0,
            s.network.difficulty == 0,
            s.network.height == 0,
            s.network.reward == 0,
            s.network.reward_reduction == 0,
            s.network.price == 0,
            s.pool.hashrate@.len() == 0,
            s.pool.connected_miners == 0,
            s.pool.effort == 0,
            s.pool.total_blocks == 0,
            s.pool.confirming_new_block == 0,
            s.miner.hashrate@.len() == 0,
            s.miner.average_hashrate == 0,
            s.miner.pending_shares == 0,
            s.miner.pending_balance == 0,
            s.miner.round_contribution == 0,
            s.miner.total_paid == 0,
    {
        Stats {
            network: NetworkStats {
                hashrate: Vec::new(),
                difficulty: 0,
                height: 0,
                reward: 0,
                reward_reduction: 0,
                price: 0,
            },
            pool: PoolStats {
                hashrate: Vec::new(),
                connected_miners: 0,
                effort: 0,
                total_blocks: 0,
                confirming_new_block: 0,
            },
            miner: MinerStats {
                hashrate: Vec::new(),
                average_hashrate: 0,
                pending_shares: 0,
                pending_balance: 0,
                round_contribution: 0,
                total_paid: 0,
            },
        }
    }
}

} // verus!
