//! The poll-cycle engine: change gate, field normalization, history upkeep.
//!
//! One cycle works on the documents fetched from the three feeds, already
//! extracted into plain values.  A failed fetch (or an unparseable body)
//! arrives as `None`.  The cycle is driven in three steps so a caller can
//! fetch the secondary feeds only when a new block was observed:
//!
//! 1. [`Stats::begin_cycle`]: the change gate.  A primary failure leaves the
//!    snapshot untouched; an unchanged (or absent, or lower) height ends the
//!    cycle with nothing modified; a new height is committed at once.
//! 2. [`Stats::apply_secondaries`]: once a new height is in, normalizes and
//!    commits the height-gated fields; a missing secondary document aborts
//!    with only the height committed.
//! 3. [`Stats::apply_confirmation`]: the confirmation gauge from the
//!    blocks-detail document.
//!
//! [`Stats::update`] runs the three in order for callers that fetched
//! everything up front.

use vstd::prelude::*;

use crate::data::{Stats, CONFIRMING_MAX};
use crate::extract::{BlockInfo, InfoFields, PriceEntry, PrimaryFields};
use crate::history::{lemma_capacity_eviction, push, trim, trim_spec};
use crate::num::{recip_spec, recip_to_hundredths, scale_spec, scale_to_hundredths, Dec};
use crate::HISTORY_CAPACITY;

verus! {

/// Why a cycle reported failure.
#[derive(Clone, Copy, PartialEq, Eq, Structural, Debug)]
pub enum UpdateError {
    /// The primary pool-stats document was missing or unreadable: the whole
    /// cycle was a no-op.
    PrimaryUnreachable,
    /// A secondary document was missing or unreadable after a new height was
    /// already committed: the dependent fields stay stale until the next
    /// successful cycle.
    SecondaryUnreachable,
}

/// What the change gate decided.
#[derive(Clone, Copy, PartialEq, Eq, Structural, Debug)]
pub enum BeginOutcome {
    /// No primary document: nothing changed, the cycle failed.
    PrimaryFailed,
    /// No new block was observed: nothing changed, the cycle is over.
    NoNewBlock,
    /// A new height was committed: the secondary feeds are wanted.
    NewBlock,
}

/// Unit scale of the network hashrate: raw H/s over 10^12 is Th/s.
pub const NETWORK_HASHRATE_POW: i32 = 12;

/// Unit scale of the network difficulty: raw over 10^15 is PH.
pub const DIFFICULTY_POW: i32 = 15;

/// Unit scale of the pool hashrate: raw H/s over 10^9 is Gh/s.
pub const POOL_HASHRATE_POW: i32 = 9;

/// Unit scale of a 0..1 fraction turned percentage: raw over 10^-2.
pub const PERCENT_POW: i32 = -2;

/// A cycle observed a new block only when the extracted height lies above
/// the stored one; an absent, equal or lower height leaves the snapshot as
/// it is.
pub open spec fn new_block_seen(observed: Option<u64>, height: u64) -> bool {
    observed matches Some(h) && h > height
}

/// The single normalization step every scalar field goes through: an absent
/// raw value, or one whose scaled form does not fit, keeps the prior value.
pub open spec fn next_scaled(raw: Option<Dec>, p: int, prior: u64) -> u64 {
    match raw {
        None => prior,
        Some(d) => match scale_spec(d.mantissa as nat, d.exponent as int, p) {
            Some(v) => v,
            None => prior,
        },
    }
}

/// Counter fields pass through unscaled; absent keeps the prior value.
pub open spec fn next_counter(raw: Option<u64>, prior: u64) -> u64 {
    match raw {
        None => prior,
        Some(v) => v,
    }
}

/// The scaled form of a raw value, if the raw value is there and fits.
pub open spec fn opt_scale(raw: Option<Dec>, p: int) -> Option<u64> {
    match raw {
        None => None,
        Some(d) => scale_spec(d.mantissa as nat, d.exponent as int, p),
    }
}

/// "ERG", the pool's native coin.
pub open spec fn erg_name() -> Seq<u8> {
    seq![69u8, 82u8, 71u8]
}

/// "SigUSD", the stable coin the price is quoted in.
pub open spec fn sigusd_name() -> Seq<u8> {
    seq![83u8, 105u8, 103u8, 85u8, 83u8, 68u8]
}

/// "pending", the one block status the gauge recognizes.
pub open spec fn pending_name() -> Seq<u8> {
    seq![112u8, 101u8, 110u8, 100u8, 105u8, 110u8, 103u8]
}

/// A market entry for the native-coin/stable-coin pair.
pub open spec fn is_target_pair(e: PriceEntry) -> bool {
    e.base_name@ == erg_name() && e.quote_name@ == sigusd_name()
}

/// What one market entry does to the stored price: a matching pair with a
/// usable traded price sets the reciprocal, anything else keeps the prior.
pub open spec fn price_step(e: PriceEntry, prior: u64) -> u64 {
    if is_target_pair(e) {
        match e.last_price {
            Some(d) => match recip_spec(d.mantissa as nat, d.exponent as int) {
                Some(v) => v,
                None => prior,
            },
            None => prior,
        }
    } else {
        prior
    }
}

/// The stored price after scanning the whole market list in order.
pub open spec fn price_after(entries: Seq<PriceEntry>, prior: u64) -> u64
    decreases entries.len(),
{
    if entries.len() == 0 {
        prior
    } else {
        price_step(entries.last(), price_after(entries.drop_last(), prior))
    }
}

/// A history point is appended only when both hashrates were usable this
/// cycle and the height moved past the last recorded point.
pub open spec fn should_append(
    net: Seq<(u64, u64)>,
    height: u64,
    netv: Option<u64>,
    poolv: Option<u64>,
) -> bool {
    &&& netv is Some
    &&& poolv is Some
    &&& (net.len() == 0 || net.last().0 < height)
}

/// What the blocks-detail record does to the confirmation gauge: a pending
/// block with a usable in-range progress sets it, a block in any other state
/// parks it at 100%, an unreadable record keeps the prior value.
pub open spec fn next_confirming(b: BlockInfo, prior: u64) -> u64 {
    match b.status {
        None => prior,
        Some(s) => if s@ == pending_name() {
            match b.confirmation_progress {
                None => prior,
                Some(d) => match scale_spec(d.mantissa as nat, d.exponent as int, PERCENT_POW as int) {
                    Some(v) => if v <= CONFIRMING_MAX {
                        v
                    } else {
                        prior
                    },
                    None => prior,
                },
            }
        } else {
            CONFIRMING_MAX
        },
    }
}

/// `post` is `pre` with only the height committed.
pub open spec fn only_height_set(pre: Stats, post: Stats, h: u64) -> bool {
    &&& post.network.height == h
    &&& post.network.hashrate == pre.network.hashrate
    &&& post.network.difficulty == pre.network.difficulty
    &&& post.network.reward == pre.network.reward
    &&& post.network.reward_reduction == pre.network.reward_reduction
    &&& post.network.price == pre.network.price
    &&& post.pool == pre.pool
    &&& post.miner == pre.miner
}

/// `post` is `pre` with only the confirmation gauge set.
pub open spec fn only_confirming_set(pre: Stats, post: Stats, c: u64) -> bool {
    &&& post.pool.confirming_new_block == c
    &&& post.pool.hashrate == pre.pool.hashrate
    &&& post.pool.connected_miners == pre.pool.connected_miners
    &&& post.pool.effort == pre.pool.effort
    &&& post.pool.total_blocks == pre.pool.total_blocks
    &&& post.network == pre.network
    &&& post.miner == pre.miner
}

/// What one successful pass over the secondary documents does to the
/// snapshot, field by field, with the height already committed in `pre`.
pub open spec fn secondaries_applied(
    pre: Stats,
    post: Stats,
    f: PrimaryFields,
    prices: Seq<PriceEntry>,
    info: InfoFields,
) -> bool {
    let h = pre.network.height;
    let netv = opt_scale(info.hash_rate, NETWORK_HASHRATE_POW as int);
    let poolv = opt_scale(f.pool_hashrate, POOL_HASHRATE_POW as int);
    &&& post.network.height == h
    &&& post.network.difficulty == next_scaled(
        f.network_difficulty,
        DIFFICULTY_POW as int,
        pre.network.difficulty,
    )
    &&& post.network.price == price_after(prices, pre.network.price)
    &&& post.network.reward == pre.network.reward
    &&& post.network.reward_reduction == pre.network.reward_reduction
    &&& post.pool.connected_miners == next_counter(f.connected_miners, pre.pool.connected_miners)
    &&& post.pool.effort == next_scaled(f.pool_effort, PERCENT_POW as int, pre.pool.effort)
    &&& post.pool.total_blocks == next_counter(f.total_blocks, pre.pool.total_blocks)
    &&& post.pool.confirming_new_block == pre.pool.confirming_new_block
    &&& post.miner == pre.miner
    &&& if should_append(pre.network.hashrate@, h, netv, poolv) {
        post.network.hashrate@ == trim_spec(
            pre.network.hashrate@.push((h, netv.unwrap())),
            HISTORY_CAPACITY as int,
        ) && post.pool.hashrate@ == trim_spec(
            pre.pool.hashrate@.push((h, poolv.unwrap())),
            HISTORY_CAPACITY as int,
        )
    } else {
        post.network.hashrate@ == pre.network.hashrate@ && post.pool.hashrate@
            == pre.pool.hashrate@
    }
}

/// `s` with the height replaced.
pub open spec fn with_height(s: Stats, h: u64) -> Stats {
    Stats {
        network: crate::data::NetworkStats { height: h, ..s.network },
        ..s
    }
}

/// `s` with the confirmation gauge replaced.
pub open spec fn with_confirming(s: Stats, c: u64) -> Stats {
    Stats {
        pool: crate::data::PoolStats { confirming_new_block: c, ..s.pool },
        ..s
    }
}

/// The single normalization step, executable: scale the raw value if it is
/// there and fits, else keep the prior value.
pub fn normalize_field(raw: Option<Dec>, p: i32, prior: u64) -> (r: u64)
    ensures
        r == next_scaled(raw, p as int, prior),
{
    match raw {
        None => prior,
        Some(d) => match scale_to_hundredths(d, p) {
            Some(v) => v,
            None => prior,
        },
    }
}

/// Whether `name` spells the native coin.
fn is_erg(name: &Vec<u8>) -> (r: bool)
    ensures
        r == (name@ == erg_name()),
{
    let r = name.len() == 3 && name[0] == 69 && name[1] == 82 && name[2] == 71;
    proof {
        if r {
            assert(name@ =~= erg_name());
        }
    }
    r
}

/// Whether `name` spells the stable coin.
fn is_sigusd(name: &Vec<u8>) -> (r: bool)
    ensures
        r == (name@ == sigusd_name()),
{
    let r = name.len() == 6 && name[0] == 83 && name[1] == 105 && name[2] == 103 && name[3] == 85
        && name[4] == 83 && name[5] == 68;
    proof {
        if r {
            assert(name@ =~= sigusd_name());
        }
    }
    r
}

/// Whether `status` spells a pending block.
fn is_pending(status: &Vec<u8>) -> (r: bool)
    ensures
        r == (status@ == pending_name()),
{
    let r = status.len() == 7 && status[0] == 112 && status[1] == 101 && status[2] == 110
        && status[3] == 100 && status[4] == 105 && status[5] == 110 && status[6] == 103;
    proof {
        if r {
            assert(status@ =~= pending_name());
        }
    }
    r
}

/// Scans the market list in order and returns the price after the last
/// matching entry, or `prior` if none matched.
fn scan_price(entries: &Vec<PriceEntry>, prior: u64) -> (r: u64)
    ensures
        r == price_after(entries@, prior),
{
    let n = entries.len();
    let mut cur: u64 = prior;
    let mut i: usize = 0;
    while i < n
        invariant
            0 <= i <= n,
            n == entries@.len(),
            cur == price_after(entries@.take(i as int), prior),
        decreases n - i,
    {
        let e = &entries[i];
        let mut step: u64 = cur;
        if is_erg(&e.base_name) && is_sigusd(&e.quote_name) {
            match e.last_price {
                Some(d) => match recip_to_hundredths(d) {
                    Some(v) => {
                        step = v;
                    },
                    None => {},
                },
                None => {},
            }
        }
        proof {
            assert(entries@.take(i + 1).drop_last() =~= entries@.take(i as int));
            assert(entries@.take(i + 1).last() == entries@[i as int]);
        }
        cur = step;
        i = i + 1;
    }
    proof {
        assert(entries@.take(n as int) =~= entries@);
    }
    cur
}

/// Law: the two hashrate histories are always equally long and never hold
/// more than 720 points.  `Stats::default` establishes the invariant and
/// every cycle step preserves it.
pub proof fn lemma_histories_bounded(s: Stats)
    requires
        s.wf(),
    ensures
        s.network.hashrate@.len() == s.pool.hashrate@.len(),
        s.network.hashrate@.len() <= HISTORY_CAPACITY,
{
}

/// Law: whatever the blocks-detail record held, the confirmation gauge stays
/// a percentage within 0..=100 once it starts as one.
pub proof fn lemma_confirming_in_range(b: BlockInfo, prior: u64)
    requires
        prior <= CONFIRMING_MAX,
    ensures
        next_confirming(b, prior) <= CONFIRMING_MAX,
{
}

/// Law: with the histories at capacity, a cycle that appends a point evicts
/// exactly the oldest pair: both lengths stay at capacity, the former second
/// entry becomes the front of each history, and the new height with the two
/// normalized hashrates stands at the back.
pub proof fn lemma_update_at_capacity(
    pre: Stats,
    post: Stats,
    f: PrimaryFields,
    prices: Seq<PriceEntry>,
    info: InfoFields,
)
    requires
        pre.wf(),
        pre.network.hashrate@.len() == HISTORY_CAPACITY,
        should_append(
            pre.network.hashrate@,
            pre.network.height,
            opt_scale(info.hash_rate, NETWORK_HASHRATE_POW as int),
            opt_scale(f.pool_hashrate, POOL_HASHRATE_POW as int),
        ),
        secondaries_applied(pre, post, f, prices, info),
    ensures
        post.network.hashrate@.len() == HISTORY_CAPACITY,
        post.pool.hashrate@.len() == HISTORY_CAPACITY,
        post.network.hashrate@[0] == pre.network.hashrate@[1],
        post.pool.hashrate@[0] == pre.pool.hashrate@[1],
        post.network.hashrate@.last() == (
            pre.network.height,
            opt_scale(info.hash_rate, NETWORK_HASHRATE_POW as int).unwrap(),
        ),
        post.pool.hashrate@.last() == (
            pre.network.height,
            opt_scale(f.pool_hashrate, POOL_HASHRATE_POW as int).unwrap(),
        ),
{
    lemma_capacity_eviction(
        pre.network.hashrate@,
        (pre.network.height, opt_scale(info.hash_rate, NETWORK_HASHRATE_POW as int).unwrap()),
        HISTORY_CAPACITY as int,
    );
    lemma_capacity_eviction(
        pre.pool.hashrate@,
        (pre.network.height, opt_scale(f.pool_hashrate, POOL_HASHRATE_POW as int).unwrap()),
        HISTORY_CAPACITY as int,
    );
}

impl Stats {
    /// Steps 1-5 of the cycle: the change gate.  With no primary document the
    /// whole cycle is a no-op that reports failure; with no new height
    /// nothing changes; with a new height only the height is committed and
    /// the secondary feeds are wanted.  The height never decreases.
    pub fn begin_cycle(&mut self, doc: Option<&PrimaryFields>) -> (r: BeginOutcome)
        requires
            old(self).wf(),
        ensures
            final(self).wf(),
            final(self).network.height >= old(self).network.height,
            match doc {
                None => *final(self) == *old(self) && r == BeginOutcome::PrimaryFailed,
                Some(f) => if new_block_seen(f.block_height, old(self).network.height) {
                    only_height_set(*old(self), *final(self), f.block_height.unwrap()) && r
                        == BeginOutcome::NewBlock
                } else {
                    *final(self) == *old(self) && r == BeginOutcome::NoNewBlock
                },
            },
    {
        match doc {
            None => BeginOutcome::PrimaryFailed,
            Some(f) => match f.block_height {
                Some(h) => if h > self.network.height {
                    self.network.height = h;
                    BeginOutcome::NewBlock
                } else {
                    BeginOutcome::NoNewBlock
                },
                None => BeginOutcome::NoNewBlock,
            },
        }
    }

    /// Steps 6-9 of the cycle, with the new height already committed: append
    /// the hashrate pair, normalize difficulty, scan the price feed, pass the
    /// counters through — each field independently, an absent raw value
    /// keeping the prior one.  A missing secondary document aborts the rest
    /// of the cycle with nothing further modified.
    pub fn apply_secondaries(
        &mut self,
        f: &PrimaryFields,
        prices: Option<&Vec<PriceEntry>>,
        info: Option<&InfoFields>,
    ) -> (r: Result<(), UpdateError>)
        requires
            old(self).wf(),
        ensures
            final(self).wf(),
            final(self).network.height == old(self).network.height,
            match (prices, info) {
                (Some(pv), Some(inf)) => r == Ok::<(), UpdateError>(()) && secondaries_applied(
                    *old(self),
                    *final(self),
                    *f,
                    pv@,
                    *inf,
                ),
                _ => *final(self) == *old(self) && r == Err::<(), UpdateError>(
                    UpdateError::SecondaryUnreachable,
                ),
            },
    {
        let pv = match prices {
            None => {
                return Err(UpdateError::SecondaryUnreachable);
            },
            Some(p) => p,
        };
        let inf = match info {
            None => {
                return Err(UpdateError::SecondaryUnreachable);
            },
            Some(x) => x,
        };
        let netv = match inf.hash_rate {
            None => None,
            Some(d) => scale_to_hundredths(d, NETWORK_HASHRATE_POW),
        };
        let poolv = match f.pool_hashrate {
            None => None,
            Some(d) => scale_to_hundredths(d, POOL_HASHRATE_POW),
        };
        let h = self.network.height;
        match (netv, poolv) {
            (Some(nv), Some(pw)) => {
                let len = self.network.hashrate.len();
                if len == 0 || self.network.hashrate[len - 1].0 < h {
                    push(&mut self.network.hashrate, (h, nv));
                    push(&mut self.pool.hashrate, (h, pw));
                    trim(&mut self.network.hashrate, HISTORY_CAPACITY);
                    trim(&mut self.pool.hashrate, HISTORY_CAPACITY);
                }
            },
            _ => {},
        }
        self.network.difficulty = normalize_field(
            f.network_difficulty,
            DIFFICULTY_POW,
            self.network.difficulty,
        );
        self.network.price = scan_price(pv, self.network.price);
        self.pool.connected_miners = match f.connected_miners {
            Some(v) => v,
            None => self.pool.connected_miners,
        };
        self.pool.effort = normalize_field(f.pool_effort, PERCENT_POW, self.pool.effort);
        self.pool.total_blocks = match f.total_blocks {
            Some(v) => v,
            None => self.pool.total_blocks,
        };
        Ok(())
    }

    /// Step 10 of the cycle: the confirmation gauge from the most recent
    /// block's record.  A missing blocks-detail document reports failure with
    /// nothing modified; the gauge never leaves 0..=100%.
    pub fn apply_confirmation(&mut self, blk: Option<&BlockInfo>) -> (r: Result<(), UpdateError>)
        requires
            old(self).wf(),
        ensures
            final(self).wf(),
            match blk {
                None => *final(self) == *old(self) && r == Err::<(), UpdateError>(
                    UpdateError::SecondaryUnreachable,
                ),
                Some(b) => r == Ok::<(), UpdateError>(()) && only_confirming_set(
                    *old(self),
                    *final(self),
                    next_confirming(*b, old(self).pool.confirming_new_block),
                ),
            },
    {
        let b = match blk {
            None => {
                return Err(UpdateError::SecondaryUnreachable);
            },
            Some(b) => b,
        };
        match &b.status {
            None => Ok(()),
            Some(s) => {
                if is_pending(s) {
                    match b.confirmation_progress {
                        Some(d) => match scale_to_hundredths(d, PERCENT_POW) {
                            Some(v) => {
                                if v <= CONFIRMING_MAX {
                                    self.pool.confirming_new_block = v;
                                }
                            },
                            None => {},
                        },
                        None => {},
                    }
                } else {
                    self.pool.confirming_new_block = CONFIRMING_MAX;
                }
                Ok(())
            },
        }
    }

    /// One whole poll cycle over the four documents.  The height never
    /// decreases; a cycle that observes no new height changes nothing at all;
    /// a new height is committed even when a secondary fetch then fails, and
    /// the confirmation gauge keeps its prior value when the blocks-detail
    /// fetch fails — in both cases the cycle reports failure.
    pub fn update(
        &mut self,
        doc: Option<&PrimaryFields>,
        prices: Option<&Vec<PriceEntry>>,
        info: Option<&InfoFields>,
        blocks: Option<&BlockInfo>,
    ) -> (r: Result<(), UpdateError>)
        requires
            old(self).wf(),
        ensures
            final(self).wf(),
            final(self).network.height >= old(self).network.height,
            match doc {
                None => *final(self) == *old(self) && r == Err::<(), UpdateError>(
                    UpdateError::PrimaryUnreachable,
                ),
                Some(f) => if !new_block_seen(f.block_height, old(self).network.height) {
                    *final(self) == *old(self) && r == Ok::<(), UpdateError>(())
                } else {
                    let h = f.block_height.unwrap();
                    let mid = with_height(*old(self), h);
                    &&& final(self).network.height == h
                    &&& match (prices, info) {
                        (Some(pv), Some(inf)) => match blocks {
                            None => secondaries_applied(mid, *final(self), *f, pv@, *inf) && r
                                == Err::<(), UpdateError>(UpdateError::SecondaryUnreachable),
                            Some(b) => secondaries_applied(
                                mid,
                                with_confirming(
                                    *final(self),
                                    old(self).pool.confirming_new_block,
                                ),
                                *f,
                                pv@,
                                *inf,
                            ) && final(self).pool.confirming_new_block == next_confirming(
                                *b,
                                old(self).pool.confirming_new_block,
                            ) && r == Ok::<(), UpdateError>(()),
                        },
                        _ => only_height_set(*old(self), *final(self), h) && r == Err::<
                            (),
                            UpdateError,
                        >(UpdateError::SecondaryUnreachable),
                    }
                },
            },
    {
        match self.begin_cycle(doc) {
            BeginOutcome::PrimaryFailed => Err(UpdateError::PrimaryUnreachable),
            BeginOutcome::NoNewBlock => Ok(()),
            BeginOutcome::NewBlock => {
                let f = match doc {
                    Some(f) => f,
                    None => {
                        return Err(UpdateError::PrimaryUnreachable);
                    },
                };
                match self.apply_secondaries(f, prices, info) {
                    Err(e) => Err(e),
                    Ok(()) => match self.apply_confirmation(blocks) {
                        Err(e) => Err(e),
                        Ok(()) => Ok(()),
                    },
                }
            },
        }
    }
}

} // verus!
