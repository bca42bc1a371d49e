//! The poll-cycle engine on concrete documents.

use pool_stats::{
    BeginOutcome, BlockInfo, Dec, InfoFields, PriceEntry, PrimaryFields, Stats, UpdateError,
};

fn fields(height: Option<u64>) -> PrimaryFields {
    PrimaryFields {
        block_height: height,
        network_difficulty: Some(Dec { mantissa: 25, exponent: 14 }),
        pool_hashrate: Some(Dec { mantissa: 5, exponent: 9 }),
        connected_miners: Some(42),
        pool_effort: Some(Dec { mantissa: 123, exponent: -4 }),
        total_blocks: Some(97),
    }
}

fn info() -> InfoFields {
    InfoFields { hash_rate: Some(Dec { mantissa: 3, exponent: 12 }) }
}

fn erg_sigusd(last_price: Option<Dec>) -> PriceEntry {
    PriceEntry {
        base_name: b"ERG".to_vec(),
        quote_name: b"SigUSD".to_vec(),
        last_price,
    }
}

fn pending(progress: Option<Dec>) -> BlockInfo {
    BlockInfo { status: Some(b"pending".to_vec()), confirmation_progress: progress }
}

#[test]
fn default_starts_zeroed_and_empty() {
    let s = Stats::default();
    assert_eq!(s.network.hashrate.len(), 0);
    assert_eq!(s.network.difficulty, 0);
    assert_eq!(s.network.height, 0);
    assert_eq!(s.network.reward, 0);
    assert_eq!(s.network.reward_reduction, 0);
    assert_eq!(s.network.price, 0);
    assert_eq!(s.pool.hashrate.len(), 0);
    assert_eq!(s.pool.connected_miners, 0);
    assert_eq!(s.pool.effort, 0);
    assert_eq!(s.pool.total_blocks, 0);
    assert_eq!(s.pool.confirming_new_block, 0);
    assert_eq!(s.miner.hashrate.len(), 0);
}

#[test]
fn successful_cycle_commits_every_field() {
    let mut s = Stats::default();
    let f = fields(Some(1_000_000));
    let prices = vec![erg_sigusd(Some(Dec { mantissa: 5, exponent: -1 }))];
    let blk = pending(Some(Dec { mantissa: 37, exponent: -2 }));
    let r = s.update(Some(&f), Some(&prices), Some(&info()), Some(&blk));
    assert_eq!(r, Ok(()));
    assert_eq!(s.network.height, 1_000_000);
    // 2.5e15 raw difficulty is 2.50 PH.
    assert_eq!(s.network.difficulty, 250);
    // 3e12 raw network hashrate is 3.00 Th/s, recorded at the new height.
    assert_eq!(s.network.hashrate, vec![(1_000_000, 300)]);
    // 5e9 raw pool hashrate is 5.00 Gh/s, height-aligned with the network point.
    assert_eq!(s.pool.hashrate, vec![(1_000_000, 500)]);
    // last_price 0.5 gives price 2.00.
    assert_eq!(s.network.price, 200);
    assert_eq!(s.pool.connected_miners, 42);
    // Raw effort fraction 0.0123 gives 1.23%.
    assert_eq!(s.pool.effort, 123);
    assert_eq!(s.pool.total_blocks, 97);
    // Pending at progress 0.37 gives a 37.00% gauge.
    assert_eq!(s.pool.confirming_new_block, 3700);
    // The miner entity has no live source and stays at its defaults.
    assert_eq!(s.miner.hashrate.len(), 0);
    assert_eq!(s.miner.average_hashrate, 0);
}

#[test]
fn primary_failure_is_a_whole_cycle_no_op() {
    let mut s = Stats::default();
    let prices: Vec<PriceEntry> = vec![];
    let r = s.update(None, Some(&prices), Some(&info()), None);
    assert_eq!(r, Err(UpdateError::PrimaryUnreachable));
    assert_eq!(s.network.height, 0);
    assert_eq!(s.network.hashrate.len(), 0);
    assert_eq!(s.pool.connected_miners, 0);
}

#[test]
fn unchanged_height_gates_the_whole_update() {
    let mut s = Stats::default();
    let prices = vec![erg_sigusd(Some(Dec { mantissa: 5, exponent: -1 }))];
    let blk = pending(Some(Dec { mantissa: 37, exponent: -2 }));
    s.update(Some(&fields(Some(100))), Some(&prices), Some(&info()), Some(&blk))
        .unwrap();
    let before_hashrate = s.network.hashrate.clone();
    let before_price = s.network.price;
    let before_difficulty = s.network.difficulty;
    let before_confirming = s.pool.confirming_new_block;

    // The same height again, with different raw values everywhere.
    let f2 = PrimaryFields {
        block_height: Some(100),
        network_difficulty: Some(Dec { mantissa: 99, exponent: 15 }),
        pool_hashrate: Some(Dec { mantissa: 99, exponent: 9 }),
        connected_miners: Some(7),
        pool_effort: Some(Dec { mantissa: 9, exponent: -1 }),
        total_blocks: Some(1000),
    };
    let prices2 = vec![erg_sigusd(Some(Dec { mantissa: 25, exponent: -2 }))];
    let blk2 = pending(Some(Dec { mantissa: 9, exponent: -1 }));
    let r = s.update(Some(&f2), Some(&prices2), Some(&info()), Some(&blk2));
    assert_eq!(r, Ok(()));
    assert_eq!(s.network.hashrate, before_hashrate);
    assert_eq!(s.pool.hashrate.len(), before_hashrate.len());
    assert_eq!(s.network.price, before_price);
    assert_eq!(s.network.difficulty, before_difficulty);
    assert_eq!(s.pool.confirming_new_block, before_confirming);
    assert_eq!(s.pool.connected_miners, 42);
    assert_eq!(s.pool.total_blocks, 97);
}

#[test]
fn absent_height_skips_the_gated_fields() {
    let mut s = Stats::default();
    let prices: Vec<PriceEntry> = vec![];
    let r = s.update(Some(&fields(None)), Some(&prices), Some(&info()), None);
    assert_eq!(r, Ok(()));
    assert_eq!(s.network.height, 0);
    assert_eq!(s.network.hashrate.len(), 0);
    assert_eq!(s.pool.connected_miners, 0);
}

#[test]
fn height_never_decreases() {
    let mut s = Stats::default();
    let prices: Vec<PriceEntry> = vec![];
    let blk = pending(None);
    s.update(Some(&fields(Some(500))), Some(&prices), Some(&info()), Some(&blk))
        .unwrap();
    assert_eq!(s.network.height, 500);
    // A lower observed height changes nothing.
    let r = s.update(Some(&fields(Some(499))), Some(&prices), Some(&info()), Some(&blk));
    assert_eq!(r, Ok(()));
    assert_eq!(s.network.height, 500);
    assert_eq!(s.network.hashrate.len(), 1);
}

#[test]
fn secondary_failure_commits_only_the_height() {
    let mut s = Stats::default();
    let r = s.update(Some(&fields(Some(777))), None, Some(&info()), None);
    assert_eq!(r, Err(UpdateError::SecondaryUnreachable));
    assert_eq!(s.network.height, 777);
    assert_eq!(s.network.hashrate.len(), 0);
    assert_eq!(s.network.difficulty, 0);
    assert_eq!(s.pool.connected_miners, 0);
}

#[test]
fn blocks_failure_keeps_prior_confirmation_and_reports_failure() {
    let mut s = Stats::default();
    let prices: Vec<PriceEntry> = vec![];
    let blk = pending(Some(Dec { mantissa: 42, exponent: -2 }));
    s.update(Some(&fields(Some(100))), Some(&prices), Some(&info()), Some(&blk))
        .unwrap();
    assert_eq!(s.pool.confirming_new_block, 4200);

    // New height, but the blocks-detail fetch fails.
    let r = s.update(Some(&fields(Some(101))), Some(&prices), Some(&info()), None);
    assert_eq!(r, Err(UpdateError::SecondaryUnreachable));
    assert_eq!(s.network.height, 101);
    assert_eq!(s.pool.confirming_new_block, 4200);
    // The other gated fields did commit this cycle.
    assert_eq!(s.network.hashrate.len(), 2);
}

#[test]
fn non_pending_status_parks_the_gauge_at_hundred() {
    let mut s = Stats::default();
    let prices: Vec<PriceEntry> = vec![];
    let blk = BlockInfo {
        status: Some(b"confirmed".to_vec()),
        confirmation_progress: Some(Dec { mantissa: 5, exponent: -1 }),
    };
    s.update(Some(&fields(Some(9))), Some(&prices), Some(&info()), Some(&blk))
        .unwrap();
    assert_eq!(s.pool.confirming_new_block, 10000);
}

#[test]
fn out_of_range_progress_keeps_the_prior_gauge() {
    let mut s = Stats::default();
    let prices: Vec<PriceEntry> = vec![];
    let blk = pending(Some(Dec { mantissa: 37, exponent: -2 }));
    s.update(Some(&fields(Some(1))), Some(&prices), Some(&info()), Some(&blk))
        .unwrap();
    assert_eq!(s.pool.confirming_new_block, 3700);
    // Progress 1.5 would be 150%: malformed, so the gauge keeps its value.
    let blk2 = pending(Some(Dec { mantissa: 15, exponent: -1 }));
    s.update(Some(&fields(Some(2))), Some(&prices), Some(&info()), Some(&blk2))
        .unwrap();
    assert_eq!(s.pool.confirming_new_block, 3700);
}

#[test]
fn missing_status_keeps_the_prior_gauge() {
    let mut s = Stats::default();
    let prices: Vec<PriceEntry> = vec![];
    let blk = pending(Some(Dec { mantissa: 42, exponent: -2 }));
    s.update(Some(&fields(Some(1))), Some(&prices), Some(&info()), Some(&blk))
        .unwrap();
    let blk2 = BlockInfo { status: None, confirmation_progress: None };
    s.update(Some(&fields(Some(2))), Some(&prices), Some(&info()), Some(&blk2))
        .unwrap();
    assert_eq!(s.pool.confirming_new_block, 4200);
}

#[test]
fn absent_fields_keep_prior_values_independently() {
    let mut s = Stats::default();
    let prices: Vec<PriceEntry> = vec![];
    let blk = pending(None);
    s.update(Some(&fields(Some(10))), Some(&prices), Some(&info()), Some(&blk))
        .unwrap();
    // Next cycle: only connected_miners present among the scalars, and no
    // usable hashrate pair.
    let f2 = PrimaryFields {
        block_height: Some(11),
        network_difficulty: None,
        pool_hashrate: None,
        connected_miners: Some(55),
        pool_effort: None,
        total_blocks: None,
    };
    let inf2 = InfoFields { hash_rate: None };
    let r = s.update(Some(&f2), Some(&prices), Some(&inf2), Some(&blk));
    assert_eq!(r, Ok(()));
    assert_eq!(s.pool.connected_miners, 55);
    assert_eq!(s.network.difficulty, 250);
    assert_eq!(s.pool.effort, 123);
    assert_eq!(s.pool.total_blocks, 97);
    // No history point was appended: the pair was not usable.
    assert_eq!(s.network.hashrate.len(), 1);
    assert_eq!(s.pool.hashrate.len(), 1);
}

#[test]
fn price_scan_takes_the_last_match_and_ignores_others() {
    let mut s = Stats::default();
    let prices = vec![
        PriceEntry {
            base_name: b"BTC".to_vec(),
            quote_name: b"USDT".to_vec(),
            last_price: Some(Dec { mantissa: 1, exponent: 0 }),
        },
        erg_sigusd(Some(Dec { mantissa: 5, exponent: -1 })),
        erg_sigusd(Some(Dec { mantissa: 25, exponent: -2 })),
    ];
    s.update(Some(&fields(Some(1))), Some(&prices), Some(&info()), Some(&pending(None)))
        .unwrap();
    // The last ERG/SigUSD entry wins: 1/0.25 = 4.00.
    assert_eq!(s.network.price, 400);
}

#[test]
fn price_without_match_keeps_prior_value() {
    let mut s = Stats::default();
    let prices = vec![erg_sigusd(Some(Dec { mantissa: 5, exponent: -1 }))];
    s.update(Some(&fields(Some(1))), Some(&prices), Some(&info()), Some(&pending(None)))
        .unwrap();
    assert_eq!(s.network.price, 200);
    let no_match = vec![PriceEntry {
        base_name: b"ERG".to_vec(),
        quote_name: b"USDT".to_vec(),
        last_price: Some(Dec { mantissa: 1, exponent: 0 }),
    }];
    s.update(Some(&fields(Some(2))), Some(&no_match), Some(&info()), Some(&pending(None)))
        .unwrap();
    assert_eq!(s.network.price, 200);
}

#[test]
fn zero_traded_price_keeps_prior_value() {
    let mut s = Stats::default();
    let prices = vec![erg_sigusd(Some(Dec { mantissa: 5, exponent: -1 }))];
    s.update(Some(&fields(Some(1))), Some(&prices), Some(&info()), Some(&pending(None)))
        .unwrap();
    let zero = vec![erg_sigusd(Some(Dec { mantissa: 0, exponent: 0 }))];
    s.update(Some(&fields(Some(2))), Some(&zero), Some(&info()), Some(&pending(None)))
        .unwrap();
    assert_eq!(s.network.price, 200);
}

#[test]
fn history_at_capacity_evicts_the_oldest_pair() {
    let mut s = Stats::default();
    let prices: Vec<PriceEntry> = vec![];
    let blk = pending(None);
    for h in 1..=721u64 {
        let f = fields(Some(h));
        s.update(Some(&f), Some(&prices), Some(&info()), Some(&blk)).unwrap();
        assert!(s.network.hashrate.len() <= 720);
        assert_eq!(s.network.hashrate.len(), s.pool.hashrate.len());
    }
    assert_eq!(s.network.hashrate.len(), 720);
    assert_eq!(s.pool.hashrate.len(), 720);
    // The point for height 1 was evicted; height 2 is now the oldest.
    assert_eq!(s.network.hashrate[0], (2, 300));
    assert_eq!(s.pool.hashrate[0], (2, 500));
    assert_eq!(s.network.hashrate[719], (721, 300));
    assert_eq!(s.pool.hashrate[719], (721, 500));
}

#[test]
fn phased_driving_matches_the_one_shot_cycle() {
    let mut s = Stats::default();
    let f = fields(Some(50));
    match s.begin_cycle(Some(&f)) {
        BeginOutcome::NewBlock => {}
        other => panic!("expected NewBlock, got {:?}", other),
    }
    assert_eq!(s.network.height, 50);
    let prices = vec![erg_sigusd(Some(Dec { mantissa: 5, exponent: -1 }))];
    s.apply_secondaries(&f, Some(&prices), Some(&info())).unwrap();
    assert_eq!(s.network.price, 200);
    assert_eq!(s.network.hashrate, vec![(50, 300)]);
    s.apply_confirmation(Some(&pending(Some(Dec { mantissa: 1, exponent: 0 }))))
        .unwrap();
    assert_eq!(s.pool.confirming_new_block, 10000);

    let mut t = Stats::default();
    t.update(
        Some(&f),
        Some(&prices),
        Some(&info()),
        Some(&pending(Some(Dec { mantissa: 1, exponent: 0 }))),
    )
    .unwrap();
    assert_eq!(t.network.height, s.network.height);
    assert_eq!(t.network.hashrate, s.network.hashrate);
    assert_eq!(t.pool.hashrate, s.pool.hashrate);
    assert_eq!(t.network.price, s.network.price);
    assert_eq!(t.pool.confirming_new_block, s.pool.confirming_new_block);
}

#[test]
fn begin_cycle_alone_reports_primary_failure() {
    let mut s = Stats::default();
    assert_eq!(s.begin_cycle(None), BeginOutcome::PrimaryFailed);
    assert_eq!(s.begin_cycle(Some(&fields(None))), BeginOutcome::NoNewBlock);
    assert_eq!(s.network.height, 0);
}

#[test]
fn placeholder_feed_shape() {
    let data = pool_stats::get_network_hashrate();
    assert_eq!(data.len(), 10);
    for (i, (x, y)) in data.iter().enumerate() {
        assert_eq!(*x, i as u64 + 1);
        assert!((15..=20).contains(y));
    }
}
