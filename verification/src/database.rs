//! A stand-in data source: a small randomly generated hashrate series, used
//! while no live per-miner feed exists.

use vstd::prelude::*;

verus! {

/// Relies on rand::thread_rng / rand::Rng::gen_range: a uniformly random
/// value within `lo..=hi`; nothing more is assumed of it.  `gen_range`
/// panics on an empty range, which `lo <= hi` rules out.
#[verifier::external_body]
fn gen_range_inclusive(lo: u64, hi: u64) -> (r: u64)
    requires
        lo <= hi,
    ensures
        lo <= r <= hi,
{
    rand::Rng::gen_range(&mut rand::thread_rng(), lo..=hi)
}

/// Ten placeholder hashrate points: x runs 1..=10, each y drawn from 15..=20.
pub fn get_network_hashrate() -> (r: Vec<(u64, u64)>)
    ensures
        r@.len() == 10,
        forall|i: int| 0 <= i < 10 ==> (#[trigger] r@[i]).0 == i + 1,
        forall|i: int| 0 <= i < 10 ==> 15 <= (#[trigger] r@[i]).1 <= 20,
{
    let mut data: Vec<(u64, u64)> = Vec::new();
    let mut i: u64 = 0;
    while i < 10
        invariant
            0 <= i <= 10,
            data@.len() == i,
            forall|k: int| 0 <= k < i ==> (#[trigger] data@[k]).0 == k + 1,
            forall|k: int| 0 <= k < i ==> 15 <= (#[trigger] data@[k]).1 <= 20,
        decreases 10 - i,
    {
        let y = gen_range_inclusive(15, 20);
        data.push((i + 1, y));
        i = i + 1;
    }
    data
}

} // verus!
