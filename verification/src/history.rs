//! The bounded history store: append to the back, evict from the front.

use vstd::prelude::*;

verus! {

/// What a history looks like after trimming to `cap` points: the newest
/// `cap` entries, oldest first.
pub open spec fn trim_spec(s: Seq<(u64, u64)>, cap: int) -> Seq<(u64, u64)> {
    if s.len() > cap {
        s.skip(s.len() - cap)
    } else {
        s
    }
}

/// Appends a point to the back of a history.
pub fn push(hist: &mut Vec<(u64, u64)>, point: (u64, u64))
    ensures
        final(hist)@ == old(hist)@.push(point),
{
    hist.push(point);
}

/// Evicts points from the front until at most `cap` remain; the newest
/// points survive, in order.
pub fn trim(hist: &mut Vec<(u64, u64)>, cap: usize)
    ensures
        final(hist)@ == trim_spec(old(hist)@, cap as int),
{
    while hist.len() > cap
        invariant
            trim_spec(hist@, cap as int) == trim_spec(old(hist)@, cap as int),
        decreases hist@.len(),
    {
        let ghost prev = hist@;
        hist.remove(0);
        proof {
            assert(hist@ =~= prev.skip(1));
            assert(trim_spec(prev.skip(1), cap as int) =~= trim_spec(prev, cap as int));
        }
    }
}

/// Law: a successful append to a history already at capacity `cap` evicts
/// exactly the oldest point — the trimmed history is the old one less its
/// first point, plus the new point at the back — and the length stays `cap`.
pub proof fn lemma_capacity_eviction(s: Seq<(u64, u64)>, p: (u64, u64), cap: int)
    requires
        cap >= 1,
        s.len() == cap,
    ensures
        trim_spec(s.push(p), cap).len() == cap,
        trim_spec(s.push(p), cap) == s.skip(1).push(p),
{
    assert(trim_spec(s.push(p), cap) =~= s.skip(1).push(p));
}

} // verus!
