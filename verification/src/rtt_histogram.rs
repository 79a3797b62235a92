//! Histogram of round-trip samples.
use vstd::prelude::*;

verus! {

/// Sixteen counts; fifteen edges separate them.
#[derive(Debug, Clone, Copy)]
pub struct RttHistogram {
    pub buckets: [u32; 16],
}

/// `b` is the bucket of a sample: the first whose edge is not below it, or the
/// last bucket if the sample is above every edge.
pub open spec fn is_bucket_of(rtt_us: u32, edges: [u32; 15], b: int) -> bool {
    &&& 0 <= b <= 15
    &&& forall|i: int| 0 <= i < b ==> #[trigger] edges[i] < rtt_us
    &&& b < 15 ==> rtt_us <= edges[b]
}

/// Chooses the bucket of a sample.
pub fn select_bucket(rtt_us: u32, edges: &[u32; 15]) -> (r: usize)
    ensures
        is_bucket_of(rtt_us, *edges, r as int),
{
    let mut i: usize = 0;
    while i < 15
        invariant
            i <= 15,
            forall|k: int| 0 <= k < i ==> #[trigger] edges[k] < rtt_us,
        decreases 15 - i,
    {
        if rtt_us <= edges[i] {
            return i;
        }
        i += 1;
    }
    15
}

/// A sample has one bucket.
pub proof fn law_bucket_unique(rtt_us: u32, edges: [u32; 15], a: int, b: int)
    requires
        is_bucket_of(rtt_us, edges, a),
        is_bucket_of(rtt_us, edges, b),
    ensures
        a == b,
{
    if a < b {
        assert(edges[a] < rtt_us);
    } else if b < a {
        assert(edges[b] < rtt_us);
    }
}

/// A larger sample falls in no earlier bucket, whatever the edges.
pub proof fn law_bucket_monotone(lo: u32, hi: u32, edges: [u32; 15], a: int, b: int)
    requires
        lo <= hi,
        is_bucket_of(lo, edges, a),
        is_bucket_of(hi, edges, b),
    ensures
        a <= b,
{
    if b < a {
        assert(edges[b] < lo);
    }
}

impl RttHistogram {
    /// The histogram after one more sample.
    pub open spec fn updated(self, rtt_us: u32, edges: [u32; 15], after: RttHistogram) -> bool {
        forall|b: int|
            0 <= b < 16 ==> #[trigger] after.buckets[b] == if is_bucket_of(rtt_us, edges, b) {
                self.buckets[b].wrapping_add(1)
            } else {
                self.buckets[b]
            }
    }

    /// Counts one sample; a full bucket wraps around.
    pub fn update(&mut self, rtt_us: u32, edges: &[u32; 15])
        ensures
            old(self).updated(rtt_us, *edges, *final(self)),
    {
        let b: usize = select_bucket(rtt_us, edges);
        self.buckets[b] = self.buckets[b].wrapping_add(1);
        proof {
            assert forall|k: int| 0 <= k < 16 implies #[trigger] self.buckets[k] == if is_bucket_of(
                rtt_us,
                *edges,
                k,
            ) {
                old(self).buckets[k].wrapping_add(1)
            } else {
                old(self).buckets[k]
            } by {
                if is_bucket_of(rtt_us, *edges, k) {
                    law_bucket_unique(rtt_us, *edges, k, b as int);
                }
            }
        }
    }

    /// A copy of the counts.
    pub fn snapshot(&self) -> (r: [u32; 16])
        ensures
            r == self.buckets,
    {
        self.buckets
    }
}

impl Default for RttHistogram {
    fn default() -> (r: Self)
        ensures
            r.buckets@ == Seq::new(16, |i: int| 0u32),
    {
        let r = RttHistogram { buckets: [0; 16] };
        assert(r.buckets@ =~= Seq::new(16, |i: int| 0u32));
        r
    }
}

} // verus!
