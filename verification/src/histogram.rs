//! The 256-bin intensity histogram of a grayscale buffer.

use vstd::prelude::*;
use crate::gray::GrayBuffer;
use crate::gray::MAX_PIXELS;

verus! {

/// Occurrences of the value `v` among the samples of `s`.
pub open spec fn count_val(s: Seq<u8>, v: u8) -> nat
    decreases s.len(),
{
    if s.len() == 0 {
        0
    } else {
        count_val(s.drop_last(), v) + (if s.last() == v { 1nat } else { 0nat })
    }
}

/// Sum of the counts of bins `0..=t`.
pub open spec fn cum_count(h: Seq<usize>, t: int) -> int
    decreases t + 1,
{
    if t < 0 {
        0
    } else {
        cum_count(h, t - 1) + h[t]
    }
}

/// Sum of `bin * count` over bins `0..=t`: the total intensity mass of
/// the pixels at or below level `t`.
pub open spec fn cum_sum(h: Seq<usize>, t: int) -> int
    decreases t + 1,
{
    if t < 0 {
        0
    } else {
        cum_sum(h, t - 1) + t * h[t]
    }
}

/// A fixed array of 256 bin counts whose sum is the pixel count of the
/// source buffer.
pub struct Histogram {
    pub counts: Vec<usize>,
    pub total: usize,
}

impl Histogram {
    pub open spec fn wf(&self) -> bool {
        &&& self.counts@.len() == 256
        &&& self.total as int == cum_count(self.counts@, 255)
        &&& self.total as nat <= MAX_PIXELS as nat
    }

    /// The histogram is exactly the bin-by-bin tally of `s`.
    pub open spec fn matches(&self, s: Seq<u8>) -> bool {
        forall|v: u8| self.counts@[v as int] == count_val(s, v)
    }
}

/// A value occurs at most `len` times.
pub proof fn lemma_count_val_le_len(s: Seq<u8>, v: u8)
    ensures
        count_val(s, v) <= s.len(),
    decreases s.len(),
{
    if s.len() > 0 {
        lemma_count_val_le_len(s.drop_last(), v);
    }
}

/// Raising one bin by one raises the cumulative count through every
/// level at or above that bin by exactly one.
proof fn lemma_cum_count_incr(h1: Seq<usize>, h2: Seq<usize>, x: int, t: int)
    requires
        h1.len() == h2.len(),
        0 <= x < h1.len(),
        t < h1.len(),
        h2[x] == h1[x] + 1,
        forall|j: int| 0 <= j < h1.len() && j != x ==> h2[j] == h1[j],
    ensures
        cum_count(h2, t) == cum_count(h1, t) + (if x <= t { 1int } else { 0int }),
    decreases t + 1,
{
    if t >= 0 {
        lemma_cum_count_incr(h1, h2, x, t - 1);
    }
}

/// All-zero bins accumulate to zero.
proof fn lemma_cum_count_zero(h: Seq<usize>, t: int)
    requires
        t < h.len(),
        forall|j: int| 0 <= j <= t ==> h[j] == 0,
    ensures
        cum_count(h, t) == 0,
    decreases t + 1,
{
    if t >= 0 {
        lemma_cum_count_zero(h, t - 1);
    }
}

/// Tallies every sample of the buffer into its intensity bin. The result
/// is a pure function of the buffer's contents: running it twice on the
/// same buffer yields the same histogram.
pub fn build(g: &GrayBuffer) -> (h: Histogram)
    requires
        g.wf(),
    ensures
        h.wf(),
        h.matches(g.data@),
        h.total == g.data@.len(),
{
    let mut counts: Vec<usize> = Vec::new();
    let mut k: usize = 0;
    while k < 256
        invariant
            counts@.len() == k,
            k <= 256,
            forall|j: int| 0 <= j < k ==> counts@[j] == 0,
        decreases 256 - k,
    {
        counts.push(0);
        k = k + 1;
    }
    proof {
        lemma_cum_count_zero(counts@, 255);
        assert(g.data@.take(0) =~= Seq::<u8>::empty());
    }

    let mut i: usize = 0;
    while i < g.data.len()
        invariant
            g.wf(),
            counts@.len() == 256,
            i <= g.data@.len(),
            cum_count(counts@, 255) == i as int,
            forall|v: u8| counts@[v as int] == count_val(g.data@.take(i as int), v),
        decreases g.data@.len() - i,
    {
        let p = g.data[i] as usize;
        let c = counts[p];
        proof {
            lemma_count_val_le_len(g.data@.take(i as int), g.data@[i as int]);
        }
        let ghost before = counts@;
        counts.set(p, c + 1);
        proof {
            lemma_cum_count_incr(before, counts@, p as int, 255);
            assert forall|v: u8| counts@[v as int] == count_val(
                g.data@.take(i as int + 1), v) by {
                assert(g.data@.take(i as int + 1).drop_last() =~= g.data@.take(i as int));
                assert(g.data@.take(i as int + 1).last() == g.data@[i as int]);
            }
        }
        i = i + 1;
    }
    proof {
        assert(g.data@.take(g.data@.len() as int) =~= g.data@);
    }
    Histogram { counts, total: g.data.len() }
}

} // verus!
