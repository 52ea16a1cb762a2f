//! Counts of classified values, one counter per bin.
use vstd::prelude::*;

verus! {

/// The sum of the counters.
pub open spec fn sum(s: Seq<u64>) -> int
    decreases s.len(),
{
    if s.len() == 0 {
        0
    } else {
        sum(s.drop_last()) + s.last()
    }
}

/// A histogram: one counter per bin, each starting at zero.
pub struct Histogram {
    counts: Vec<u64>,
}

impl View for Histogram {
    type V = Seq<u64>;

    closed spec fn view(&self) -> Seq<u64> {
        self.counts@
    }
}

impl Histogram {
    /// A histogram of `bin_count` counters, all zero.
    pub fn new(bin_count: usize) -> (r: Histogram)
        ensures
            r@ == Seq::new(bin_count as nat, |i: int| 0u64),
    {
        let mut counts: Vec<u64> = Vec::new();
        let mut i: usize = 0;
        while i < bin_count
            invariant
                0 <= i <= bin_count,
                counts@ == Seq::new(i as nat, |j: int| 0u64),
            decreases bin_count - i,
        {
            counts.push(0);
            i = i + 1;
        }
        Histogram { counts }
    }

    /// The number of counters.
    pub fn len(&self) -> (r: usize)
        ensures
            r == self@.len(),
    {
        self.counts.len()
    }

    /// The counter of bin `bin`.
    pub fn count(&self, bin: usize) -> (r: u64)
        requires
            bin < self@.len(),
        ensures
            r == self@[bin as int],
    {
        self.counts[bin]
    }

    /// All counters, bin by bin.
    pub fn counts(&self) -> (r: &Vec<u64>)
        ensures
            r@ == self@,
    {
        &self.counts
    }

    /// Counts one more value in bin `bin`.
    pub fn record(&mut self, bin: usize)
        requires
            bin < old(self)@.len(),
            old(self)@[bin as int] < u64::MAX,
        ensures
            final(self)@ == old(self)@.update(bin as int, (old(self)@[bin as int] + 1) as u64),
    {
        let c: u64 = self.counts[bin];
        self.counts.set(bin, c + 1);
    }

    /// The largest counter (0 for a histogram without bins), by which display heights are
    /// scaled.
    pub fn max_count(&self) -> (r: u64)
        ensures
            forall|i: int| 0 <= i < self@.len() ==> #[trigger] self@[i] <= r,
            self@.len() == 0 ==> r == 0,
            self@.len() > 0 ==> exists|i: int| 0 <= i < self@.len() && #[trigger] self@[i] == r,
    {
        let n: usize = self.counts.len();
        if n == 0 {
            return 0;
        }
        let mut best: u64 = self.counts[0];
        let mut i: usize = 1;
        while i < n
            invariant
                n == self@.len(),
                1 <= i <= n,
                forall|j: int| 0 <= j < i ==> #[trigger] self@[j] <= best,
                exists|j: int| 0 <= j < i && #[trigger] self@[j] == best,
            decreases n - i,
        {
            if self.counts[i] > best {
                best = self.counts[i];
            }
            i = i + 1;
        }
        best
    }

    /// The sum of all counters, by which counts become relative frequencies.
    pub fn total(&self) -> (r: u128)
        ensures
            r == sum(self@),
    {
        let n: usize = self.counts.len();
        let mut acc: u128 = 0;
        let mut i: usize = 0;
        while i < n
            invariant
                n == self@.len(),
                0 <= i <= n,
                acc == sum(self@.subrange(0, i as int)),
                acc <= i * 0xffff_ffff_ffff_ffffu128,
            decreases n - i,
        {
            let c: u64 = self.counts[i];
            proof {
                assert(self@.subrange(0, i + 1).drop_last() =~= self@.subrange(0, i as int));
                assert((i + 1) * 0xffff_ffff_ffff_ffffu128 <= 0x1_0000_0000_0000_0000u128
                    * 0xffff_ffff_ffff_ffffu128) by (nonlinear_arith)
                    requires
                        i < 0x1_0000_0000_0000_0000u128,
                ;
            }
            acc = acc + c as u128;
            i = i + 1;
        }
        assert(self@.subrange(0, n as int) =~= self@);
        acc
    }
}

} // verus!
