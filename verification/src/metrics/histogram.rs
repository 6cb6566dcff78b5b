use crate::metrics::discrete::saturating_sum;
use vstd::prelude::*;

verus! {

/// Where a sample of a histogram falls.
#[derive(Clone, Copy, Debug, PartialEq, Eq, Structural)]
pub enum HistogramSlot {
    /// Below the first bucket.
    Underflow,
    /// In the bucket of the given number.
    Bucket(usize),
    /// Above the last bucket.
    Overflow,
}

/// Where the median of a histogram lies: in which bucket, how many samples are
/// in the buckets before it and in it, and the count that the median is the
/// sample of.
#[derive(Clone, Copy, Debug, PartialEq, Eq, Structural)]
pub struct MedianBucket {
    pub bucket: usize,
    pub before: u64,
    pub count: u32,
    pub target: u64,
}

/// How many samples fell into each of a row of buckets, and how many below and
/// above them.
#[derive(Clone, Copy, Debug, PartialEq, Eq)]
pub struct HistogramMetricAccumulator<const BUCKET_COUNT: usize> {
    buckets: [u32; BUCKET_COUNT],
    overflow: u32,
    underflow: u32,
}

/// How many samples the first `n` buckets hold together.
pub open spec fn samples_in(buckets: Seq<u32>, n: int) -> int
    decreases n,
{
    if n <= 0 {
        0
    } else {
        samples_in(buckets, n - 1) + buckets[n - 1]
    }
}

/// The more buckets, the more samples; and no bucket holds more than a `u32`.
pub proof fn lemma_samples_in(buckets: Seq<u32>, i: int, j: int)
    requires
        0 <= i <= j <= buckets.len(),
    ensures
        0 <= samples_in(buckets, i) <= samples_in(buckets, j),
        samples_in(buckets, j) <= j * u32::MAX,
    decreases j,
{
    if j > 0 {
        if i < j {
            lemma_samples_in(buckets, i, j - 1);
        } else {
            lemma_samples_in(buckets, i - 1, j - 1);
        }
        assert((j - 1) * u32::MAX + u32::MAX == j * u32::MAX) by (nonlinear_arith);
    }
}

impl<const BUCKET_COUNT: usize> HistogramMetricAccumulator<BUCKET_COUNT> {
    /// How many samples fell into each bucket.
    pub closed spec fn buckets(&self) -> Seq<u32> {
        self.buckets@
    }

    /// How many samples fell above the last bucket.
    pub closed spec fn overflow(&self) -> u32 {
        self.overflow
    }

    /// How many samples fell below the first bucket.
    pub closed spec fn underflow(&self) -> u32 {
        self.underflow
    }

    /// The histogram without samples.
    pub fn new() -> (r: Self)
        ensures
            r.buckets() == Seq::new(BUCKET_COUNT as nat, |i: int| 0u32),
            r.overflow() == 0,
            r.underflow() == 0,
    {
        let r = HistogramMetricAccumulator { buckets: [0u32;BUCKET_COUNT], overflow: 0, underflow: 0 };
        assert(r.buckets@ =~= Seq::new(BUCKET_COUNT as nat, |i: int| 0u32));
        r
    }

    /// The histogram of the given counts.
    pub fn from_counts(buckets: [u32; BUCKET_COUNT], overflow: u32, underflow: u32) -> (r: Self)
        ensures
            r.buckets() == buckets@,
            r.overflow() == overflow,
            r.underflow() == underflow,
    {
        HistogramMetricAccumulator { buckets, overflow, underflow }
    }

    /// Counts one sample in the slot where it fell. A bucket past the last one is
    /// the last one.
    pub fn record(&mut self, slot: HistogramSlot)
        requires
            slot is Bucket ==> BUCKET_COUNT > 0,
        ensures
            match slot {
                HistogramSlot::Underflow => {
                    &&& final(self).underflow() == saturating_sum(old(self).underflow(), 1)
                    &&& final(self).overflow() == old(self).overflow()
                    &&& final(self).buckets() == old(self).buckets()
                },
                HistogramSlot::Overflow => {
                    &&& final(self).overflow() == saturating_sum(old(self).overflow(), 1)
                    &&& final(self).underflow() == old(self).underflow()
                    &&& final(self).buckets() == old(self).buckets()
                },
                HistogramSlot::Bucket(bucket) => {
                    let at = if bucket < BUCKET_COUNT {
                        bucket as int
                    } else {
                        BUCKET_COUNT - 1
                    };
                    &&& final(self).buckets() == old(self).buckets().update(
                        at,
                        saturating_sum(old(self).buckets()[at], 1),
                    )
                    &&& final(self).overflow() == old(self).overflow()
                    &&& final(self).underflow() == old(self).underflow()
                },
            },
    {
        match slot {
            HistogramSlot::Underflow => {
                self.underflow = self.underflow.saturating_add(1);
            },
            HistogramSlot::Overflow => {
                self.overflow = self.overflow.saturating_add(1);
            },
            HistogramSlot::Bucket(bucket) => {
                let at = if bucket < BUCKET_COUNT {
                    bucket
                } else {
                    BUCKET_COUNT - 1
                };
                let count = self.buckets[at].saturating_add(1);
                self.buckets[at] = count;
            },
        }
    }

    /// Where the median lies among the buckets: none where the buckets hold fewer
    /// than two samples; else the first bucket up to which half of the samples,
    /// rounded down, are found.
    pub fn median_bucket(&self) -> (r: Option<MedianBucket>)
        requires
            BUCKET_COUNT <= u32::MAX,
        ensures
            ({
                let target = samples_in(self.buckets(), BUCKET_COUNT as int) / 2;
                match r {
                    None => target == 0,
                    Some(m) => {
                        &&& target != 0
                        &&& m.target == target
                        &&& m.bucket < BUCKET_COUNT
                        &&& m.before == samples_in(self.buckets(), m.bucket as int)
                        &&& m.count == self.buckets()[m.bucket as int]
                        &&& m.before < target <= m.before + m.count
                    },
                }
            }),
    {
        let ghost counts = self.buckets@;
        let mut sum: u64 = 0;
        let mut i: usize = 0;
        while i < BUCKET_COUNT
            invariant
                i <= BUCKET_COUNT <= u32::MAX,
                counts == self.buckets@,
                counts.len() == BUCKET_COUNT,
                sum == samples_in(counts, i as int),
            decreases BUCKET_COUNT - i,
        {
            proof {
                lemma_samples_in(counts, i as int, i + 1);
                assert((i + 1) * u32::MAX <= u32::MAX * u32::MAX) by (nonlinear_arith)
                    requires
                        i + 1 <= u32::MAX,
                ;
            }
            sum = sum + self.buckets[i] as u64;
            i += 1;
        }
        let target = sum / 2;
        if target == 0 {
            return None;
        }
        let mut before: u64 = 0;
        let mut i: usize = 0;
        while i < BUCKET_COUNT
            invariant
                i <= BUCKET_COUNT <= u32::MAX,
                counts == self.buckets@,
                counts.len() == BUCKET_COUNT,
                before == samples_in(counts, i as int),
                before < target,
                target == samples_in(counts, BUCKET_COUNT as int) / 2,
            decreases BUCKET_COUNT - i,
        {
            proof {
                lemma_samples_in(counts, i + 1, BUCKET_COUNT as int);
                lemma_samples_in(counts, i as int, i + 1);
            }
            let count = self.buckets[i];
            if before + count as u64 >= target {
                return Some(MedianBucket { bucket: i, before, count, target });
            }
            before = before + count as u64;
            i += 1;
        }
        proof {
            assert(false);
        }
        None
    }

    /// How many samples fell into a bucket.
    pub fn bucket(&self, i: usize) -> (r: u32)
        requires
            i < BUCKET_COUNT,
        ensures
            r == self.buckets()[i as int],
    {
        self.buckets[i]
    }

    /// How many samples fell above the last bucket.
    pub fn overflow_count(&self) -> (r: u32)
        ensures
            r == self.overflow(),
    {
        self.overflow
    }

    /// How many samples fell below the first bucket.
    pub fn underflow_count(&self) -> (r: u32)
        ensures
            r == self.underflow(),
    {
        self.underflow
    }

    /// The two histograms taken together: slot by slot the counts add up, and
    /// stop at the greatest count.
    pub fn add(self, rhs: Self) -> (r: Self)
        ensures
            r.buckets().len() == BUCKET_COUNT,
            forall|i: int|
                0 <= i < BUCKET_COUNT ==> #[trigger] r.buckets()[i] == saturating_sum(
                    self.buckets()[i],
                    rhs.buckets()[i],
                ),
            r.overflow() == saturating_sum(self.overflow(), rhs.overflow()),
            r.underflow() == saturating_sum(self.underflow(), rhs.underflow()),
    {
        let mut r = self;
        let mut i: usize = 0;
        while i < BUCKET_COUNT
            invariant
                i <= BUCKET_COUNT,
                r.buckets@.len() == BUCKET_COUNT,
                r.overflow == self.overflow,
                r.underflow == self.underflow,
                forall|j: int|
                    0 <= j < i ==> #[trigger] r.buckets@[j] == saturating_sum(
                        self.buckets@[j],
                        rhs.buckets@[j],
                    ),
                forall|j: int| i <= j < BUCKET_COUNT ==> #[trigger] r.buckets@[j] == self.buckets@[j],
            decreases BUCKET_COUNT - i,
        {
            let count = r.buckets[i].saturating_add(rhs.buckets[i]);
            r.buckets[i] = count;
            i += 1;
        }
        r.overflow = r.overflow.saturating_add(rhs.overflow);
        r.underflow = r.underflow.saturating_add(rhs.underflow);
        r
    }
}

impl<const BUCKET_COUNT: usize> Default for HistogramMetricAccumulator<BUCKET_COUNT> {
    fn default() -> (r: Self)
        ensures
            r.buckets() == Seq::new(BUCKET_COUNT as nat, |i: int| 0u32),
            r.overflow() == 0,
            r.underflow() == 0,
    {
        Self::new()
    }
}

} // verus!
