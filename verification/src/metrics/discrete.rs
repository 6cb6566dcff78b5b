use vstd::prelude::*;

verus! {

/// The sum of two counts, or the greatest count where the sum is greater.
pub open spec fn saturating_sum(a: u32, b: u32) -> u32 {
    if a + b > u32::MAX {
        u32::MAX
    } else {
        (a + b) as u32
    }
}

/// A count of something that can be counted exactly.
#[derive(Clone, Copy, Debug, PartialEq, Eq, Structural)]
pub struct DiscreteMetricAccumulator {
    pub total: u32,
}

/// What is reported of a `DiscreteMetricAccumulator`.
#[derive(Clone, Copy, Debug, PartialEq, Eq, Structural)]
pub struct DiscreteMetricSummary {
    pub total: u32,
}

impl Default for DiscreteMetricAccumulator {
    fn default() -> (r: Self)
        ensures
            r.total == 0,
    {
        DiscreteMetricAccumulator { total: 0 }
    }
}

impl DiscreteMetricAccumulator {
    pub fn new(sample: u32) -> (r: Self)
        ensures
            r.total == sample,
    {
        DiscreteMetricAccumulator { total: sample }
    }

    /// Counts one more.
    pub fn increment(&mut self)
        ensures
            final(self).total == saturating_sum(old(self).total, 1),
    {
        self.add_multiple(1);
    }

    /// Counts `amount` more; the count stops at the greatest count.
    pub fn add_multiple(&mut self, amount: u32)
        ensures
            final(self).total == saturating_sum(old(self).total, amount),
    {
        self.total = self.total.saturating_add(amount)
    }

    /// Counts `amount` more, where `amount` is a length.
    pub fn add_length(&mut self, amount: usize)
        ensures
            final(self).total == if old(self).total + amount > u32::MAX {
                u32::MAX
            } else {
                (old(self).total + amount) as u32
            },
    {
        let amount: u32 = if amount > u32::MAX as usize {
            u32::MAX
        } else {
            amount as u32
        };
        self.add_multiple(amount)
    }

    /// What is reported of the count.
    pub fn summarize(&self) -> (r: DiscreteMetricSummary)
        ensures
            r.total == self.total,
    {
        DiscreteMetricSummary { total: self.total }
    }

    /// The count as a data point.
    pub fn data_point(&self) -> (r: (u32, ))
        ensures
            r.0 == self.total,
    {
        (self.total, )
    }

    /// The two counts taken together.
    pub fn add(self, rhs: Self) -> (r: Self)
        ensures
            r.total == saturating_sum(self.total, rhs.total),
    {
        DiscreteMetricAccumulator { total: self.total.saturating_add(rhs.total) }
    }
}

/// The least and the greatest of the samples seen, and a count.
#[derive(Clone, Copy, Debug, PartialEq, Eq, Structural)]
pub struct DiscreteExtremaMetricAccumulator {
    pub count: u32,
    pub min: u32,
    pub max: u32,
}

impl Default for DiscreteExtremaMetricAccumulator {
    fn default() -> (r: Self)
        ensures
            r == (DiscreteExtremaMetricAccumulator { count: 0, min: 0, max: 0 }),
    {
        DiscreteExtremaMetricAccumulator { count: 0, min: 0, max: 0 }
    }
}

impl DiscreteExtremaMetricAccumulator {
    /// What the accumulator is after a sample: with a count of zero the sample
    /// becomes both extrema and the count stays; with a count below the greatest
    /// the extrema take the sample in and the count goes up; else nothing changes.
    pub open spec fn pushed(self, sample: u32) -> Self {
        if self.count == 0 {
            DiscreteExtremaMetricAccumulator { count: 0, min: sample, max: sample }
        } else if self.count < u32::MAX {
            DiscreteExtremaMetricAccumulator {
                count: (self.count + 1) as u32,
                min: if sample < self.min {
                    sample
                } else {
                    self.min
                },
                max: if sample > self.max {
                    sample
                } else {
                    self.max
                },
            }
        } else {
            self
        }
    }

    /// Takes a sample in.
    pub fn push(&mut self, sample: u32)
        ensures
            *final(self) == old(self).pushed(sample),
    {
        if self.count == 0 {
            self.min = sample;
            self.max = sample;
        } else if self.count < u32::MAX {
            if sample < self.min {
                self.min = sample;
            }
            if sample > self.max {
                self.max = sample;
            }
            self.count += 1;
        }
    }

    /// What is reported: the accumulator itself.
    pub fn summarize(&self) -> (r: Self)
        ensures
            r == *self,
    {
        *self
    }

    /// The extrema as a data point.
    pub fn data_point(&self) -> (r: (u32, u32))
        ensures
            r == (self.min, self.max),
    {
        (self.min, self.max)
    }

    /// What two accumulators are together: one with a count of zero gives way to
    /// the other; else the counts add up and the extrema are those of both.
    pub open spec fn added(self, rhs: Self) -> Self {
        if self.count == 0 {
            rhs
        } else if rhs.count == 0 {
            self
        } else {
            DiscreteExtremaMetricAccumulator {
                count: saturating_sum(self.count, rhs.count),
                min: if rhs.min < self.min {
                    rhs.min
                } else {
                    self.min
                },
                max: if rhs.max > self.max {
                    rhs.max
                } else {
                    self.max
                },
            }
        }
    }

    /// The two accumulators taken together.
    pub fn add(self, rhs: Self) -> (r: Self)
        ensures
            r == self.added(rhs),
    {
        if self.count == 0 {
            rhs
        } else if rhs.count == 0 {
            self
        } else {
            DiscreteExtremaMetricAccumulator {
                count: self.count.saturating_add(rhs.count),
                min: if rhs.min < self.min {
                    rhs.min
                } else {
                    self.min
                },
                max: if rhs.max > self.max {
                    rhs.max
                } else {
                    self.max
                },
            }
        }
    }
}

/// What is reported of a count of distinct things: about how many there are.
#[derive(Clone, Copy, Debug, PartialEq, Eq, Structural)]
pub struct DistinctCountMetricSummary {
    total: u32,
}

impl DistinctCountMetricSummary {
    /// The summary of about `total` distinct things.
    pub fn new(total: u32) -> (r: Self)
        ensures
            r.total() == total,
    {
        DistinctCountMetricSummary { total }
    }

    /// About how many distinct things there are.
    pub closed spec fn spec_total(&self) -> u32 {
        self.total
    }

    /// About how many distinct things there are.
    #[verifier::when_used_as_spec(spec_total)]
    pub fn total(&self) -> (r: u32)
        ensures
            r == self.total(),
    {
        self.total
    }
}

} // verus!
