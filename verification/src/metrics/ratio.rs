use vstd::prelude::*;

verus! {

/// How many of a population meet a condition.
#[derive(Clone, Copy, Debug, PartialEq, Eq, Structural)]
pub struct RatioMetricAccumulator {
    /// The size of the population.
    pub total: u32,
    /// How many meet the condition.
    pub count: u32,
}

impl Default for RatioMetricAccumulator {
    fn default() -> (r: Self)
        ensures
            r == (RatioMetricAccumulator { total: 0, count: 0 }),
    {
        RatioMetricAccumulator { total: 0, count: 0 }
    }
}

impl RatioMetricAccumulator {
    /// Whether no more are counted as meeting the condition than there are.
    pub open spec fn consistent(self) -> bool {
        self.count <= self.total
    }

    /// A population of one, which meets the condition or does not.
    pub fn new(condition: bool) -> (r: Self)
        ensures
            r.total == 1,
            r.count == if condition {
                1u32
            } else {
                0u32
            },
            r.consistent(),
    {
        RatioMetricAccumulator {
            count: if condition {
                1
            } else {
                0
            },
            total: 1,
        }
    }

    /// What the accumulator is after one more of the population: nothing changes
    /// once the population is of the greatest size.
    pub open spec fn pushed(self, condition: bool) -> Self {
        if self.total < u32::MAX {
            RatioMetricAccumulator {
                total: (self.total + 1) as u32,
                count: if condition {
                    (self.count + 1) as u32
                } else {
                    self.count
                },
            }
        } else {
            self
        }
    }

    /// Takes one more of the population in.
    pub fn push(&mut self, condition: bool)
        requires
            old(self).consistent(),
        ensures
            *final(self) == old(self).pushed(condition),
            final(self).consistent(),
    {
        if self.total < u32::MAX {
            self.total += 1;
            if condition {
                self.count += 1;
            }
        }
    }

    /// Whether two accumulators can be taken together: of the second, no more is
    /// taken than the greatest size leaves room for beside its own population,
    /// and the sums must fit.
    pub open spec fn can_add(self, rhs: Self) -> bool {
        let room = (u32::MAX - rhs.total) as u32;
        &&& self.total + spec_lesser(rhs.total, room) <= u32::MAX
        &&& self.count + spec_lesser(rhs.count, room) <= u32::MAX
    }

    /// What two accumulators are together.
    pub open spec fn added(self, rhs: Self) -> Self {
        let room = (u32::MAX - rhs.total) as u32;
        RatioMetricAccumulator {
            total: (self.total + spec_lesser(rhs.total, room)) as u32,
            count: (self.count + spec_lesser(rhs.count, room)) as u32,
        }
    }

    /// Tells whether two accumulators can be taken together.
    pub fn fits(self, rhs: Self) -> (r: bool)
        ensures
            r == self.can_add(rhs),
    {
        let room = u32::MAX - rhs.total;
        self.total.checked_add(lesser(rhs.total, room)).is_some() && self.count.checked_add(
            lesser(rhs.count, room),
        ).is_some()
    }

    /// The two accumulators taken together.
    pub fn add(self, rhs: Self) -> (r: Self)
        requires
            self.can_add(rhs),
        ensures
            r == self.added(rhs),
    {
        let room = u32::MAX - rhs.total;
        RatioMetricAccumulator {
            total: self.total + lesser(rhs.total, room),
            count: self.count + lesser(rhs.count, room),
        }
    }
}

/// The lesser of two numbers.
pub open spec fn spec_lesser(a: u32, b: u32) -> u32 {
    if a < b {
        a
    } else {
        b
    }
}

/// The lesser of two numbers.
#[verifier::when_used_as_spec(spec_lesser)]
pub fn lesser(a: u32, b: u32) -> (r: u32)
    ensures
        r == spec_lesser(a, b),
{
    if a < b {
        a
    } else {
        b
    }
}

} // verus!
