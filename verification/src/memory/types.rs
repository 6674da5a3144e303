use vstd::prelude::*;

verus! {

/// How a growable sequence picks its next capacity.
#[derive(Clone, Copy, Debug)]
pub enum GrowthStrategy {
    /// Grow by exactly what is needed.
    Exact,
    /// Grow to twice the capacity, or to what is needed where that is more.
    Exponential,
}

impl GrowthStrategy {
    /// The capacity that holds `additional` more than `capacity` does, or
    /// nothing where the numbers do not fit.
    pub open spec fn new_capacity(self, capacity: usize, additional: usize) -> Option<usize> {
        if capacity + additional > usize::MAX {
            None
        } else {
            match self {
                GrowthStrategy::Exact => Some((capacity + additional) as usize),
                GrowthStrategy::Exponential => if capacity * 2 > usize::MAX {
                    None
                } else if capacity * 2 >= capacity + additional {
                    Some((capacity * 2) as usize)
                } else {
                    Some((capacity + additional) as usize)
                },
            }
        }
    }

    /// The capacity to grow to from `capacity` so that `additional` more
    /// values fit.
    pub fn calculate_new_capacity(&self, capacity: usize, additional: usize) -> (grown: Option<
        usize,
    >)
        ensures
            grown == self.new_capacity(capacity, additional),
    {
        let min_capacity: usize = match capacity.checked_add(additional) {
            Some(sum) => sum,
            None => {
                return None;
            },
        };
        match self {
            GrowthStrategy::Exact => Some(min_capacity),
            GrowthStrategy::Exponential => match capacity.checked_mul(2) {
                Some(doubled) => if doubled >= min_capacity {
                    Some(doubled)
                } else {
                    Some(min_capacity)
                },
                None => None,
            },
        }
    }
}

/// The capacity that comes out holds what was asked for.
pub proof fn lemma_new_capacity_suffices(
    strategy: GrowthStrategy,
    capacity: usize,
    additional: usize,
)
    requires
        strategy.new_capacity(capacity, additional) is Some,
    ensures
        strategy.new_capacity(capacity, additional).unwrap() >= capacity + additional,
{
}

} // verus!
