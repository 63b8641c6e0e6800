use vstd::prelude::*;

verus! {

/// A two-level score: feasibility first (`hard`), then preference (`soft`).
/// Higher is better on both levels; penalties are negative.
#[derive(Debug, Clone, Copy, PartialEq, Eq, Structural)]
pub struct HardSoftScore {
    pub hard: i64,
    pub soft: i64,
}

impl HardSoftScore {
    pub fn of(hard: i64, soft: i64) -> (s: HardSoftScore)
        ensures
            s.hard == hard,
            s.soft == soft,
    {
        HardSoftScore { hard, soft }
    }

    pub fn of_hard(hard: i64) -> (s: HardSoftScore)
        ensures
            s.hard == hard,
            s.soft == 0,
    {
        HardSoftScore { hard, soft: 0 }
    }

    pub fn of_soft(soft: i64) -> (s: HardSoftScore)
        ensures
            s.hard == 0,
            s.soft == soft,
    {
        HardSoftScore { hard: 0, soft }
    }

    pub fn zero() -> (s: HardSoftScore)
        ensures
            s.hard == 0,
            s.soft == 0,
    {
        HardSoftScore { hard: 0, soft: 0 }
    }

    pub fn one_hard() -> (s: HardSoftScore)
        ensures
            s.hard == 1,
            s.soft == 0,
    {
        HardSoftScore { hard: 1, soft: 0 }
    }

    pub fn hard(&self) -> (h: i64)
        ensures
            h == self.hard,
    {
        self.hard
    }

    pub fn soft(&self) -> (s: i64)
        ensures
            s == self.soft,
    {
        self.soft
    }

    /// A plan is feasible when no hard constraint is broken.
    pub fn is_feasible(&self) -> (b: bool)
        ensures
            b == (self.hard >= 0),
    {
        self.hard >= 0
    }

    /// Level-wise sum of two scores.
    pub fn add(self, other: HardSoftScore) -> (s: HardSoftScore)
        requires
            i64::MIN <= self.hard + other.hard <= i64::MAX,
            i64::MIN <= self.soft + other.soft <= i64::MAX,
        ensures
            s.hard == self.hard + other.hard,
            s.soft == self.soft + other.soft,
    {
        HardSoftScore { hard: self.hard + other.hard, soft: self.soft + other.soft }
    }
}

} // verus!
