//! The score of a round: flowers collected and workers raised.

use vstd::prelude::*;

verus! {

/// The counters of one round. Each flower is worth one point, so the points
/// are held as a count.
#[derive(Clone, Copy, Debug, PartialEq, Eq, Structural)]
pub struct Score {
    pub points: u64,
    pub bees: usize,
}

impl Default for Score {
    fn default() -> (score: Score)
        ensures
            score == (Score { points: 0, bees: 0 }),
    {
        Score { points: 0, bees: 0 }
    }
}

impl Score {
    /// A fresh scoreboard: no points, no workers.
    pub fn new() -> (score: Score)
        ensures
            score == (Score { points: 0, bees: 0 }),
    {
        Score { points: 0, bees: 0 }
    }

    /// Counts one collected flower. The counter stops at its largest value.
    pub fn add_point(&mut self)
        ensures
            final(self).bees == old(self).bees,
            final(self).points == if old(self).points < u64::MAX {
                old(self).points + 1
            } else {
                u64::MAX as int
            },
    {
        self.points = self.points.saturating_add(1);
    }

    /// Counts one raised worker. The counter stops at its largest value.
    pub fn add_bee(&mut self)
        ensures
            final(self).points == old(self).points,
            final(self).bees == if old(self).bees < usize::MAX {
                old(self).bees + 1
            } else {
                usize::MAX as int
            },
    {
        self.bees = self.bees.saturating_add(1);
    }

    /// Starts a new round: both counters return to zero.
    pub fn reset(&mut self)
        ensures
            *final(self) == (Score { points: 0, bees: 0 }),
    {
        self.points = 0;
        self.bees = 0;
    }
}

} // verus!
