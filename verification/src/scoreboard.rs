//! The running count of destroyed bricks.

use vstd::prelude::*;

verus! {

/// One more than the largest score that can be held; the count wraps here.
pub open spec fn score_modulus() -> int {
    0x1_0000_0000_0000_0000
}

/// The score that is held once `n` bricks have been counted in all.
pub open spec fn wrapped(n: int) -> int {
    n % score_modulus()
}

/// The number of bricks destroyed in this session.
#[derive(Clone, Copy, Debug, PartialEq, Eq, Structural)]
pub struct Scoreboard {
    pub score: u64,
}

impl Scoreboard {
    /// A scoreboard at the start of a session.
    pub fn new() -> (board: Scoreboard)
        ensures
            board.score == 0,
    {
        Scoreboard { score: 0 }
    }

    /// The current total.
    pub fn total(&self) -> (total: u64)
        ensures
            total == self.score,
    {
        self.score
    }

    /// Counts one more brick and hands back the new total. The total grows
    /// by exactly one, except that it wraps to zero from the largest value.
    pub fn increment(&mut self) -> (total: u64)
        ensures
            final(self).score == wrapped(old(self).score + 1),
            old(self).score < u64::MAX ==> final(self).score == old(self).score + 1,
            total == final(self).score,
    {
        if self.score == u64::MAX {
            self.score = 0;
        } else {
            self.score = self.score + 1;
        }
        self.score
    }

    /// Starts a new session: the total goes back to zero.
    pub fn reset(&mut self)
        ensures
            final(self).score == 0,
    {
        self.score = 0;
    }
}

/// Counting `k` bricks one by one and then one more gives the same score as
/// counting `k + 1` at once.
pub proof fn lemma_wrapped_step(start: int, k: int)
    requires
        0 <= start,
        0 <= k,
    ensures
        wrapped(wrapped(start + k) + 1) == wrapped(start + k + 1),
        0 <= wrapped(start + k) < score_modulus(),
{
}

} // verus!
