//! Scoring: total points, total cleared lines, and the level derived
//! from them. Clearing lines is worth more at higher levels and much
//! more for more lines at once; soft and hard drops earn points per row
//! descended. Totals stop at `usize::MAX` instead of wrapping.

use vstd::prelude::*;

verus! {

/// Points for clearing n lines at once, before the level factor: 300
/// for a double, 500 for a triple, 800 for four at once, 100 otherwise.
pub open spec fn spec_clear_base(lines: int) -> int {
    if lines == 2 {
        300
    } else if lines == 3 {
        500
    } else if lines == 4 {
        800
    } else {
        100
    }
}

/// Addition that stops at `usize::MAX` instead of wrapping.
pub open spec fn sat_add(a: int, b: int) -> int {
    if a + b > usize::MAX {
        usize::MAX as int
    } else {
        a + b
    }
}

/// Points and cleared-line totals of one session.
#[derive(Clone, Copy, PartialEq, Eq, Structural, Debug)]
pub struct Scoring {
    pub score: usize,
    pub lines: usize,
}

fn sat_add_usize(a: usize, b: usize) -> (r: usize)
    ensures
        r == sat_add(a as int, b as int),
{
    if a <= usize::MAX - b {
        a + b
    } else {
        usize::MAX
    }
}

impl Scoring {
    /// Zero points, zero lines.
    pub fn new() -> (r: Scoring)
        ensures
            r.score == 0,
            r.lines == 0,
    {
        Scoring { score: 0, lines: 0 }
    }

    /// Total points.
    pub fn score(&self) -> (r: usize)
        ensures
            r == self.score,
    {
        self.score
    }

    /// The level: one step for every ten cleared lines, never stored,
    /// always recomputed.
    pub fn level(&self) -> (r: usize)
        ensures
            r == self.lines as int / 10,
    {
        self.lines / 10
    }

    /// Total lines cleared.
    pub fn lines(&self) -> (r: usize)
        ensures
            r == self.lines,
    {
        self.lines
    }

    /// Points for clearing `lines` rows at the current level: the base
    /// value scaled by level + 1.
    fn clear_value(&self, lines: usize) -> (r: usize)
        ensures
            r as int == if spec_clear_base(lines as int) * (self.lines as int / 10 + 1) > usize::MAX {
                usize::MAX as int
            } else {
                spec_clear_base(lines as int) * (self.lines as int / 10 + 1)
            },
    {
        let base: usize = match lines {
            2 => 300,
            3 => 500,
            4 => 800,
            _ => 100,
        };
        let mult = self.lines / 10 + 1;
        proof {
            assert((base as u128) * (mult as u128) <= 800 * (usize::MAX as u128))
                by (nonlinear_arith)
                requires
                    base <= 800,
                    mult as u128 <= usize::MAX as u128,
            ;
        }
        let prod: u128 = (base as u128) * (mult as u128);
        if prod <= usize::MAX as u128 {
            prod as usize
        } else {
            usize::MAX
        }
    }

    /// Record `lines` rows cleared at once: their value at the current
    /// level is added to the score, then the rows are added to the line
    /// total. Recording zero changes nothing.
    pub fn line_clears(&mut self, lines: usize)
        ensures
            lines == 0 ==> *final(self) == *old(self),
            lines != 0 ==> final(self).score == sat_add(
                old(self).score as int,
                if spec_clear_base(lines as int) * (old(self).lines as int / 10 + 1) > usize::MAX {
                    usize::MAX as int
                } else {
                    spec_clear_base(lines as int) * (old(self).lines as int / 10 + 1)
                },
            ),
            lines != 0 ==> final(self).lines == sat_add(old(self).lines as int, lines as int),
    {
        if lines == 0 {
            return;
        }
        let v = self.clear_value(lines);
        self.score = sat_add_usize(self.score, v);
        self.lines = sat_add_usize(self.lines, lines);
    }

    /// One point for every whole row descended while soft-dropping.
    pub fn soft_drop(&mut self, amount: usize)
        ensures
            final(self).score == sat_add(old(self).score as int, amount as int),
            final(self).lines == old(self).lines,
    {
        self.score = sat_add_usize(self.score, amount);
    }

    /// Two points for every whole row descended by a hard drop.
    pub fn hard_drop(&mut self, amount: usize)
        ensures
            final(self).score == sat_add(old(self).score as int, 2 * amount as int),
            final(self).lines == old(self).lines,
    {
        let doubled = if amount <= usize::MAX / 2 {
            2 * amount
        } else {
            usize::MAX
        };
        self.score = sat_add_usize(self.score, doubled);
    }
}

impl Default for Scoring {
    /// Same as `Scoring::new`: zero points, zero lines.
    fn default() -> (r: Scoring)
        ensures
            r.score == 0,
            r.lines == 0,
    {
        Scoring::new()
    }
}

} // verus!
