//! The playfield: a fixed-size grid of cells stored row-major, row 0 at
//! the bottom. A cell holds the kind index of the piece that filled it,
//! or `EMPTY_SQUARE`. Clearing a line removes its row and shifts every
//! row above it down one, with a fresh empty row appearing at the top.

use vstd::prelude::*;

verus! {

/// Width of the playfield in columns.
pub const BOARD_WIDTH: usize = 10;

/// Height of the visible playfield in rows.
pub const BOARD_HEIGHT: usize = 20;

/// The value of an empty cell. Occupied cells hold a kind index, which
/// is always smaller.
pub const EMPTY_SQUARE: usize = 7;

/// Flat index of the cell at column x of row y.
pub open spec fn cell_index(x: int, y: int) -> int {
    y * BOARD_WIDTH + x
}

/// A well-formed board: exactly one cell per square, each holding a kind
/// index or `EMPTY_SQUARE`.
pub open spec fn board_wf(b: Seq<usize>) -> bool {
    &&& b.len() == BOARD_WIDTH * BOARD_HEIGHT
    &&& forall|i: int| 0 <= i < b.len() ==> #[trigger] b[i] <= EMPTY_SQUARE
}

/// True when every cell of the row is occupied.
pub open spec fn line_filled(b: Seq<usize>, line: int) -> bool {
    forall|x: int| 0 <= x < BOARD_WIDTH ==> b[#[trigger] cell_index(x, line)] != EMPTY_SQUARE
}

/// The board after clearing a line: cells below the line keep their
/// places, every higher row moves down one, and the top row is empty.
pub open spec fn clear_spec(b: Seq<usize>, line: int) -> Seq<usize> {
    Seq::new(b.len(), |i: int|
        if i < cell_index(0, line) {
            b[i]
        } else if i + BOARD_WIDTH < b.len() {
            b[i + BOARD_WIDTH]
        } else {
            EMPTY_SQUARE
        }
    )
}

/// The playfield.
#[derive(Clone, Debug)]
pub struct Board {
    pub state: Vec<usize>,
}

impl Board {
    pub open spec fn wf(&self) -> bool {
        board_wf(self.state@)
    }

    /// A fresh board with every cell empty.
    pub fn new() -> (r: Board)
        ensures
            r.wf(),
            forall|i: int| 0 <= i < r.state@.len() ==> #[trigger] r.state@[i] == EMPTY_SQUARE,
    {
        let n = BOARD_WIDTH * BOARD_HEIGHT;
        let mut state: Vec<usize> = Vec::new();
        for k in 0..n
            invariant
                state@.len() == k,
                forall|i: int| 0 <= i < k ==> #[trigger] state@[i] == EMPTY_SQUARE,
        {
            state.push(EMPTY_SQUARE);
        }
        Board { state }
    }

    /// The value stored at column x of row y.
    pub fn cell(&self, x: usize, y: usize) -> (r: usize)
        requires
            self.wf(),
            x < BOARD_WIDTH,
            y < BOARD_HEIGHT,
        ensures
            r == self.state@[cell_index(x as int, y as int)],
    {
        self.state[y * BOARD_WIDTH + x]
    }

    /// Write the value at column x of row y.
    pub fn set_cell(&mut self, x: usize, y: usize, v: usize)
        requires
            old(self).wf(),
            x < BOARD_WIDTH,
            y < BOARD_HEIGHT,
            v <= EMPTY_SQUARE,
        ensures
            final(self).wf(),
            final(self).state@ == old(self).state@.update(cell_index(x as int, y as int), v),
    {
        let i = y * BOARD_WIDTH + x;
        self.state.set(i, v);
    }

    /// True exactly when every cell of the row is occupied.
    pub fn is_line_filled(&self, line: usize) -> (r: bool)
        requires
            self.wf(),
            line < BOARD_HEIGHT,
        ensures
            r == line_filled(self.state@, line as int),
    {
        let base = line * BOARD_WIDTH;
        for x in 0..BOARD_WIDTH
            invariant
                self.wf(),
                line < BOARD_HEIGHT,
                base == line * BOARD_WIDTH,
                forall|c: int| 0 <= c < x ==> self.state@[#[trigger] cell_index(c, line as int)] != EMPTY_SQUARE,
        {
            if self.state[base + x] == EMPTY_SQUARE {
                proof {
                    assert(self.state@[cell_index(x as int, line as int)] == EMPTY_SQUARE);
                }
                return false;
            }
        }
        true
    }

    /// Remove the row and shift every row above it down one; the top row
    /// becomes empty. Only a filled line is ever cleared.
    pub fn clear_line(&mut self, line: usize)
        requires
            old(self).wf(),
            line < BOARD_HEIGHT,
            line_filled(old(self).state@, line as int),
        ensures
            final(self).wf(),
            final(self).state@ == clear_spec(old(self).state@, line as int),
    {
        let n = BOARD_WIDTH * BOARD_HEIGHT;
        let start = line * BOARD_WIDTH;
        let mut i = start;
        while i < n - BOARD_WIDTH
            invariant
                old(self).wf(),
                line < BOARD_HEIGHT,
                start == line * BOARD_WIDTH,
                n == BOARD_WIDTH * BOARD_HEIGHT,
                start <= i <= n - BOARD_WIDTH,
                self.state@.len() == n,
                forall|k: int| 0 <= k < start ==> #[trigger] self.state@[k] == old(self).state@[k],
                forall|k: int| start <= k < i ==> #[trigger] self.state@[k] == old(self).state@[k + BOARD_WIDTH],
                forall|k: int| i <= k < n ==> #[trigger] self.state@[k] == old(self).state@[k],
            decreases n - i,
        {
            let v = self.state[i + BOARD_WIDTH];
            self.state.set(i, v);
            i = i + 1;
        }
        let mut j = n - BOARD_WIDTH;
        while j < n
            invariant
                line < BOARD_HEIGHT,
                start == line * BOARD_WIDTH,
                n == BOARD_WIDTH * BOARD_HEIGHT,
                n - BOARD_WIDTH <= j <= n,
                self.state@.len() == n,
                forall|k: int| 0 <= k < start ==> #[trigger] self.state@[k] == old(self).state@[k],
                forall|k: int| start <= k < n - BOARD_WIDTH ==> #[trigger] self.state@[k] == old(self).state@[k + BOARD_WIDTH],
                forall|k: int| n - BOARD_WIDTH <= k < j ==> #[trigger] self.state@[k] == EMPTY_SQUARE,
                forall|k: int| j <= k < n ==> #[trigger] self.state@[k] <= EMPTY_SQUARE,
            decreases n - j,
        {
            self.state.set(j, EMPTY_SQUARE);
            j = j + 1;
        }
        proof {
            assert(self.state@ =~= clear_spec(old(self).state@, line as int));
        }
    }

    /// Set every cell back to empty.
    pub fn reset(&mut self)
        requires
            old(self).wf(),
        ensures
            final(self).wf(),
            final(self).state@.len() == old(self).state@.len(),
            forall|i: int| 0 <= i < final(self).state@.len()
                ==> #[trigger] final(self).state@[i] == EMPTY_SQUARE,
    {
        let n = BOARD_WIDTH * BOARD_HEIGHT;
        let mut i: usize = 0;
        while i < n
            invariant
                n == BOARD_WIDTH * BOARD_HEIGHT,
                i <= n,
                self.state@.len() == n,
                forall|k: int| 0 <= k < i ==> #[trigger] self.state@[k] == EMPTY_SQUARE,
                forall|k: int| i <= k < n ==> #[trigger] self.state@[k] <= EMPTY_SQUARE,
            decreases n - i,
        {
            self.state.set(i, EMPTY_SQUARE);
            i = i + 1;
        }
    }
}

impl Default for Board {
    /// Same as `Board::new`: an all-empty board.
    fn default() -> (r: Board)
        ensures
            r.wf(),
            forall|i: int| 0 <= i < r.state@.len() ==> #[trigger] r.state@[i] == EMPTY_SQUARE,
    {
        Board::new()
    }
}

/// The board after a cleared line's vacated top row is then filled with
/// arbitrary new contents.
pub open spec fn fill_top_row(b: Seq<usize>, top: Seq<usize>) -> Seq<usize> {
    Seq::new(b.len(), |i: int|
        if i + BOARD_WIDTH < b.len() {
            b[i]
        } else {
            top[i - (b.len() - BOARD_WIDTH)]
        }
    )
}

/// Shift correctness of line clearing: clearing a line and then filling
/// the vacated top row, however it is filled, leaves every other row's
/// contents exactly where the shift demands them — rows below the
/// cleared line unchanged, each row above it moved down one.
pub proof fn lemma_clear_line_shift(b: Seq<usize>, line: int, top: Seq<usize>)
    requires
        board_wf(b),
        0 <= line < BOARD_HEIGHT,
        top.len() == BOARD_WIDTH,
    ensures
        forall|x: int, y: int| 0 <= x < BOARD_WIDTH && 0 <= y < line
            ==> fill_top_row(clear_spec(b, line), top)[#[trigger] cell_index(x, y)]
                == b[cell_index(x, y)],
        forall|x: int, y: int| 0 <= x < BOARD_WIDTH && line <= y < BOARD_HEIGHT - 1
            ==> fill_top_row(clear_spec(b, line), top)[#[trigger] cell_index(x, y)]
                == b[cell_index(x, y + 1)],
{
}

} // verus!
