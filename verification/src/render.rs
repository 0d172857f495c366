//! What is handed to whoever draws the board.

use vstd::prelude::*;
use crate::board::{Board, BoardView};
use crate::grid::{Grid, lemma_count_is_number_of_mined_neighbors};

verus! {

/// A board as it is drawn: one character for each cell, the cursor to
/// highlight, and whether the game has ended.
pub struct Snapshot {
    /// The characters, row by row.
    pub symbols: Vec<Vec<char>>,
    /// The cursor as `(row, column)`.
    pub cursor: (usize, usize),
    pub game_over: bool,
}

/// What a snapshot stands for in contracts.
pub struct SnapshotView {
    pub symbols: Seq<Seq<char>>,
    pub cursor: (int, int),
    pub game_over: bool,
}

impl View for Snapshot {
    type V = SnapshotView;

    open spec fn view(&self) -> SnapshotView {
        SnapshotView {
            symbols: Seq::new(self.symbols@.len(), |x: int| self.symbols@[x]@),
            cursor: (self.cursor.0 as int, self.cursor.1 as int),
            game_over: self.game_over,
        }
    }
}

/// The characters that a grid is drawn as, cell by cell.
pub open spec fn drawn(g: Grid) -> Seq<Seq<char>> {
    Seq::new(g.len(), |x: int| Seq::new(g[x].len(), |y: int| g[x][y].state.glyph()))
}

impl BoardView {
    /// The board as it is drawn.
    pub open spec fn picture(self) -> SnapshotView {
        SnapshotView { symbols: drawn(self.grid), cursor: self.cursor, game_over: self.game_over }
    }
}

impl Board {
    /// The board as it is to be drawn now.
    pub fn snapshot(&self) -> (shot: Snapshot)
        requires
            self.wf(),
        ensures
            shot@ == self@.picture(),
    {
        let size = self.get_board_size();
        let mut symbols: Vec<Vec<char>> = Vec::new();
        let mut x: usize = 0;
        while x < size
            invariant
                self.wf(),
                size == self@.grid.len(),
                x <= size,
                symbols@.len() == x,
                forall|a: int| 0 <= a < x ==> (#[trigger] symbols@[a])@ == drawn(self@.grid)[a],
            decreases size - x,
        {
            let mut row: Vec<char> = Vec::new();
            let mut y: usize = 0;
            while y < size
                invariant
                    self.wf(),
                    size == self@.grid.len(),
                    x < size,
                    y <= size,
                    row@.len() == y,
                    forall|b: int|
                        0 <= b < y ==> #[trigger] row@[b] == self@.grid[x as int][b].state.glyph(),
                decreases size - y,
            {
                let cell = self.cell_at(x, y);
                proof {
                    lemma_count_is_number_of_mined_neighbors(self@.grid, x as int, y as int);
                }
                row.push(cell.state.symbol());
                y += 1;
            }
            symbols.push(row);
            x += 1;
        }
        let shot = Snapshot { symbols, cursor: self.cursor(), game_over: self.is_game_over() };
        assert(shot@.symbols =~~= drawn(self@.grid));
        shot
    }
}

} // verus!
