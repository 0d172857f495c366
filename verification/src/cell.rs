//! Cells of the grid and the three states a cell can be in.

use vstd::prelude::*;

verus! {

/// What the player has done with a cell.
#[derive(Clone, Copy, Debug, PartialEq, Eq, Structural)]
pub enum CellState {
    /// Not yet touched; the initial state of every cell.
    Unrevealed,
    /// Opened; carries the number of mines among its neighbours, fixed at the
    /// moment it was opened.
    Revealed(usize),
    /// Marked by the player as a suspected mine.
    Flagged,
}

/// The character that stands for a neighbour count of 1 to 8.
pub open spec fn digit(k: int) -> char
    recommends
        1 <= k <= 8,
{
    if k == 1 {
        '1'
    } else if k == 2 {
        '2'
    } else if k == 3 {
        '3'
    } else if k == 4 {
        '4'
    } else if k == 5 {
        '5'
    } else if k == 6 {
        '6'
    } else if k == 7 {
        '7'
    } else {
        '8'
    }
}

impl CellState {
    /// A revealed cell shows a count of at most eight: it has no more
    /// neighbours than that.
    pub open spec fn wf(self) -> bool {
        match self {
            CellState::Revealed(k) => k <= 8,
            _ => true,
        }
    }

    /// How the state is drawn: `*` for an untouched cell, `F` for a flag, a
    /// blank for a revealed cell with no mine near it, else its count.
    pub open spec fn glyph(self) -> char {
        match self {
            CellState::Unrevealed => '*',
            CellState::Flagged => 'F',
            CellState::Revealed(k) => if k == 0 {
                ' '
            } else {
                digit(k as int)
            },
        }
    }

    /// The character that the state is drawn as.
    pub fn symbol(&self) -> (c: char)
        requires
            self.wf(),
        ensures
            c == self.glyph(),
    {
        match self {
            CellState::Unrevealed => '*',
            CellState::Flagged => 'F',
            CellState::Revealed(k) => {
                let k: usize = *k;
                if k == 0 {
                    ' '
                } else if k == 1 {
                    '1'
                } else if k == 2 {
                    '2'
                } else if k == 3 {
                    '3'
                } else if k == 4 {
                    '4'
                } else if k == 5 {
                    '5'
                } else if k == 6 {
                    '6'
                } else if k == 7 {
                    '7'
                } else {
                    '8'
                }
            },
        }
    }
}

/// One position of the grid.
#[derive(Clone, Copy, Debug, PartialEq, Eq, Structural)]
pub struct Cell {
    pub state: CellState,
    pub mine: bool,
}

impl Cell {
    /// A fresh cell: unrevealed and without a mine.
    pub fn new() -> (cell: Cell)
        ensures
            cell == (Cell { state: CellState::Unrevealed, mine: false }),
    {
        Cell { state: CellState::Unrevealed, mine: false }
    }

    /// Whether a mine lies under this cell.
    pub fn contains_mine(&self) -> (mine: bool)
        ensures
            mine == self.mine,
    {
        self.mine
    }
}

} // verus!
