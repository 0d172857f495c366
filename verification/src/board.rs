//! The board: a square grid of cells, a cursor and the game-over flag.

use vstd::prelude::*;
use crate::cell::{Cell, CellState};
use crate::grid::{
    Grid, adjacent_mines, all_safe_revealed, counts_are_true, flood, inside, is_square,
    lemma_count_is_number_of_mined_neighbors, lemma_listed_push, lemma_same_mines_same_count,
    listed, mine_at, mine_positions, mined, neighbor_mines, toggled, with_cell,
};
use crate::laws::lemma_fresh_mine_count;
use crate::rng::index_below;

verus! {

/// What a board stands for in contracts.
pub struct BoardView {
    /// The cells, row by row.
    pub grid: Grid,
    /// The cursor as `(row, column)`.
    pub cursor: (int, int),
    /// Whether the game has ended.
    pub game_over: bool,
}

impl BoardView {
    /// The side length of the grid.
    pub open spec fn size(self) -> int {
        self.grid.len() as int
    }

    /// A board is a non-empty square whose cursor lies on the grid and whose
    /// revealed cells are mine-free and show their true neighbour counts.
    pub open spec fn wf(self) -> bool {
        &&& self.grid.len() >= 1
        &&& is_square(self.grid)
        &&& inside(self.grid, self.cursor.0, self.cursor.1)
        &&& counts_are_true(self.grid)
    }

    /// The board after a reveal at `(x, y)`. On a mine the game is over and no
    /// cell changes; elsewhere the cells that the reveal opens are revealed.
    pub open spec fn after_reveal(self, x: int, y: int) -> BoardView {
        if self.grid[x][y].mine {
            BoardView { game_over: true, ..self }
        } else {
            BoardView { grid: flood(self.grid, (x, y)), ..self }
        }
    }

    /// The board after a flag toggle at `(x, y)`.
    pub open spec fn after_flag(self, x: int, y: int) -> BoardView {
        BoardView {
            grid: with_cell(
                self.grid,
                x,
                y,
                Cell { state: toggled(self.grid[x][y].state), mine: self.grid[x][y].mine },
            ),
            ..self
        }
    }

    /// The board with the cursor one row up, or as it is in the top row.
    pub open spec fn after_move_up(self) -> BoardView {
        if self.cursor.0 > 0 {
            BoardView { cursor: (self.cursor.0 - 1, self.cursor.1), ..self }
        } else {
            self
        }
    }

    /// The board with the cursor one row down, or as it is in the bottom row.
    pub open spec fn after_move_down(self) -> BoardView {
        if self.cursor.0 < self.size() - 1 {
            BoardView { cursor: (self.cursor.0 + 1, self.cursor.1), ..self }
        } else {
            self
        }
    }

    /// The board with the cursor one column to the left, or as it is in the
    /// leftmost column.
    pub open spec fn after_move_left(self) -> BoardView {
        if self.cursor.1 > 0 {
            BoardView { cursor: (self.cursor.0, self.cursor.1 - 1), ..self }
        } else {
            self
        }
    }

    /// The board with the cursor one column to the right, or as it is in the
    /// rightmost column.
    pub open spec fn after_move_right(self) -> BoardView {
        if self.cursor.1 < self.size() - 1 {
            BoardView { cursor: (self.cursor.0, self.cursor.1 + 1), ..self }
        } else {
            self
        }
    }

    /// The game is won: every cell without a mine is revealed.
    pub open spec fn won(self) -> bool {
        all_safe_revealed(self.grid)
    }

    /// The board before the first move: side `size`, mines at the listed
    /// positions, nothing revealed, cursor in the top left corner, game on.
    pub open spec fn fresh(size: int, mines: Seq<(usize, usize)>) -> BoardView {
        BoardView { grid: mined(size, mines), cursor: (0, 0), game_over: false }
    }

    /// The board is one of those that dropping `num_mines` mines on a fresh
    /// board of side `size` can give: there are `num_mines` positions on the
    /// grid, not necessarily distinct, that hold its mines.
    pub open spec fn drawn_from(self, size: int, num_mines: int) -> bool {
        exists|mines: Seq<(usize, usize)>|
            mines.len() == num_mines && all_inside(mines, size) && #[trigger] BoardView::fresh(
                size,
                mines,
            ) == self
    }
}

/// Why a board could not be set up.
#[derive(Clone, Copy, Debug, PartialEq, Eq, Structural)]
pub enum ConfigError {
    /// The board would have no cells.
    ZeroSize,
    /// More mines were asked for than the board has cells.
    TooManyMines,
}

/// Every listed position lies on a grid of side `size`.
pub open spec fn all_inside(mines: Seq<(usize, usize)>, size: int) -> bool {
    forall|i: int| 0 <= i < mines.len() ==> (#[trigger] mines[i]).0 < size && mines[i].1 < size
}

/// A mine count that fits a board of side `size`.
pub open spec fn fits(size: int, num_mines: int) -> bool {
    num_mines <= size * size
}

/// A square grid of cells with a cursor and a game-over flag.
pub struct Board {
    board: Vec<Vec<Cell>>,
    cursor_x: usize,
    cursor_y: usize,
    game_over: bool,
}

impl View for Board {
    type V = BoardView;

    closed spec fn view(&self) -> BoardView {
        BoardView {
            grid: Seq::new(self.board@.len(), |x: int| self.board@[x]@),
            cursor: (self.cursor_x as int, self.cursor_y as int),
            game_over: self.game_over,
        }
    }
}

impl Board {
    /// The invariant of every board that this module hands out.
    pub open spec fn wf(&self) -> bool {
        self@.wf()
    }

    /// A board of `board_size` rows and columns, nothing revealed, no mines.
    fn blank(board_size: usize) -> (board: Board)
        requires
            board_size >= 1,
        ensures
            board@ == BoardView::fresh(board_size as int, Seq::empty()),
    {
        let mut rows: Vec<Vec<Cell>> = Vec::new();
        let mut x: usize = 0;
        while x < board_size
            invariant
                x <= board_size,
                rows@.len() == x,
                forall|i: int| 0 <= i < x ==> (#[trigger] rows@[i])@.len() == board_size,
                forall|i: int, j: int|
                    0 <= i < x && 0 <= j < board_size ==> #[trigger] rows@[i]@[j] == (Cell {
                        state: CellState::Unrevealed,
                        mine: false,
                    }),
            decreases board_size - x,
        {
            let mut row: Vec<Cell> = Vec::new();
            let mut y: usize = 0;
            while y < board_size
                invariant
                    y <= board_size,
                    row@.len() == y,
                    forall|j: int|
                        0 <= j < y ==> #[trigger] row@[j] == (Cell {
                            state: CellState::Unrevealed,
                            mine: false,
                        }),
                decreases board_size - y,
            {
                row.push(Cell::new());
                y += 1;
            }
            rows.push(row);
            x += 1;
        }
        let board = Board { board: rows, cursor_x: 0, cursor_y: 0, game_over: false };
        assert(board@.grid =~~= mined(board_size as int, Seq::empty()));
        board
    }

    /// Puts a mine under the cell at `(x, y)` of a board that nobody has
    /// played on yet. A second mine on the same cell changes nothing.
    fn place_mine(&mut self, x: usize, y: usize, Ghost(mines): Ghost<Seq<(usize, usize)>>)
        requires
            old(self)@ == BoardView::fresh(old(self)@.size(), mines),
            inside(old(self)@.grid, x as int, y as int),
        ensures
            final(self)@ == BoardView::fresh(old(self)@.size(), mines.push((x, y))),
    {
        let ghost size = self@.size();
        self.set_cell(x, y, Cell { state: CellState::Unrevealed, mine: true });
        proof {
            let longer = mines.push((x, y));
            assert forall|a: int, b: int| listed(longer, a, b) == (listed(mines, a, b) || (a == x
                && b == y)) by {
                lemma_listed_push(mines, (x, y), a, b);
            }
            assert(self@.grid =~~= mined(size, longer));
        }
    }

    /// The board of side `board_size` with mines at exactly the listed
    /// positions: nothing revealed, cursor in the top left corner, game on.
    pub fn with_mines(board_size: usize, mines: &Vec<(usize, usize)>) -> (board: Board)
        requires
            board_size >= 1,
            all_inside(mines@, board_size as int),
        ensures
            board.wf(),
            board@ == BoardView::fresh(board_size as int, mines@),
    {
        let mut board = Board::blank(board_size);
        let mut i: usize = 0;
        assert(mines@.take(0) =~= Seq::empty());
        while i < mines.len()
            invariant
                i <= mines@.len(),
                board_size >= 1,
                all_inside(mines@, board_size as int),
                board@ == BoardView::fresh(board_size as int, mines@.take(i as int)),
            decreases mines@.len() - i,
        {
            let (x, y) = mines[i];
            board.place_mine(x, y, Ghost(mines@.take(i as int)));
            assert(mines@.take(i as int).push((x, y)) =~= mines@.take(i + 1));
            i += 1;
        }
        assert(mines@.take(i as int) =~= mines@);
        board
    }

    /// A board of side `board_size` with `num_mines` mines dropped at random.
    ///
    /// Each mine goes to a cell drawn at random from the whole grid, whether
    /// or not that cell already holds one: `num_mines` bounds the number of
    /// mines from above, and may itself exceed the number of cells.
    pub fn new(board_size: usize, num_mines: usize) -> (board: Board)
        requires
            board_size >= 1,
        ensures
            board.wf(),
            board@.drawn_from(board_size as int, num_mines as int),
            mine_positions(board@.grid).finite(),
            mine_positions(board@.grid).len() <= num_mines,
            num_mines > 0 ==> mine_positions(board@.grid).len() >= 1,
    {
        let mut board = Board::blank(board_size);
        let mut rng = rand::thread_rng();
        let ghost mut mines: Seq<(usize, usize)> = Seq::empty();
        let mut i: usize = 0;
        while i < num_mines
            invariant
                i <= num_mines,
                board_size >= 1,
                mines.len() == i,
                all_inside(mines, board_size as int),
                board@ == BoardView::fresh(board_size as int, mines),
            decreases num_mines - i,
        {
            let x = index_below(&mut rng, board_size);
            let y = index_below(&mut rng, board_size);
            board.place_mine(x, y, Ghost(mines));
            proof {
                mines = mines.push((x, y));
            }
            i += 1;
        }
        proof {
            lemma_fresh_mine_count(board_size as int, mines);
        }
        board
    }

    /// Like [`Board::new`], but turns down a board without cells and a mine
    /// count beyond the number of cells.
    pub fn try_new(board_size: usize, num_mines: usize) -> (result: Result<Board, ConfigError>)
        ensures
            board_size == 0 <==> result == Err::<Board, ConfigError>(ConfigError::ZeroSize),
            board_size > 0 && !fits(board_size as int, num_mines as int) <==> result == Err::<
                Board,
                ConfigError,
            >(ConfigError::TooManyMines),
            result matches Ok(board) ==> {
                &&& board.wf()
                &&& board@.drawn_from(board_size as int, num_mines as int)
                &&& mine_positions(board@.grid).finite()
                &&& mine_positions(board@.grid).len() <= num_mines
                &&& num_mines > 0 ==> mine_positions(board@.grid).len() >= 1
            },
    {
        if board_size == 0 {
            return Err(ConfigError::ZeroSize);
        }
        let fits = match board_size.checked_mul(board_size) {
            Some(cells) => num_mines <= cells,
            None => true,
        };
        if !fits {
            return Err(ConfigError::TooManyMines);
        }
        Ok(Board::new(board_size, num_mines))
    }

    /// The cell at `(x, y)`.
    pub(crate) fn cell_at(&self, x: usize, y: usize) -> (cell: Cell)
        requires
            is_square(self@.grid),
            inside(self@.grid, x as int, y as int),
        ensures
            cell == self@.grid[x as int][y as int],
    {
        self.board[x][y]
    }

    /// Replaces the cell at `(x, y)`.
    pub(crate) fn set_cell(&mut self, x: usize, y: usize, cell: Cell)
        requires
            is_square(old(self)@.grid),
            inside(old(self)@.grid, x as int, y as int),
        ensures
            final(self)@ == (BoardView {
                grid: with_cell(old(self)@.grid, x as int, y as int, cell),
                ..old(self)@
            }),
    {
        assert(self@.grid[x as int] == self.board@[x as int]@);
        self.board[x][y] = cell;
        assert(self@.grid =~~= with_cell(old(self)@.grid, x as int, y as int, cell));
    }

    /// 1 if both coordinates are given, lie on the grid and a mine is there.
    fn mines_at(&self, x: Option<usize>, y: Option<usize>) -> (n: u8)
        requires
            is_square(self@.grid),
        ensures
            n == match (x, y) {
                (Some(a), Some(b)) => mine_at(self@.grid, a as int, b as int),
                _ => 0,
            },
    {
        match (x, y) {
            (Some(a), Some(b)) => {
                if a < self.board.len() && b < self.board.len() {
                    assert(self@.grid[a as int] == self.board@[a as int]@);
                    if self.board[a][b].contains_mine() {
                        1
                    } else {
                        0
                    }
                } else {
                    0
                }
            },
            _ => 0,
        }
    }

    /// The number of mines among the neighbours of `(x, y)`: the up to eight
    /// cells that touch it, corners included, as far as they lie on the grid.
    pub fn count_mines(&self, x: usize, y: usize) -> (count: u8)
        requires
            self.wf(),
        ensures
            count == adjacent_mines(self@.grid, x as int, y as int),
            count == neighbor_mines(self@.grid, x as int, y as int).len(),
            count <= 8,
    {
        proof {
            lemma_count_is_number_of_mined_neighbors(self@.grid, x as int, y as int);
        }
        assert(self@.grid.len() == self.board.len());
        let up = x.checked_sub(1);
        let down = x.checked_add(1);
        let left = y.checked_sub(1);
        let right = y.checked_add(1);
        let above = self.mines_at(up, left) + self.mines_at(up, Some(y)) + self.mines_at(up, right);
        let beside = self.mines_at(Some(x), left) + self.mines_at(Some(x), right);
        let below = self.mines_at(down, left) + self.mines_at(down, Some(y)) + self.mines_at(
            down,
            right,
        );
        above + beside + below
    }

    /// Toggles the flag on the cell at `(x, y)`: an untouched cell becomes
    /// flagged, a flagged cell untouched, a revealed cell stays as it is.
    pub fn flag(&mut self, x: usize, y: usize)
        requires
            old(self).wf(),
            inside(old(self)@.grid, x as int, y as int),
        ensures
            final(self).wf(),
            final(self)@ == old(self)@.after_flag(x as int, y as int),
    {
        let cell = self.cell_at(x, y);
        let ghost before = self@.grid;
        match cell.state {
            CellState::Unrevealed => {
                self.set_cell(x, y, Cell { state: CellState::Flagged, mine: cell.mine });
            },
            CellState::Revealed(_) => {
                assert(before =~~= with_cell(before, x as int, y as int, cell));
            },
            CellState::Flagged => {
                self.set_cell(x, y, Cell { state: CellState::Unrevealed, mine: cell.mine });
            },
        }
        proof {
            let after = self@.grid;
            assert forall|a: int, b: int| inside(after, a, b) implies match (
            #[trigger] after[a][b]).state {
                CellState::Revealed(k) => !after[a][b].mine && k == adjacent_mines(after, a, b),
                _ => true,
            } by {
                lemma_same_mines_same_count(before, after, a, b);
            }
        }
    }

    /// Moves the cursor one row up; in the top row it stays.
    pub fn move_up(&mut self)
        requires
            old(self).wf(),
        ensures
            final(self).wf(),
            final(self)@ == old(self)@.after_move_up(),
    {
        if self.cursor_x > 0 {
            self.cursor_x -= 1;
        }
    }

    /// Moves the cursor one row down; in the bottom row it stays.
    pub fn move_down(&mut self)
        requires
            old(self).wf(),
        ensures
            final(self).wf(),
            final(self)@ == old(self)@.after_move_down(),
    {
        if self.cursor_x < self.board.len() - 1 {
            self.cursor_x += 1;
        }
    }

    /// Moves the cursor one column to the left; in the leftmost column it
    /// stays.
    pub fn move_left(&mut self)
        requires
            old(self).wf(),
        ensures
            final(self).wf(),
            final(self)@ == old(self)@.after_move_left(),
    {
        if self.cursor_y > 0 {
            self.cursor_y -= 1;
        }
    }

    /// Moves the cursor one column to the right; in the rightmost column it
    /// stays.
    pub fn move_right(&mut self)
        requires
            old(self).wf(),
        ensures
            final(self).wf(),
            final(self)@ == old(self)@.after_move_right(),
    {
        if self.cursor_y < self.board.len() - 1 {
            self.cursor_y += 1;
        }
    }

    /// Whether the game is won: every cell without a mine is revealed. What
    /// state the cells with a mine are in does not matter.
    pub fn is_won(&self) -> (won: bool)
        requires
            self.wf(),
        ensures
            won == self@.won(),
    {
        let size = self.board.len();
        let mut x: usize = 0;
        while x < size
            invariant
                self.wf(),
                size == self@.grid.len(),
                x <= size,
                forall|a: int, b: int|
                    0 <= a < x && 0 <= b < size && !(#[trigger] self@.grid[a][b]).mine
                        ==> self@.grid[a][b].state is Revealed,
            decreases size - x,
        {
            let mut y: usize = 0;
            while y < size
                invariant
                    self.wf(),
                    size == self@.grid.len(),
                    x < size,
                    y <= size,
                    forall|a: int, b: int|
                        0 <= a < x && 0 <= b < size && !(#[trigger] self@.grid[a][b]).mine
                            ==> self@.grid[a][b].state is Revealed,
                    forall|b: int|
                        0 <= b < y && !(#[trigger] self@.grid[x as int][b]).mine
                            ==> self@.grid[x as int][b].state is Revealed,
                decreases size - y,
            {
                let cell = self.cell_at(x, y);
                if !cell.contains_mine() {
                    match cell.state {
                        CellState::Revealed(_) => {},
                        _ => {
                            return false;
                        },
                    }
                }
                y += 1;
            }
            x += 1;
        }
        true
    }

    /// The cell at `(x, y)`, if that is a position of the grid.
    pub fn cell(&self, x: usize, y: usize) -> (cell: Option<Cell>)
        requires
            self.wf(),
        ensures
            cell == if inside(self@.grid, x as int, y as int) {
                Some(self@.grid[x as int][y as int])
            } else {
                None
            },
    {
        if x < self.board.len() && y < self.board.len() {
            Some(self.cell_at(x, y))
        } else {
            None
        }
    }

    /// The cursor as `(row, column)`.
    pub fn cursor(&self) -> (cursor: (usize, usize))
        ensures
            cursor.0 == self@.cursor.0,
            cursor.1 == self@.cursor.1,
    {
        (self.cursor_x, self.cursor_y)
    }

    /// Whether the game has ended.
    pub fn is_game_over(&self) -> (game_over: bool)
        ensures
            game_over == self@.game_over,
    {
        self.game_over
    }

    /// The side length of the board.
    pub fn get_board_size(&self) -> (size: usize)
        ensures
            size == self@.size(),
    {
        self.board.len()
    }

    /// Sets the game-over flag and nothing else.
    pub fn set_game_over(&mut self, game_over: bool)
        ensures
            final(self)@ == (BoardView { game_over, ..old(self)@ }),
    {
        self.game_over = game_over;
    }
}

} // verus!
