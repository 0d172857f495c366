//! What holds of the game's rules, whatever the board and the move.

use vstd::prelude::*;
use crate::board::{BoardView, all_inside};
use crate::cell::{Cell, CellState};
use crate::flood::{lemma_flood_blocked, lemma_reaches_neighbor, lemma_reaches_start};
use crate::grid::{
    Grid, adjacent, adjacent_mines, all_safe_revealed, flood, inside, is_square,
    lemma_count_is_number_of_mined_neighbors, lemma_listed_push, lemma_same_mines_same_count,
    lemma_zero_count_no_mine_near, listed, mine_positions, mined, opened, opens, reaches,
    same_mines, spreads,
};

verus! {

/// Revealing a mine ends the game and changes nothing else: no cell, the
/// mine's own included, and not the cursor.
pub proof fn lemma_reveal_mine_ends_game(board: BoardView, x: int, y: int)
    requires
        inside(board.grid, x, y),
        board.grid[x][y].mine,
    ensures
        board.after_reveal(x, y).game_over,
        board.after_reveal(x, y).grid == board.grid,
        board.after_reveal(x, y).cursor == board.cursor,
{
}

/// Revealing a revealed cell changes nothing at all.
pub proof fn lemma_reveal_revealed_is_noop(board: BoardView, x: int, y: int)
    requires
        board.wf(),
        inside(board.grid, x, y),
        board.grid[x][y].state is Revealed,
    ensures
        board.after_reveal(x, y) == board,
{
    lemma_flood_blocked(board.grid, x, y);
}

/// Revealing a flagged cell changes no cell and opens no other. If the flag
/// sits on a mine the game is over all the same.
pub proof fn lemma_reveal_flagged_keeps_grid(board: BoardView, x: int, y: int)
    requires
        inside(board.grid, x, y),
        board.grid[x][y].state is Flagged,
    ensures
        board.after_reveal(x, y).grid == board.grid,
        board.after_reveal(x, y).cursor == board.cursor,
        board.after_reveal(x, y).game_over == (board.game_over || board.grid[x][y].mine),
        !board.grid[x][y].mine ==> board.after_reveal(x, y) == board,
{
    lemma_flood_blocked(board.grid, x, y);
}

/// Revealing the same cell a second time changes nothing: whatever the
/// first reveal did, it left that cell a mine, revealed or flagged.
pub proof fn lemma_reveal_twice_is_reveal_once(board: BoardView, x: int, y: int)
    requires
        is_square(board.grid),
        inside(board.grid, x, y),
    ensures
        board.after_reveal(x, y).after_reveal(x, y) == board.after_reveal(x, y),
{
    if !board.grid[x][y].mine {
        if board.grid[x][y].state is Unrevealed {
            lemma_reaches_start(board.grid, x, y);
        }
        lemma_flood_blocked(flood(board.grid, (x, y)), x, y);
    }
}

/// A reveal changes only cells that it reaches from its start over cells
/// without a mine near them, and only untouched, mine-free ones: each of
/// those shows its neighbour count afterwards. Mines, flags and revealed
/// cells stay as they are.
pub proof fn lemma_flood_opens_connected_region(g: Grid, from: (int, int), x: int, y: int)
    requires
        is_square(g),
        inside(g, x, y),
    ensures
        flood(g, from)[x][y] == if opens(g, from, x, y) {
            opened(g, x, y)
        } else {
            g[x][y]
        },
        flood(g, from)[x][y].mine == g[x][y].mine,
        g[x][y].mine || !(g[x][y].state is Unrevealed) ==> flood(g, from)[x][y] == g[x][y],
{
}

/// The region that a reveal opens ends only at numbered cells, at flags and
/// at the edge of the grid: around an opened cell with no mine near it, no
/// cell holds a mine and none is left untouched.
pub proof fn lemma_flood_stops_at_numbers(
    g: Grid,
    from: (int, int),
    x: int,
    y: int,
    a: int,
    b: int,
)
    requires
        is_square(g),
        opens(g, from, x, y),
        adjacent_mines(g, x, y) == 0,
        adjacent(x, y, a, b),
        inside(g, a, b),
    ensures
        !g[a][b].mine,
        !(flood(g, from)[a][b].state is Unrevealed),
{
    lemma_zero_count_no_mine_near(g, x, y);
    if g[a][b].state is Unrevealed {
        lemma_reaches_neighbor(g, from, x, y, a, b);
    }
}

/// A reveal keeps a board well formed: the shape and the mines stay, and
/// every revealed cell shows its true count.
pub proof fn lemma_reveal_keeps_board_well_formed(board: BoardView, x: int, y: int)
    requires
        board.wf(),
        inside(board.grid, x, y),
    ensures
        board.after_reveal(x, y).wf(),
        same_mines(board.grid, board.after_reveal(x, y).grid),
{
    let g = board.grid;
    let h = board.after_reveal(x, y).grid;
    assert forall|a: int, b: int| inside(h, a, b) implies match (#[trigger] h[a][b]).state {
        CellState::Revealed(k) => !h[a][b].mine && k == adjacent_mines(h, a, b),
        _ => true,
    } by {
        lemma_same_mines_same_count(g, h, a, b);
        lemma_count_is_number_of_mined_neighbors(g, a, b);
    }
}

/// On a board without mines that nobody has touched, one reveal anywhere
/// opens every cell, each showing zero, and the game is won.
pub proof fn lemma_reveal_clears_empty_board(board: BoardView, x: int, y: int)
    requires
        is_square(board.grid),
        inside(board.grid, x, y),
        forall|a: int, b: int|
            inside(board.grid, a, b) ==> !(#[trigger] board.grid[a][b]).mine
                && board.grid[a][b].state is Unrevealed,
    ensures
        forall|a: int, b: int|
            inside(board.grid, a, b) ==> #[trigger] board.after_reveal(x, y).grid[a][b] == (Cell {
                state: CellState::Revealed(0),
                mine: false,
            }),
        board.after_reveal(x, y).won(),
        board.after_reveal(x, y).game_over == board.game_over,
{
    let g = board.grid;
    let h = board.after_reveal(x, y).grid;
    assert forall|a: int, b: int| inside(g, a, b) implies #[trigger] h[a][b] == (Cell {
        state: CellState::Revealed(0),
        mine: false,
    }) by {
        lemma_walk_over_empty_grid(g, x, y, a, b);
        lemma_zero_count_no_mine_near(g, a, b);
    }
}

/// On a grid where every cell spreads, a reveal reaches every cell.
proof fn lemma_walk_over_empty_grid(g: Grid, x: int, y: int, a: int, b: int)
    requires
        inside(g, x, y),
        inside(g, a, b),
        forall|c: int, d: int| inside(g, c, d) ==> #[trigger] spreads(g, c, d),
    ensures
        reaches(g, (x, y), (a, b)),
    decreases distance(x, a) + distance(y, b),
{
    if a == x && b == y {
        lemma_reaches_start(g, x, y);
    } else {
        let c = step_back(x, a);
        let d = step_back(y, b);
        lemma_walk_over_empty_grid(g, x, y, c, d);
        lemma_reaches_neighbor(g, (x, y), c, d, a, b);
    }
}

/// The distance from `from` to `to` along one axis.
spec fn distance(from: int, to: int) -> int {
    if to >= from {
        to - from
    } else {
        from - to
    }
}

/// The coordinate one step from `to` back towards `from`.
spec fn step_back(from: int, to: int) -> int {
    if to > from {
        to - 1
    } else if to < from {
        to + 1
    } else {
        to
    }
}

/// Flagging a cell twice gives back the board one started from, whatever
/// state the cell is in.
pub proof fn lemma_flag_twice_is_noop(board: BoardView, x: int, y: int)
    requires
        is_square(board.grid),
        inside(board.grid, x, y),
    ensures
        board.after_flag(x, y).after_flag(x, y) == board,
{
    assert(board.after_flag(x, y).after_flag(x, y).grid =~~= board.grid);
}

/// Flagging turns an untouched cell into a flagged one and back, leaves a
/// revealed cell alone, and touches no other cell and no mine.
pub proof fn lemma_flag_toggles_one_cell(board: BoardView, x: int, y: int)
    requires
        is_square(board.grid),
        inside(board.grid, x, y),
    ensures
        ({
            let before = board.grid[x][y];
            let after = board.after_flag(x, y).grid[x][y];
            &&& after.mine == before.mine
            &&& before.state is Unrevealed ==> after.state is Flagged
            &&& before.state is Flagged ==> after.state is Unrevealed
            &&& before.state is Revealed ==> after == before
        }),
        board.grid[x][y].state is Revealed ==> board.after_flag(x, y) == board,
        forall|a: int, b: int|
            inside(board.grid, a, b) && (a != x || b != y) ==> #[trigger] board.after_flag(
                x,
                y,
            ).grid[a][b] == board.grid[a][b],
{
    if board.grid[x][y].state is Revealed {
        assert(board.after_flag(x, y).grid =~~= board.grid);
    }
}

/// Whether the game is won depends on the cells without a mine alone: two
/// grids that differ only in the states of mined cells are both won or both
/// not.
pub proof fn lemma_win_ignores_mined_cells(g: Grid, h: Grid)
    requires
        same_mines(g, h),
        forall|x: int, y: int|
            inside(g, x, y) && !(#[trigger] g[x][y]).mine ==> h[x][y].state == g[x][y].state,
    ensures
        all_safe_revealed(g) == all_safe_revealed(h),
{
    if all_safe_revealed(g) {
        assert forall|x: int, y: int|
            inside(h, x, y) && !(#[trigger] h[x][y]).mine implies h[x][y].state is Revealed by {
            assert(!g[x][y].mine);
        }
    }
}

/// Flagging or unflagging a mine does not change whether the game is won.
pub proof fn lemma_flag_on_mine_keeps_win(board: BoardView, x: int, y: int)
    requires
        is_square(board.grid),
        inside(board.grid, x, y),
        board.grid[x][y].mine,
    ensures
        board.after_flag(x, y).won() == board.won(),
{
    lemma_win_ignores_mined_cells(board.grid, board.after_flag(x, y).grid);
}

/// A fresh board is well formed and has no more mines than positions were
/// listed for it: none if none was, and at least one otherwise.
pub proof fn lemma_fresh_mine_count(size: int, mines: Seq<(usize, usize)>)
    requires
        size >= 1,
        all_inside(mines, size),
    ensures
        BoardView::fresh(size, mines).wf(),
        mine_positions(mined(size, mines)).finite(),
        mine_positions(mined(size, mines)).len() <= mines.len(),
        mines.len() > 0 ==> mine_positions(mined(size, mines)).len() >= 1,
    decreases mines.len(),
{
    let here = mine_positions(mined(size, mines));
    if mines.len() == 0 {
        assert(here =~= Set::empty());
    } else {
        let fewer = mines.drop_last();
        let last = mines.last();
        lemma_fresh_mine_count(size, fewer);
        assert(mines =~= fewer.push(last));
        assert forall|a: int, b: int| listed(mines, a, b) == (listed(fewer, a, b) || (last.0 == a
            && last.1 == b)) by {
            lemma_listed_push(fewer, last, a, b);
        }
        assert(here =~= mine_positions(mined(size, fewer)).insert((last.0 as int, last.1 as int)));
    }
}

} // verus!
