//! The mathematical model of the playing field: a square grid of cells,
//! the Moore neighbourhood, adjacent-mine counts and the region that a
//! reveal opens.

use vstd::prelude::*;
use crate::cell::{Cell, CellState};

verus! {

/// A grid is a sequence of rows; `g[x][y]` is the cell in row `x`, column `y`.
pub type Grid = Seq<Seq<Cell>>;

/// Every row is as long as the grid is high.
pub open spec fn is_square(g: Grid) -> bool {
    forall|x: int| 0 <= x < g.len() ==> (#[trigger] g[x]).len() == g.len()
}

/// `(x, y)` is a coordinate of the grid.
pub open spec fn inside(g: Grid, x: int, y: int) -> bool {
    0 <= x < g.len() && 0 <= y < g.len()
}

/// `(a, b)` is one of the eight Moore neighbours of `(x, y)`.
pub open spec fn adjacent(x: int, y: int, a: int, b: int) -> bool {
    &&& x - 1 <= a <= x + 1
    &&& y - 1 <= b <= y + 1
    &&& (a != x || b != y)
}

/// 1 if `(x, y)` lies on the grid and holds a mine, else 0. Coordinates off
/// the grid count as empty: the neighbourhood is clipped, not wrapped.
pub open spec fn mine_at(g: Grid, x: int, y: int) -> int {
    if inside(g, x, y) && g[x][y].mine {
        1
    } else {
        0
    }
}

/// The number of mines among the up to eight neighbours of `(x, y)`.
pub open spec fn adjacent_mines(g: Grid, x: int, y: int) -> int {
    mine_at(g, x - 1, y - 1) + mine_at(g, x - 1, y) + mine_at(g, x - 1, y + 1)
        + mine_at(g, x, y - 1) + mine_at(g, x, y + 1)
        + mine_at(g, x + 1, y - 1) + mine_at(g, x + 1, y) + mine_at(g, x + 1, y + 1)
}

/// The positions of the mines among the neighbours of `(x, y)`.
pub open spec fn neighbor_mines(g: Grid, x: int, y: int) -> Set<(int, int)> {
    Set::new(|p: (int, int)| adjacent(x, y, p.0, p.1) && inside(g, p.0, p.1) && g[p.0][p.1].mine)
}

/// The positions of all mines of a grid.
pub open spec fn mine_positions(g: Grid) -> Set<(int, int)> {
    Set::new(|p: (int, int)| inside(g, p.0, p.1) && g[p.0][p.1].mine)
}

/// Two grids of one shape with mines under the same cells.
pub open spec fn same_mines(g: Grid, h: Grid) -> bool {
    &&& g.len() == h.len()
    &&& forall|x: int, y: int| inside(g, x, y) ==> (#[trigger] g[x][y]).mine == h[x][y].mine
}

/// `(x, y)` occurs in the list of positions.
pub open spec fn listed(mines: Seq<(usize, usize)>, x: int, y: int) -> bool {
    exists|i: int| 0 <= i < mines.len() && (#[trigger] mines[i]).0 == x && mines[i].1 == y
}

/// The untouched square grid of side `size` whose mines lie exactly at the
/// listed positions. A position listed twice is one mine.
pub open spec fn mined(size: int, mines: Seq<(usize, usize)>) -> Grid {
    Seq::new(
        size as nat,
        |x: int|
            Seq::new(
                size as nat,
                |y: int| Cell { state: CellState::Unrevealed, mine: listed(mines, x, y) },
            ),
    )
}

/// Every revealed cell is free of mines and shows its true neighbour count.
pub open spec fn counts_are_true(g: Grid) -> bool {
    forall|x: int, y: int|
        inside(g, x, y) ==> match (#[trigger] g[x][y]).state {
            CellState::Revealed(k) => !g[x][y].mine && k == adjacent_mines(g, x, y),
            _ => true,
        }
}

/// An untouched, mine-free cell: the only kind a reveal can open.
pub open spec fn openable(g: Grid, x: int, y: int) -> bool {
    inside(g, x, y) && !g[x][y].mine && g[x][y].state is Unrevealed
}

/// Opening `(x, y)` carries on to its neighbours: the cell is openable and no
/// mine touches it.
pub open spec fn spreads(g: Grid, x: int, y: int) -> bool {
    openable(g, x, y) && adjacent_mines(g, x, y) == 0
}

/// Step `i` of `path` leaves a spreading cell for one of its neighbours on
/// the grid.
pub open spec fn is_step(g: Grid, path: Seq<(int, int)>, i: int) -> bool {
    &&& spreads(g, path[i].0, path[i].1)
    &&& adjacent(path[i].0, path[i].1, path[i + 1].0, path[i + 1].1)
    &&& inside(g, path[i + 1].0, path[i + 1].1)
}

/// A walk over the grid on which every cell but the last spreads.
pub open spec fn is_spread_path(g: Grid, path: Seq<(int, int)>) -> bool {
    &&& path.len() >= 1
    &&& inside(g, path[0].0, path[0].1)
    &&& forall|i: int| 0 <= i < path.len() - 1 ==> #[trigger] is_step(g, path, i)
}

/// A reveal at `from` gets as far as `to`.
pub open spec fn reaches(g: Grid, from: (int, int), to: (int, int)) -> bool {
    exists|path: Seq<(int, int)>|
        #[trigger] is_spread_path(g, path) && path[0] == from && path.last() == to
}

/// A reveal at `from` opens `(x, y)`.
pub open spec fn opens(g: Grid, from: (int, int), x: int, y: int) -> bool {
    openable(g, x, y) && reaches(g, from, (x, y))
}

/// The cell at `(x, y)` once opened.
pub open spec fn opened(g: Grid, x: int, y: int) -> Cell {
    Cell { state: CellState::Revealed(adjacent_mines(g, x, y) as usize), mine: g[x][y].mine }
}

/// The grid after a reveal at `from`: exactly the cells that the reveal
/// opens change, each to its opened form.
pub open spec fn flood(g: Grid, from: (int, int)) -> Grid {
    Seq::new(
        g.len(),
        |x: int|
            Seq::new(
                g[x].len(),
                |y: int|
                    if opens(g, from, x, y) {
                        opened(g, x, y)
                    } else {
                        g[x][y]
                    },
            ),
    )
}

/// The grid with the cell at `(x, y)` replaced.
pub open spec fn with_cell(g: Grid, x: int, y: int, cell: Cell) -> Grid {
    g.update(x, g[x].update(y, cell))
}

/// The state a flag toggle leaves a cell in.
pub open spec fn toggled(state: CellState) -> CellState {
    match state {
        CellState::Unrevealed => CellState::Flagged,
        CellState::Flagged => CellState::Unrevealed,
        CellState::Revealed(k) => CellState::Revealed(k),
    }
}

/// Every cell without a mine is revealed. Cells with a mine do not matter.
pub open spec fn all_safe_revealed(g: Grid) -> bool {
    forall|x: int, y: int|
        inside(g, x, y) && !(#[trigger] g[x][y]).mine ==> g[x][y].state is Revealed
}

/// Neighbour counts depend on the mines alone.
pub proof fn lemma_same_mines_same_count(g: Grid, h: Grid, x: int, y: int)
    requires
        same_mines(g, h),
    ensures
        adjacent_mines(g, x, y) == adjacent_mines(h, x, y),
{
    assert forall|a: int, b: int| mine_at(g, a, b) == mine_at(h, a, b) by {}
}

/// `s` with `(a, b)` added if a mine lies there.
spec fn with_mine(s: Set<(int, int)>, g: Grid, a: int, b: int) -> Set<(int, int)> {
    if mine_at(g, a, b) == 1 {
        s.insert((a, b))
    } else {
        s
    }
}

/// The neighbour count of a cell is the number of its neighbours on the
/// grid that hold a mine; there are at most eight.
pub proof fn lemma_count_is_number_of_mined_neighbors(g: Grid, x: int, y: int)
    ensures
        neighbor_mines(g, x, y).finite(),
        adjacent_mines(g, x, y) == neighbor_mines(g, x, y).len(),
        0 <= adjacent_mines(g, x, y) <= 8,
{
    let s0 = Set::<(int, int)>::empty();
    let s1 = with_mine(s0, g, x - 1, y - 1);
    let s2 = with_mine(s1, g, x - 1, y);
    let s3 = with_mine(s2, g, x - 1, y + 1);
    let s4 = with_mine(s3, g, x, y - 1);
    let s5 = with_mine(s4, g, x, y + 1);
    let s6 = with_mine(s5, g, x + 1, y - 1);
    let s7 = with_mine(s6, g, x + 1, y);
    let s8 = with_mine(s7, g, x + 1, y + 1);
    assert(s8 =~= neighbor_mines(g, x, y));
}

/// With one more position on the list, those listed are the ones listed
/// before and the new one.
pub proof fn lemma_listed_push(mines: Seq<(usize, usize)>, p: (usize, usize), x: int, y: int)
    ensures
        listed(mines.push(p), x, y) <==> listed(mines, x, y) || (p.0 == x && p.1 == y),
{
    let longer = mines.push(p);
    if listed(mines, x, y) {
        let i = choose|i: int|
            0 <= i < mines.len() && (#[trigger] mines[i]).0 == x && mines[i].1 == y;
        assert(longer[i] == mines[i]);
    }
    if p.0 == x && p.1 == y {
        assert(longer[mines.len() as int] == p);
    }
    if listed(longer, x, y) {
        let i = choose|i: int|
            0 <= i < longer.len() && (#[trigger] longer[i]).0 == x && longer[i].1 == y;
        if i < mines.len() {
            assert(mines[i] == longer[i]);
        }
    }
}

/// A count of zero means exactly that no neighbour on the grid holds a mine.
pub proof fn lemma_zero_count_no_mine_near(g: Grid, x: int, y: int)
    ensures
        adjacent_mines(g, x, y) == 0 <==> (forall|a: int, b: int|
            adjacent(x, y, a, b) && inside(g, a, b) ==> !(#[trigger] g[a][b]).mine),
{
}

} // verus!
