//! Revealing a cell, and with it the region of mine-free cells around it.

use vstd::prelude::*;
use crate::board::Board;
use crate::cell::{Cell, CellState};
use crate::flood::{lemma_flood_blocked, lemma_reaches_neighbor, lemma_reaches_start};
use crate::grid::{
    Grid, adjacent, adjacent_mines, counts_are_true, flood, inside, is_spread_path, is_square,
    is_step, lemma_count_is_number_of_mined_neighbors, lemma_same_mines_same_count,
    lemma_zero_count_no_mine_near, listed, opened, opens, reaches, same_mines, spreads, with_cell,
};

verus! {

/// How far a work-list has come with a reveal at `from`: `h` has the shape
/// and the mines of the starting grid `g`, and each of its cells is either
/// as it was or one that the reveal opens, in its opened form.
spec fn partly_flooded(g: Grid, h: Grid, from: (int, int)) -> bool {
    &&& is_square(h)
    &&& same_mines(g, h)
    &&& forall|x: int, y: int|
        inside(g, x, y) ==> (#[trigger] h[x][y]) == g[x][y] || (opens(g, from, x, y) && h[x][y]
            == opened(g, x, y))
}

/// Every position on the work-list lies on the grid, is mine-free and is
/// reached by the reveal.
spec fn all_reached(g: Grid, pending: Seq<(usize, usize)>, from: (int, int)) -> bool {
    forall|i: int|
        0 <= i < pending.len() ==> {
            let p = #[trigger] pending[i];
            &&& inside(g, p.0 as int, p.1 as int)
            &&& !g[p.0 as int][p.1 as int].mine
            &&& reaches(g, from, (p.0 as int, p.1 as int))
        }
}

/// The cell at `(a, b)` is no longer waiting to be looked at: it is off the
/// grid, already touched, or on the work-list.
spec fn seen_to(h: Grid, pending: Seq<(usize, usize)>, a: int, b: int) -> bool {
    !inside(h, a, b) || !(h[a][b].state is Unrevealed) || listed(pending, a, b)
}

/// If the work-list has opened the spreading cell `(x, y)`, its neighbour
/// `(a, b)` is seen to.
spec fn carried(
    g: Grid,
    h: Grid,
    pending: Seq<(usize, usize)>,
    x: int,
    y: int,
    a: int,
    b: int,
) -> bool {
    spreads(g, x, y) && !(h[x][y].state is Unrevealed) && adjacent(x, y, a, b) ==> seen_to(
        h,
        pending,
        a,
        b,
    )
}

/// The work-list has carried every opened spreading cell over to all of its
/// neighbours.
spec fn all_carried(g: Grid, h: Grid, pending: Seq<(usize, usize)>) -> bool {
    forall|x: int, y: int, a: int, b: int| #[trigger] carried(g, h, pending, x, y, a, b)
}

/// With nothing left on the work-list, every cell on a spread path from the
/// start has been touched.
proof fn lemma_path_is_touched(g: Grid, h: Grid, from: (int, int), path: Seq<(int, int)>, i: int)
    requires
        partly_flooded(g, h, from),
        all_carried(g, h, Seq::empty()),
        seen_to(h, Seq::empty(), from.0, from.1),
        is_spread_path(g, path),
        path[0] == from,
        0 <= i < path.len(),
    ensures
        !(h[path[i].0][path[i].1].state is Unrevealed),
    decreases i,
{
    if i > 0 {
        lemma_path_is_touched(g, h, from, path, i - 1);
        assert(is_step(g, path, i - 1));
        let p = path[i - 1];
        let q = path[i];
        assert(carried(g, h, Seq::empty(), p.0, p.1, q.0, q.1));
    }
}

/// A work-list that has run empty has computed the flood.
proof fn lemma_flood_complete(g: Grid, h: Grid, from: (int, int))
    requires
        is_square(g),
        partly_flooded(g, h, from),
        all_carried(g, h, Seq::empty()),
        seen_to(h, Seq::empty(), from.0, from.1),
    ensures
        h == flood(g, from),
{
    let f = flood(g, from);
    assert forall|x: int, y: int| inside(g, x, y) implies #[trigger] h[x][y] == f[x][y] by {
        if opens(g, from, x, y) {
            let path = choose|path: Seq<(int, int)>|
                #[trigger] is_spread_path(g, path) && path[0] == from && path.last() == (x, y);
            lemma_path_is_touched(g, h, from, path, path.len() - 1);
        }
    }
    assert(h =~~= f);
}

/// The number of untouched cells among the first `upto` of a row.
spec fn hidden_in_row(row: Seq<Cell>, upto: int) -> nat
    decreases upto,
{
    if upto <= 0 {
        0
    } else {
        hidden_in_row(row, upto - 1) + if row[upto - 1].state is Unrevealed {
            1nat
        } else {
            0nat
        }
    }
}

/// The number of untouched cells in the first `upto` rows of a grid.
spec fn hidden_in_rows(g: Grid, upto: int) -> nat
    decreases upto,
{
    if upto <= 0 {
        0
    } else {
        hidden_in_rows(g, upto - 1) + hidden_in_row(g[upto - 1], g[upto - 1].len() as int)
    }
}

/// The number of untouched cells of a grid.
spec fn hidden_count(g: Grid) -> nat {
    hidden_in_rows(g, g.len() as int)
}

proof fn lemma_row_loses_one(row: Seq<Cell>, y: int, cell: Cell, upto: int)
    requires
        0 <= y < row.len(),
        row[y].state is Unrevealed,
        !(cell.state is Unrevealed),
        0 <= upto <= row.len(),
    ensures
        hidden_in_row(row, upto) == hidden_in_row(row.update(y, cell), upto) + if upto > y {
            1nat
        } else {
            0nat
        },
    decreases upto,
{
    if upto > 0 {
        lemma_row_loses_one(row, y, cell, upto - 1);
    }
}

proof fn lemma_rows_lose_one(g: Grid, x: int, y: int, cell: Cell, upto: int)
    requires
        0 <= x < g.len(),
        0 <= y < g[x].len(),
        g[x][y].state is Unrevealed,
        !(cell.state is Unrevealed),
        0 <= upto <= g.len(),
    ensures
        hidden_in_rows(g, upto) == hidden_in_rows(with_cell(g, x, y, cell), upto) + if upto > x {
            1nat
        } else {
            0nat
        },
    decreases upto,
{
    if upto > 0 {
        lemma_rows_lose_one(g, x, y, cell, upto - 1);
        if upto - 1 == x {
            lemma_row_loses_one(g[x], y, cell, g[x].len() as int);
        }
    }
}

/// Touching an untouched cell leaves one untouched cell fewer.
proof fn lemma_touch_lowers_hidden_count(g: Grid, x: int, y: int, cell: Cell)
    requires
        is_square(g),
        inside(g, x, y),
        g[x][y].state is Unrevealed,
        !(cell.state is Unrevealed),
    ensures
        hidden_count(with_cell(g, x, y, cell)) + 1 == hidden_count(g),
{
    lemma_rows_lose_one(g, x, y, cell, g.len() as int);
}

/// `queue` is `rest` followed by neighbours of `(x, y)` on a grid of side
/// `size`, every one of them among those.
spec fn extended_by_neighbors(
    rest: Seq<(usize, usize)>,
    queue: Seq<(usize, usize)>,
    x: int,
    y: int,
    size: int,
) -> bool {
    &&& rest.len() <= queue.len()
    &&& forall|i: int| 0 <= i < rest.len() ==> queue[i] == rest[i]
    &&& forall|i: int|
        rest.len() <= i < queue.len() ==> {
            let p = #[trigger] queue[i];
            p.0 < size && p.1 < size && adjacent(x, y, p.0 as int, p.1 as int)
        }
    &&& forall|a: int, b: int|
        adjacent(x, y, a, b) && 0 <= a < size && 0 <= b < size ==> listed(queue, a, b)
}

/// What the work-list keeps true from round to round of a reveal at `from`
/// that started on the grid `g` and has come to the grid `h`.
spec fn on_course(g: Grid, h: Grid, pending: Seq<(usize, usize)>, from: (int, int)) -> bool {
    &&& is_square(g)
    &&& counts_are_true(h)
    &&& partly_flooded(g, h, from)
    &&& all_reached(g, pending, from)
    &&& all_carried(g, h, pending)
    &&& seen_to(h, pending, from.0, from.1)
}

/// A cell that is seen to stays so when the last position leaves the
/// work-list, as long as the cell there has been touched, and when
/// positions are added behind.
proof fn lemma_still_seen_to(
    h: Grid,
    k: Grid,
    waiting: Seq<(usize, usize)>,
    queue: Seq<(usize, usize)>,
    a: int,
    b: int,
)
    requires
        waiting.len() > 0,
        waiting.len() - 1 <= queue.len(),
        forall|i: int| 0 <= i < waiting.len() - 1 ==> queue[i] == waiting[i],
        seen_to(h, waiting, a, b),
        k.len() == h.len(),
        inside(h, a, b) && !(h[a][b].state is Unrevealed) ==> !(k[a][b].state is Unrevealed),
        !(k[waiting.last().0 as int][waiting.last().1 as int].state is Unrevealed),
    ensures
        seen_to(k, queue, a, b),
{
    if inside(h, a, b) && h[a][b].state is Unrevealed {
        let i = choose|i: int|
            0 <= i < waiting.len() && (#[trigger] waiting[i]).0 == a && waiting[i].1 == b;
        if i < waiting.len() - 1 {
            assert(queue[i] == waiting[i]);
        }
    }
}

/// Taking an already touched cell off the work-list keeps the work on
/// course.
proof fn lemma_skip_stays_on_course(
    g: Grid,
    h: Grid,
    waiting: Seq<(usize, usize)>,
    from: (int, int),
)
    requires
        on_course(g, h, waiting, from),
        waiting.len() > 0,
        !(h[waiting.last().0 as int][waiting.last().1 as int].state is Unrevealed),
    ensures
        on_course(g, h, waiting.drop_last(), from),
{
    let rest = waiting.drop_last();
    assert forall|i: int| 0 <= i < rest.len() implies rest[i] == waiting[i] by {}
    lemma_still_seen_to(h, h, waiting, rest, from.0, from.1);
    assert forall|x: int, y: int, a: int, b: int| #[trigger]
        carried(g, h, rest, x, y, a, b) by {
        assert(carried(g, h, waiting, x, y, a, b));
        if seen_to(h, waiting, a, b) {
            lemma_still_seen_to(h, h, waiting, rest, a, b);
        }
    }
}

/// Opening the untouched cell that comes off the work-list, and putting its
/// neighbours on the list if no mine is near it, keeps the work on course
/// and leaves one untouched cell fewer.
proof fn lemma_open_stays_on_course(
    g: Grid,
    h: Grid,
    waiting: Seq<(usize, usize)>,
    queue: Seq<(usize, usize)>,
    from: (int, int),
)
    requires
        on_course(g, h, waiting, from),
        waiting.len() > 0,
        h[waiting.last().0 as int][waiting.last().1 as int].state is Unrevealed,
        if adjacent_mines(g, waiting.last().0 as int, waiting.last().1 as int) == 0 {
            extended_by_neighbors(
                waiting.drop_last(),
                queue,
                waiting.last().0 as int,
                waiting.last().1 as int,
                g.len() as int,
            )
        } else {
            queue == waiting.drop_last()
        },
    ensures
        ({
            let x = waiting.last().0 as int;
            let y = waiting.last().1 as int;
            let k = with_cell(h, x, y, opened(g, x, y));
            &&& opened(g, x, y) == opened(h, x, y)
            &&& on_course(g, k, queue, from)
            &&& hidden_count(k) + 1 == hidden_count(h)
        }),
{
    let x = waiting.last().0 as int;
    let y = waiting.last().1 as int;
    let rest = waiting.drop_last();
    let k = with_cell(h, x, y, opened(g, x, y));
    assert(inside(g, x, y) && !g[x][y].mine && reaches(g, from, (x, y))) by {
        assert(waiting[waiting.len() - 1] == waiting.last());
    }
    assert(h[x][y] == g[x][y]);
    lemma_same_mines_same_count(g, h, x, y);
    lemma_touch_lowers_hidden_count(h, x, y, opened(g, x, y));
    assert forall|i: int| 0 <= i < rest.len() implies queue[i] == waiting[i] by {
        assert(rest[i] == waiting[i]);
    }
    assert(same_mines(g, k));
    assert forall|a: int, b: int| inside(k, a, b) implies match (#[trigger] k[a][b]).state {
        CellState::Revealed(n) => !k[a][b].mine && n == adjacent_mines(k, a, b),
        _ => true,
    } by {
        lemma_same_mines_same_count(g, k, a, b);
        lemma_same_mines_same_count(g, h, a, b);
        lemma_count_is_number_of_mined_neighbors(g, a, b);
    }
    assert forall|i: int| 0 <= i < queue.len() implies {
        let p = #[trigger] queue[i];
        &&& inside(g, p.0 as int, p.1 as int)
        &&& !g[p.0 as int][p.1 as int].mine
        &&& reaches(g, from, (p.0 as int, p.1 as int))
    } by {
        let p = queue[i];
        if i < rest.len() {
            assert(queue[i] == waiting[i]);
        } else {
            lemma_zero_count_no_mine_near(g, x, y);
            lemma_reaches_neighbor(g, from, x, y, p.0 as int, p.1 as int);
        }
    }
    lemma_still_seen_to(h, k, waiting, queue, from.0, from.1);
    assert forall|c: int, d: int, a: int, b: int| #[trigger]
        carried(g, k, queue, c, d, a, b) by {
        if spreads(g, c, d) && !(k[c][d].state is Unrevealed) && adjacent(c, d, a, b) {
            if c == x && d == y {
                assert(inside(k, a, b) ==> listed(queue, a, b));
            } else {
                assert(carried(g, h, waiting, c, d, a, b));
                lemma_still_seen_to(h, k, waiting, queue, a, b);
            }
        }
    }
}

impl Board {
    /// Reveals the cell at `(x, y)`.
    ///
    /// On a mine the game is over and the grid stays as it is. A revealed or
    /// flagged cell stays as it is. An untouched cell is opened and shows its
    /// neighbour count; if that is zero its neighbours are revealed in turn,
    /// and so on, until the opened region is bordered by numbered cells,
    /// flags and the edge of the grid.
    ///
    /// The cells still to be looked at wait on a list, so that a large open
    /// region costs memory in proportion to its size and no call depth.
    pub fn reveal_cell(&mut self, x: usize, y: usize)
        requires
            old(self).wf(),
            inside(old(self)@.grid, x as int, y as int),
        ensures
            final(self).wf(),
            final(self)@ == old(self)@.after_reveal(x as int, y as int),
            ({
                let before = old(self)@;
                let after = final(self)@;
                let target = before.grid[x as int][y as int];
                &&& after.cursor == before.cursor
                &&& same_mines(before.grid, after.grid)
                &&& target.mine ==> after.game_over && after.grid == before.grid
                &&& !target.mine ==> after.game_over == before.game_over
                &&& !(target.state is Unrevealed) ==> after.grid == before.grid
                &&& forall|a: int, b: int|
                    inside(before.grid, a, b) && (before.grid[a][b].mine || !(
                    before.grid[a][b].state is Unrevealed)) ==> #[trigger] after.grid[a][b]
                        == before.grid[a][b]
            }),
    {
        if self.cell_at(x, y).contains_mine() {
            self.set_game_over(true);
            return ;
        }
        let ghost start = self@.grid;
        let ghost from = (x as int, y as int);
        let size = self.get_board_size();
        let mut pending: Vec<(usize, usize)> = Vec::new();
        pending.push((x, y));
        proof {
            lemma_reaches_start(start, x as int, y as int);
            assert(pending@[0] == (x, y));
            assert(all_carried(start, start, pending@));
        }
        while pending.len() > 0
            invariant
                self.wf(),
                start == old(self)@.grid,
                from == (x as int, y as int),
                size == start.len(),
                self@.cursor == old(self)@.cursor,
                self@.game_over == old(self)@.game_over,
                on_course(start, self@.grid, pending@, from),
            decreases hidden_count(self@.grid), pending@.len(),
        {
            let ghost before = self@.grid;
            let ghost waiting = pending@;
            let (cx, cy) = pending.pop().unwrap();
            assert(waiting.last() == (cx, cy) && pending@ == waiting.drop_last());
            let untouched = match self.cell_at(cx, cy).state {
                CellState::Unrevealed => true,
                _ => false,
            };
            if untouched {
                let mines = self.count_mines(cx, cy);
                self.set_cell(
                    cx,
                    cy,
                    Cell { state: CellState::Revealed(mines as usize), mine: false },
                );
                if mines == 0 {
                    push_neighbors(&mut pending, cx, cy, size);
                }
                proof {
                    lemma_same_mines_same_count(start, before, cx as int, cy as int);
                    lemma_open_stays_on_course(start, before, waiting, pending@, from);
                }
            } else {
                proof {
                    lemma_skip_stays_on_course(start, before, waiting, from);
                }
            }
        }
        proof {
            assert(pending@ =~= Seq::empty());
            lemma_flood_complete(start, self@.grid, from);
            if !(start[x as int][y as int].state is Unrevealed) {
                lemma_flood_blocked(start, x as int, y as int);
            }
        }
    }
}

/// Appends `(x, y)` to the work-list if both coordinates are given and lie
/// on a grid of side `size`.
fn push_if_inside(
    pending: &mut Vec<(usize, usize)>,
    x: Option<usize>,
    y: Option<usize>,
    size: usize,
)
    ensures
        final(pending)@ == match (x, y) {
            (Some(a), Some(b)) if a < size && b < size => old(pending)@.push((a, b)),
            _ => old(pending)@,
        },
{
    match (x, y) {
        (Some(a), Some(b)) => {
            if a < size && b < size {
                pending.push((a, b));
            }
        },
        _ => {},
    }
}

/// Appends to the work-list the neighbours of `(x, y)` on a grid of side
/// `size`.
fn push_neighbors(pending: &mut Vec<(usize, usize)>, x: usize, y: usize, size: usize)
    ensures
        extended_by_neighbors(old(pending)@, final(pending)@, x as int, y as int, size as int),
{
    let up = x.checked_sub(1);
    let down = x.checked_add(1);
    let left = y.checked_sub(1);
    let right = y.checked_add(1);
    push_if_inside(pending, up, left, size);
    let ghost s1 = pending@;
    push_if_inside(pending, up, Some(y), size);
    let ghost s2 = pending@;
    push_if_inside(pending, up, right, size);
    let ghost s3 = pending@;
    push_if_inside(pending, Some(x), left, size);
    let ghost s4 = pending@;
    push_if_inside(pending, Some(x), right, size);
    let ghost s5 = pending@;
    push_if_inside(pending, down, left, size);
    let ghost s6 = pending@;
    push_if_inside(pending, down, Some(y), size);
    let ghost s7 = pending@;
    push_if_inside(pending, down, right, size);
    proof {
        let s8 = pending@;
        assert forall|a: int, b: int|
            adjacent(x as int, y as int, a, b) && 0 <= a < size && 0 <= b < size implies listed(
            s8,
            a,
            b,
        ) by {
            // The neighbour was appended by one of the eight calls; it stands
            // where the list ended right after that call.
            let k: int = if a == x - 1 && b == y - 1 {
                s1.len() - 1
            } else if a == x - 1 && b == y {
                s2.len() - 1
            } else if a == x - 1 {
                s3.len() - 1
            } else if a == x && b == y - 1 {
                s4.len() - 1
            } else if a == x {
                s5.len() - 1
            } else if b == y - 1 {
                s6.len() - 1
            } else if b == y {
                s7.len() - 1
            } else {
                s8.len() - 1
            };
            assert(s8[k].0 == a && s8[k].1 == b);
        }
    }
}

} // verus!
