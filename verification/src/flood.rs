//! Facts about how far a reveal gets over a grid.

use vstd::prelude::*;
use crate::grid::{
    Grid, adjacent, flood, inside, is_spread_path, is_step, openable, opens, reaches, spreads,
};

verus! {

/// A reveal reaches the cell it starts from.
pub proof fn lemma_reaches_start(g: Grid, x: int, y: int)
    requires
        inside(g, x, y),
    ensures
        reaches(g, (x, y), (x, y)),
{
    let path = seq![(x, y)];
    assert(is_spread_path(g, path));
}

/// From a spreading cell that a reveal reaches, it reaches every neighbour
/// on the grid.
pub proof fn lemma_reaches_neighbor(g: Grid, from: (int, int), x: int, y: int, a: int, b: int)
    requires
        reaches(g, from, (x, y)),
        spreads(g, x, y),
        adjacent(x, y, a, b),
        inside(g, a, b),
    ensures
        reaches(g, from, (a, b)),
{
    let path = choose|path: Seq<(int, int)>|
        #[trigger] is_spread_path(g, path) && path[0] == from && path.last() == (x, y);
    let longer = path.push((a, b));
    assert forall|i: int| 0 <= i < longer.len() - 1 implies #[trigger] is_step(g, longer, i) by {
        if i < path.len() - 1 {
            assert(is_step(g, path, i));
        }
    }
    assert(is_spread_path(g, longer));
}

/// From a cell that does not spread, a reveal reaches no other cell.
pub proof fn lemma_reaches_nothing_beyond(g: Grid, from: (int, int), to: (int, int))
    requires
        !spreads(g, from.0, from.1),
        reaches(g, from, to),
    ensures
        to == from,
{
    let path = choose|path: Seq<(int, int)>|
        #[trigger] is_spread_path(g, path) && path[0] == from && path.last() == to;
    if path.len() > 1 {
        assert(is_step(g, path, 0));
    }
}

/// A reveal at a cell that cannot be opened leaves the grid as it is.
pub proof fn lemma_flood_blocked(g: Grid, x: int, y: int)
    requires
        !openable(g, x, y),
    ensures
        flood(g, (x, y)) == g,
{
    assert forall|a: int, b: int| !opens(g, (x, y), a, b) by {
        if opens(g, (x, y), a, b) {
            lemma_reaches_nothing_beyond(g, (x, y), (a, b));
        }
    }
    assert(flood(g, (x, y)) =~~= g);
}

} // verus!
