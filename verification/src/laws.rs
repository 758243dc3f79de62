//! What holds of every grid: how the neighbour count reads the torus, and
//! what a step does to some familiar populations.

use crate::grid::{delta, lemma_index, Grid};
use vstd::prelude::*;

verus! {

/// One for a live cell, nothing for a dead one.
pub open spec fn one_if(alive: bool) -> int {
    if alive {
        1
    } else {
        0
    }
}

/// Whether the live cells of `g` are exactly the two-by-two block whose first
/// corner is `(row, col)`, the block wrapping round where it meets an edge.
pub open spec fn is_block(g: Grid, row: int, col: int) -> bool {
    forall|r: int, c: int|
        g.contains(r, c) ==> (#[trigger] g.alive(r, c) <==> (r == row || r == (row + 1) % (
        g.height as int)) && (c == col || c == (col + 1) % (g.width as int)))
}

/// Along an axis of `extent` positions, the three displacements lead one
/// position back, nowhere, and one position on, the first position following
/// the last.
pub proof fn lemma_wrap(extent: nat, pos: int)
    requires
        0 <= pos < extent,
    ensures
        (pos + delta(extent, 0)) % (extent as int) == if pos == 0 {
            extent - 1
        } else {
            pos - 1
        },
        (pos + delta(extent, 1)) % (extent as int) == pos,
        (pos + delta(extent, 2)) % (extent as int) == if pos == extent - 1 {
            0
        } else {
            pos + 1
        },
{
    let e = extent as int;
    if pos == 0 {
        vstd::arithmetic::div_mod::lemma_fundamental_div_mod_converse(pos + e - 1, e, 0, e - 1);
    } else {
        vstd::arithmetic::div_mod::lemma_fundamental_div_mod_converse(pos + e - 1, e, 1, pos - 1);
    }
    vstd::arithmetic::div_mod::lemma_fundamental_div_mod_converse(pos, e, 0, pos);
    if pos == e - 1 {
        vstd::arithmetic::div_mod::lemma_fundamental_div_mod_converse(pos + 1, e, 1, 0);
    } else {
        vstd::arithmetic::div_mod::lemma_fundamental_div_mod_converse(pos + 1, e, 0, pos + 1);
    }
}

/// Every index of a well-formed grid is the index of one position of it.
pub proof fn lemma_position(g: Grid, i: int)
    requires
        g.wf(),
        0 <= i < g.cells.len(),
    ensures
        g.contains(i / (g.width as int), i % (g.width as int)),
        g.index(i / (g.width as int), i % (g.width as int)) == i,
{
    let w = g.width as int;
    let h = g.height as int;
    assert(w > 0) by (nonlinear_arith)
        requires
            0 <= i < w * h,
            0 <= w,
    ;
    vstd::arithmetic::div_mod::lemma_fundamental_div_mod(i, w);
    vstd::arithmetic::div_mod::lemma_mod_bound(i, w);
    let q = i / w;
    assert(0 <= q < h) by (nonlinear_arith)
        requires
            0 <= i < w * h,
            w > 0,
            i == w * q + i % w,
            0 <= i % w < w,
    ;
    assert(q * w == w * q) by (nonlinear_arith);
}

/// The live neighbour count is the sum over the nine displacement pairs.
pub proof fn lemma_count_unfolds(g: Grid, row: int, col: int)
    ensures
        g.live_neighbor_count(row, col) == g.counted(row, col, 0) + g.counted(row, col, 1)
            + g.counted(row, col, 2) + g.counted(row, col, 3) + g.counted(row, col, 4) + g.counted(
            row,
            col,
            5,
        ) + g.counted(row, col, 6) + g.counted(row, col, 7) + g.counted(row, col, 8),
        0 <= g.live_neighbor_count(row, col) <= 8,
{
    reveal_with_fuel(Grid::counted_among, 10);
}

/// Away from the edges, the live neighbour count of a cell is the number of
/// live cells in the three-by-three square around it, the cell itself left out.
pub proof fn lemma_interior_neighbors(g: Grid, row: int, col: int)
    requires
        0 < row < g.height - 1,
        0 < col < g.width - 1,
    ensures
        g.live_neighbor_count(row, col) == one_if(g.alive(row - 1, col - 1)) + one_if(
            g.alive(row - 1, col),
        ) + one_if(g.alive(row - 1, col + 1)) + one_if(g.alive(row, col - 1)) + one_if(
            g.alive(row, col + 1),
        ) + one_if(g.alive(row + 1, col - 1)) + one_if(g.alive(row + 1, col)) + one_if(
            g.alive(row + 1, col + 1),
        ),
{
    lemma_count_unfolds(g, row, col);
    lemma_wrap(g.height, row);
    lemma_wrap(g.width, col);
}

/// The grid wraps on both axes: a live cell in the first row and first column
/// is counted among the neighbours of the last cell of the last row, of the
/// first cell of the last row, and of the last cell of the first row.
pub proof fn lemma_origin_wraps(g: Grid)
    requires
        g.width > 0,
        g.height > 0,
        g.alive(0, 0),
    ensures
        g.counted(g.height - 1, g.width - 1, 8) == 1,
        g.counted(g.height - 1, 0, 7) == 1,
        g.counted(0, g.width - 1, 5) == 1,
        g.live_neighbor_count(g.height - 1, g.width - 1) >= 1,
        g.live_neighbor_count(g.height - 1, 0) >= 1,
        g.live_neighbor_count(0, g.width - 1) >= 1,
{
    lemma_count_unfolds(g, g.height - 1, g.width - 1);
    lemma_count_unfolds(g, g.height - 1, 0);
    lemma_count_unfolds(g, 0, g.width - 1);
    lemma_wrap(g.height, g.height - 1);
    lemma_wrap(g.height, 0);
    lemma_wrap(g.width, g.width - 1);
    lemma_wrap(g.width, 0);
}

/// The next generation depends on the dimensions and the cells alone: two
/// grids that agree in them have the same next generation.
pub proof fn lemma_step_is_function(a: Grid, b: Grid)
    requires
        a.width == b.width,
        a.height == b.height,
        a.cells == b.cells,
    ensures
        a.step() == b.step(),
{
}

/// A grid with no live cell has none after any number of steps.
pub proof fn lemma_dead_stays_dead(g: Grid, n: nat)
    requires
        g.wf(),
        g.all_dead(),
    ensures
        g.steps(n).all_dead(),
        g.steps(n) == g,
    decreases n,
{
    if n > 0 {
        lemma_dead_stays_dead(g, (n - 1) as nat);
        assert forall|i: int| 0 <= i < g.cells.len() implies !g.step().cells[i] by {
            let row = i / (g.width as int);
            let col = i % (g.width as int);
            lemma_position(g, i);
            lemma_count_unfolds(g, row, col);
            lemma_wrap(g.height, row);
            lemma_wrap(g.width, col);
            assert forall|r: int, c: int| g.contains(r, c) implies !g.alive(r, c) by {
                lemma_index(g, r, c);
            }
        }
        assert(g.step().cells =~= g.cells);
    }
}

/// A two-by-two block of live cells, alone on a grid of at least four rows
/// and four columns, is the same after a step.
pub proof fn lemma_block_is_still(g: Grid, row: int, col: int)
    requires
        g.wf(),
        g.height >= 4,
        g.width >= 4,
        g.contains(row, col),
        is_block(g, row, col),
    ensures
        g.step() == g,
{
    lemma_wrap(g.height, row);
    lemma_wrap(g.width, col);
    assert forall|i: int| 0 <= i < g.cells.len() implies g.step().cells[i] == g.cells[i] by {
        let r = i / (g.width as int);
        let c = i % (g.width as int);
        lemma_position(g, i);
        lemma_count_unfolds(g, r, c);
        lemma_wrap(g.height, r);
        lemma_wrap(g.width, c);
        assert(g.cells[i] == g.alive(r, c));
    }
    assert(g.step().cells =~= g.cells);
}

/// Inverting a cell twice gives the grid back.
pub proof fn lemma_toggle_twice(g: Grid, row: int, col: int)
    requires
        g.wf(),
        g.contains(row, col),
    ensures
        g.toggled(row, col).toggled(row, col) == g,
{
    lemma_index(g, row, col);
    assert(g.toggled(row, col).toggled(row, col).cells =~= g.cells);
}

} // verus!
