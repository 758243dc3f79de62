//! The mathematical model of a universe: a rectangle of cells on a torus, and
//! the rule that takes one generation to the next.

use vstd::prelude::*;

verus! {

/// A universe as a mathematical value: its dimensions and its cells in
/// row-major order, `true` for a live cell.
pub struct Grid {
    pub width: nat,
    pub height: nat,
    pub cells: Seq<bool>,
}

/// The three displacements along an axis of `extent` cells, in the order in
/// which the neighbours are visited: one step back, which on a torus is
/// `extent - 1` steps forward; none; one step forward.
pub open spec fn delta(extent: nat, k: int) -> int {
    if k == 0 {
        extent - 1
    } else if k == 1 {
        0
    } else {
        1
    }
}

/// How the cells of a new universe are chosen.
#[derive(Clone, Copy, Debug)]
pub enum Seed {
    /// Every cell is dead.
    Empty,
    /// The cells whose index is a multiple of two or of seven are alive.
    Pattern,
}

/// Whether a seed makes the cell of index `i` alive.
pub open spec fn seeded(seed: Seed, i: int) -> bool {
    match seed {
        Seed::Empty => false,
        Seed::Pattern => i % 2 == 0 || i % 7 == 0,
    }
}

/// The character that stands for a live cell in a rendering: a black square.
pub const LIVE_GLYPH: char = '\u{25FC}';

/// The character that stands for a dead cell in a rendering: a white square.
pub const DEAD_GLYPH: char = '\u{25FB}';

/// The character that stands for a cell in a rendering.
pub open spec fn glyph(alive: bool) -> char {
    if alive {
        LIVE_GLYPH
    } else {
        DEAD_GLYPH
    }
}

/// Whether one of the coordinate pairs is that of the cell of index `i` in a
/// grid of the given width.
pub open spec fn listed(coords: Seq<(u32, u32)>, width: nat, i: int) -> bool {
    exists|k: int|
        0 <= k < coords.len() && (#[trigger] coords[k]).0 * width + coords[k].1 == i
}

/// The rule of the game: a live cell stays alive with two or three live
/// neighbours, a dead cell comes alive with exactly three.
pub open spec fn next_state(alive: bool, live_neighbors: int) -> bool {
    if alive {
        live_neighbors == 2 || live_neighbors == 3
    } else {
        live_neighbors == 3
    }
}

impl Grid {
    /// There is one cell for each position, and every index fits in 32 bits.
    pub open spec fn wf(self) -> bool {
        &&& self.cells.len() == self.width * self.height
        &&& self.width * self.height <= u32::MAX
    }

    /// Whether `(row, col)` is a position of the grid.
    pub open spec fn contains(self, row: int, col: int) -> bool {
        0 <= row < self.height && 0 <= col < self.width
    }

    /// The place of `(row, col)` in `cells`.
    pub open spec fn index(self, row: int, col: int) -> int {
        row * self.width + col
    }

    /// Whether the cell at `(row, col)` is alive.
    pub open spec fn alive(self, row: int, col: int) -> bool {
        self.cells[self.index(row, col)]
    }

    /// What the `k`-th of the nine displacement pairs adds to the live
    /// neighbour count of `(row, col)`: the pair of two zero displacements
    /// is the cell itself and adds nothing, any other adds one if the cell
    /// it leads to, wrapping round both axes, is alive.
    pub open spec fn counted(self, row: int, col: int, k: int) -> int {
        let delta_row = delta(self.height, k / 3);
        let delta_col = delta(self.width, k % 3);
        if delta_row == 0 && delta_col == 0 {
            0
        } else if self.alive(
            (row + delta_row) % (self.height as int),
            (col + delta_col) % (self.width as int),
        ) {
            1
        } else {
            0
        }
    }

    /// The sum of what the first `n` displacement pairs add.
    pub open spec fn counted_among(self, row: int, col: int, n: nat) -> int
        decreases n,
    {
        if n == 0 {
            0
        } else {
            self.counted_among(row, col, (n - 1) as nat) + self.counted(row, col, n - 1)
        }
    }

    /// The number of live cells among the neighbours of `(row, col)`.
    pub open spec fn live_neighbor_count(self, row: int, col: int) -> int {
        self.counted_among(row, col, 9)
    }

    /// The next generation: every cell follows the rule at once, each on the
    /// neighbours it has in this generation.
    pub open spec fn step(self) -> Grid {
        Grid {
            width: self.width,
            height: self.height,
            cells: Seq::new(
                self.cells.len(),
                |i: int|
                    next_state(
                        self.cells[i],
                        self.live_neighbor_count(i / (self.width as int), i % (self.width as int)),
                    ),
            ),
        }
    }

    /// The generation `n` steps on.
    pub open spec fn steps(self, n: nat) -> Grid
        decreases n,
    {
        if n == 0 {
            self
        } else {
            self.steps((n - 1) as nat).step()
        }
    }

    /// A grid of the given dimensions with no live cell.
    pub open spec fn dead(width: nat, height: nat) -> Grid {
        Grid { width, height, cells: Seq::new(width * height, |i: int| false) }
    }

    /// A grid of the given dimensions with the cells that a seed chooses.
    pub open spec fn sown(width: nat, height: nat, seed: Seed) -> Grid {
        Grid { width, height, cells: Seq::new(width * height, |i: int| seeded(seed, i)) }
    }

    /// The grid with other cells in the same rectangle.
    pub open spec fn with_cells(self, cells: Seq<bool>) -> Grid {
        Grid { width: self.width, height: self.height, cells }
    }

    /// The grid with every cell that `coords` lists given the state `value`,
    /// and every other cell as it is.
    pub open spec fn stamped(self, coords: Seq<(u32, u32)>, value: bool) -> Grid {
        self.with_cells(
            Seq::new(
                self.cells.len(),
                |i: int|
                    if listed(coords, self.width, i) {
                        value
                    } else {
                        self.cells[i]
                    },
            ),
        )
    }

    /// The glyphs of the first `n` cells of a row.
    pub open spec fn row_glyphs(self, row: int, n: nat) -> Seq<char> {
        Seq::new(n, |col: int| glyph(self.alive(row, col)))
    }

    /// The rendering of the first `n` rows: the glyphs of each row, and a
    /// line break after it.
    pub open spec fn rows_rendered(self, n: nat) -> Seq<char>
        decreases n,
    {
        if n == 0 {
            Seq::empty()
        } else {
            self.rows_rendered((n - 1) as nat) + self.row_glyphs(n - 1, self.width).push('\n')
        }
    }

    /// The grid as text: one glyph for each cell, and a line break after
    /// every `width` cells. A grid without cells renders as the empty text.
    pub open spec fn rendering(self) -> Seq<char> {
        if self.width == 0 {
            Seq::empty()
        } else {
            self.rows_rendered(self.height)
        }
    }

    /// Whether no cell is alive.
    pub open spec fn all_dead(self) -> bool {
        forall|i: int| 0 <= i < self.cells.len() ==> !self.cells[i]
    }

    /// The grid with the cell at `(row, col)` inverted.
    pub open spec fn toggled(self, row: int, col: int) -> Grid {
        Grid {
            width: self.width,
            height: self.height,
            cells: self.cells.update(self.index(row, col), !self.alive(row, col)),
        }
    }
}

/// A position of the grid has an index below the number of cells, and the
/// index gives the position back.
pub proof fn lemma_index(g: Grid, row: int, col: int)
    requires
        g.contains(row, col),
    ensures
        0 <= g.index(row, col) < g.width * g.height,
        g.index(row, col) / (g.width as int) == row,
        g.index(row, col) % (g.width as int) == col,
{
    let w = g.width as int;
    let h = g.height as int;
    assert(0 <= row * w) by (nonlinear_arith)
        requires
            0 <= row,
            0 <= w,
    ;
    assert(row * w + w <= h * w) by (nonlinear_arith)
        requires
            row + 1 <= h,
            0 <= w,
    ;
    assert(h * w == w * h) by (nonlinear_arith);
    vstd::arithmetic::div_mod::lemma_fundamental_div_mod_converse(row * w + col, w, row, col);
}

} // verus!
