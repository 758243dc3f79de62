//! The universe: a grid of cells held one bit each, and the operations on it.

use crate::bitset::{bit_of, bits};
use crate::grid::{
    delta, lemma_index, listed, next_state, seeded, Grid, Seed, DEAD_GLYPH, LIVE_GLYPH,
};
use fixedbitset::FixedBitSet;
use vstd::prelude::*;

verus! {

/// The number of columns of a default universe.
pub const DEFAULT_WIDTH: u32 = 128;

/// The number of rows of a default universe.
pub const DEFAULT_HEIGHT: u32 = 128;

/// A grid of cells on a torus, each alive or dead.
///
/// A universe is made with at least one row and one column. A resize may
/// take a dimension to zero, which leaves a universe without cells.
pub struct Universe {
    width: u32,
    height: u32,
    cells: FixedBitSet,
}

impl View for Universe {
    type V = Grid;

    closed spec fn view(&self) -> Grid {
        Grid { width: self.width as nat, height: self.height as nat, cells: bits(self.cells) }
    }
}

impl Universe {
    /// The invariant of a universe: it holds one bit for each position, and
    /// every index fits in 32 bits.
    pub open spec fn wf(&self) -> bool {
        self@.wf()
    }

    /// A universe of the given dimensions with every cell dead.
    pub fn new(width: u32, height: u32) -> (universe: Universe)
        requires
            width > 0,
            height > 0,
            width * height <= u32::MAX,
        ensures
            universe.wf(),
            universe@ == Grid::dead(width as nat, height as nat),
    {
        let universe = Universe::with_seed(width, height, Seed::Empty);
        assert(universe@.cells =~= Grid::dead(width as nat, height as nat).cells);
        universe
    }

    /// A universe of the given dimensions with the cells that `seed` chooses.
    pub fn with_seed(width: u32, height: u32, seed: Seed) -> (universe: Universe)
        requires
            width > 0,
            height > 0,
            width * height <= u32::MAX,
        ensures
            universe.wf(),
            universe@ == Grid::sown(width as nat, height as nat, seed),
    {
        assert(width * height == (width as nat) * (height as nat));
        let size = (width * height) as usize;
        let mut cells = FixedBitSet::with_capacity(size);
        for i in 0..size
            invariant
                bits(cells).len() == size,
                forall|k: int| 0 <= k < i ==> bits(cells)[k] == seeded(seed, k),
        {
            let alive = match seed {
                Seed::Empty => false,
                Seed::Pattern => i % 2 == 0 || i % 7 == 0,
            };
            cells.set(i, alive);
        }
        assert(bits(cells) =~= Grid::sown(width as nat, height as nat, seed).cells);
        Universe { width, height, cells }
    }

    /// The number of columns.
    pub fn width(&self) -> (width: u32)
        ensures
            width == self@.width,
    {
        self.width
    }

    /// The number of rows.
    pub fn height(&self) -> (height: u32)
        ensures
            height == self@.height,
    {
        self.height
    }

    /// The place of the cell at `(row, column)` among the bits.
    pub fn get_index(&self, row: u32, column: u32) -> (index: usize)
        requires
            self.wf(),
            self@.contains(row as int, column as int),
        ensures
            index == self@.index(row as int, column as int),
            index < self@.cells.len(),
    {
        proof {
            lemma_index(self@, row as int, column as int);
        }
        (row * self.width + column) as usize
    }

    /// The number of live cells among the eight neighbours of the cell at
    /// `(row, column)`, the grid wrapping round at its edges.
    pub fn live_neighbor_count(&self, row: u32, column: u32) -> (count: u8)
        requires
            self.wf(),
            self@.contains(row as int, column as int),
        ensures
            count == self@.live_neighbor_count(row as int, column as int),
            count <= 8,
    {
        let mut count: u8 = 0;
        let delta_rows: [u32; 3] = [self.height - 1, 0, 1];
        let delta_cols: [u32; 3] = [self.width - 1, 0, 1];
        for i in 0..3usize
            invariant
                self.wf(),
                self@.contains(row as int, column as int),
                forall|k: int| 0 <= k < 3 ==> delta_rows[k] == delta(self@.height, k),
                forall|k: int| 0 <= k < 3 ==> delta_cols[k] == delta(self@.width, k),
                count == self@.counted_among(row as int, column as int, (3 * i) as nat),
                count <= 3 * i,
                i >= 2 ==> count < 3 * i,
        {
            for j in 0..3usize
                invariant
                    i < 3,
                    self.wf(),
                    self@.contains(row as int, column as int),
                    forall|k: int| 0 <= k < 3 ==> delta_rows[k] == delta(self@.height, k),
                    forall|k: int| 0 <= k < 3 ==> delta_cols[k] == delta(self@.width, k),
                    count == self@.counted_among(row as int, column as int, (3 * i + j) as nat),
                    count <= 3 * i + j,
                    3 * i + j > 4 ==> count < 3 * i + j,
            {
                let delta_row = delta_rows[i];
                let delta_col = delta_cols[j];
                assert((3 * i + j) / 3 == i && (3 * i + j) % 3 == j);
                if delta_row != 0 || delta_col != 0 {
                    let neighbor_row = ((row as u64 + delta_row as u64) % (self.height as u64)) as u32;
                    let neighbor_col = ((column as u64 + delta_col as u64) % (self.width as u64)) as u32;
                    let neighbor_index = self.get_index(neighbor_row, neighbor_col);
                    if self.cells.contains(neighbor_index) {
                        count += 1;
                    }
                }
            }
        }
        count
    }

    /// Advances the universe by one generation.
    pub fn tick(&mut self)
        requires
            old(self).wf(),
        ensures
            final(self).wf(),
            final(self)@ == old(self)@.step(),
    {
        let mut next = self.cells.clone();
        assert(0 * self@.width == 0);
        for row in 0..self.height
            invariant
                self.wf(),
                bits(next).len() == self@.cells.len(),
                forall|k: int|
                    0 <= k < row * self@.width ==> bits(next)[k] == self@.step().cells[k],
        {
            for col in 0..self.width
                invariant
                    row < self@.height,
                    self.wf(),
                    bits(next).len() == self@.cells.len(),
                    forall|k: int|
                        0 <= k < row * self@.width + col ==> bits(next)[k]
                            == self@.step().cells[k],
            {
                let idx = self.get_index(row, col);
                let cell = self.cells.contains(idx);
                let live_neighbors = self.live_neighbor_count(row, col);
                proof {
                    lemma_index(self@, row as int, col as int);
                }
                let state = match (cell, live_neighbors) {
                    // A live cell with fewer than two live neighbours dies.
                    (true, x) if x < 2 => false,
                    // A live cell with two or three live neighbours lives on.
                    (true, 2) | (true, 3) => true,
                    // A live cell with more than three live neighbours dies.
                    (true, x) if x > 3 => false,
                    // A dead cell with exactly three live neighbours comes alive.
                    (false, 3) => true,
                    // Every other cell stays as it is.
                    (otherwise, _) => otherwise,
                };
                assert(state == next_state(cell, live_neighbors as int));
                next.set(idx, state);
            }
            assert((row + 1) * self@.width == row * self@.width + self@.width) by (nonlinear_arith);
        }
        proof {
            assert(self@.height * self@.width == self@.width * self@.height) by (nonlinear_arith);
            assert(bits(next) =~= self@.step().cells);
        }
        self.cells = next;
    }

    /// Sets the number of columns and leaves every cell dead.
    pub fn set_width(&mut self, width: u32)
        requires
            width * old(self)@.height <= u32::MAX,
        ensures
            final(self).wf(),
            final(self)@ == Grid::dead(width as nat, old(self)@.height),
    {
        self.width = width;
        self.reset_cells();
    }

    /// Sets the number of rows and leaves every cell dead.
    pub fn set_height(&mut self, height: u32)
        requires
            old(self)@.width * height <= u32::MAX,
        ensures
            final(self).wf(),
            final(self)@ == Grid::dead(old(self)@.width, height as nat),
    {
        self.height = height;
        self.reset_cells();
    }

    /// Replaces the cells by as many dead ones as the dimensions ask for.
    pub fn reset_cells(&mut self)
        requires
            old(self)@.width * old(self)@.height <= u32::MAX,
        ensures
            final(self).wf(),
            final(self)@ == Grid::dead(old(self)@.width, old(self)@.height),
    {
        self.cells = FixedBitSet::with_capacity((self.width * self.height) as usize);
    }

    /// Inverts the cell at `(row, col)`.
    pub fn toggle_cell(&mut self, row: u32, col: u32)
        requires
            old(self).wf(),
            old(self)@.contains(row as int, col as int),
        ensures
            final(self).wf(),
            final(self)@ == old(self)@.toggled(row as int, col as int),
    {
        let idx = self.get_index(row, col);
        self.cells.toggle(idx);
    }

    /// The blocks in which the cells are packed, 32 cells to a block, the
    /// first cell in the least significant bit of the first block.
    pub fn cells(&self) -> (blocks: &[u32])
        ensures
            blocks@.len() == (self@.cells.len() + 31) / 32,
            forall|i: int|
                0 <= i < self@.cells.len() ==> #[trigger] self@.cells[i] == bit_of(blocks@, i),
    {
        self.cells.as_slice()
    }

    /// The universe as text: a glyph for each cell, and a line break at the
    /// end of each row.
    pub fn render(&self) -> (text: String)
        requires
            self.wf(),
        ensures
            text@ == self@.rendering(),
    {
        let mut text = String::new();
        let ghost width = self@.width as int;
        let ghost height = self@.height as int;
        let ghost mut row: int = 0;
        let ghost mut col: int = 0;
        let len = self.cells.len();
        for idx in 0..len
            invariant
                self.wf(),
                len == self@.cells.len(),
                width == self@.width,
                height == self@.height,
                idx == row * width + col,
                0 <= row,
                0 <= col,
                col < width || (row == 0 && col == 0),
                text@ == self@.rows_rendered(row as nat) + self@.row_glyphs(row, col as nat),
        {
            let symbol = if self.cells.contains(idx) {
                LIVE_GLYPH
            } else {
                DEAD_GLYPH
            };
            text.push(symbol);
            proof {
                assert(width > 0) by (nonlinear_arith)
                    requires
                        0 <= idx < width * height,
                        0 <= height,
                ;
                assert(self@.row_glyphs(row, col as nat).push(symbol) =~= self@.row_glyphs(
                    row,
                    (col + 1) as nat,
                ));
                assert(text@ =~= self@.rows_rendered(row as nat) + self@.row_glyphs(
                    row,
                    (col + 1) as nat,
                ));
                assert((row + 1) * width == row * width + width) by (nonlinear_arith);
                if col + 1 < width {
                    vstd::arithmetic::div_mod::lemma_fundamental_div_mod_converse(
                        idx + 1,
                        width,
                        row,
                        col + 1,
                    );
                } else {
                    vstd::arithmetic::div_mod::lemma_fundamental_div_mod_converse(
                        idx + 1,
                        width,
                        row + 1,
                        0,
                    );
                }
            }
            if (idx + 1) as u32 % self.width == 0 {
                text.push('\n');
                proof {
                    assert(text@ =~= self@.rows_rendered((row + 1) as nat) + self@.row_glyphs(
                        row + 1,
                        0,
                    ));
                    row = row + 1;
                    col = 0;
                }
            } else {
                proof {
                    col = col + 1;
                }
            }
        }
        proof {
            if width > 0 {
                assert(width * height == height * width) by (nonlinear_arith);
                vstd::arithmetic::div_mod::lemma_fundamental_div_mod_converse(
                    self@.cells.len() as int,
                    width,
                    row,
                    col,
                );
                vstd::arithmetic::div_mod::lemma_fundamental_div_mod_converse(
                    self@.cells.len() as int,
                    width,
                    height,
                    0,
                );
                assert(text@ =~= self@.rows_rendered(self@.height));
            } else {
                assert(width * height == 0) by (nonlinear_arith)
                    requires
                        width == 0,
                ;
                assert(text@ =~= Seq::<char>::empty());
            }
        }
        text
    }

    /// Gives every cell the state drawn for it: `draws` holds one state for
    /// each cell, in row-major order.
    pub fn randomize(&mut self, draws: &[bool])
        requires
            old(self).wf(),
            draws@.len() == old(self)@.cells.len(),
        ensures
            final(self).wf(),
            final(self)@ == old(self)@.with_cells(draws@),
    {
        let len = self.cells.len();
        for idx in 0..len
            invariant
                self.wf(),
                len == self@.cells.len(),
                self@.width == old(self)@.width,
                self@.height == old(self)@.height,
                draws@.len() == self@.cells.len(),
                forall|k: int| 0 <= k < idx ==> self@.cells[k] == draws@[k],
        {
            self.cells.set(idx, draws[idx]);
        }
        assert(self@.cells =~= draws@);
    }

    /// The dead and alive values of the entire universe.
    pub fn get_cells(&self) -> (cells: &FixedBitSet)
        ensures
            bits(*cells) == self@.cells,
    {
        &self.cells
    }

    /// Gives every cell that `cells` lists, by row and column, the state
    /// `value`.
    pub fn set_cells(&mut self, cells: &[(u32, u32)], value: bool)
        requires
            old(self).wf(),
            forall|k: int|
                0 <= k < cells@.len() ==> old(self)@.contains(
                    (#[trigger] cells@[k]).0 as int,
                    cells@[k].1 as int,
                ),
        ensures
            final(self).wf(),
            final(self)@ == old(self)@.stamped(cells@, value),
    {
        assert(self@.cells =~= self@.stamped(cells@.take(0), value).cells);
        for n in 0..cells.len()
            invariant
                self.wf(),
                self@.width == old(self)@.width,
                self@.height == old(self)@.height,
                forall|k: int|
                    0 <= k < cells@.len() ==> self@.contains(
                        (#[trigger] cells@[k]).0 as int,
                        cells@[k].1 as int,
                    ),
                self@ == old(self)@.stamped(cells@.take(n as int), value),
        {
            let (row, col) = cells[n];
            let idx = self.get_index(row, col);
            self.cells.set(idx, value);
            proof {
                let before = cells@.take(n as int);
                let after = cells@.take(n + 1);
                assert(after[n as int] == cells@[n as int]);
                assert forall|i: int| 0 <= i < self@.cells.len() implies self@.cells[i] == old(
                    self,
                )@.stamped(after, value).cells[i] by {
                    if listed(before, self@.width, i) {
                        let k = choose|k: int|
                            0 <= k < before.len() && (#[trigger] before[k]).0 * self@.width
                                + before[k].1 == i;
                        assert(after[k] == before[k]);
                    }
                    if listed(after, self@.width, i) && i != idx {
                        let k = choose|k: int|
                            0 <= k < after.len() && (#[trigger] after[k]).0 * self@.width
                                + after[k].1 == i;
                        assert(before[k] == after[k]);
                    }
                }
                assert(self@.cells =~= old(self)@.stamped(after, value).cells);
            }
        }
        assert(cells@.take(cells@.len() as int) =~= cells@);
    }
}

impl Default for Universe {
    /// A universe of the default dimensions with every cell dead.
    fn default() -> (universe: Universe)
        ensures
            universe.wf(),
            universe@ == Grid::dead(DEFAULT_WIDTH as nat, DEFAULT_HEIGHT as nat),
    {
        Universe::new(DEFAULT_WIDTH, DEFAULT_HEIGHT)
    }
}

} // verus!
