//! Conway's Game of Life on a toroidal grid, with the cells packed one bit each.
//!
//! [`universe::Universe`] holds the cells and steps them; [`grid::Grid`] is the
//! mathematical value that its contracts speak of, and [`laws`] proves what
//! holds of every grid. [`bitset`] states what is taken on trust from the bit
//! set that stores the cells.

pub mod bitset;
pub mod grid;
pub mod laws;
pub mod universe;

pub use crate::grid::{Grid, Seed};
pub use crate::universe::{Universe, DEFAULT_HEIGHT, DEFAULT_WIDTH};
