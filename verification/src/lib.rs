//! Conway's Game of Life on a fixed-size, toroidally wrapped grid.
//!
//! The [`Universe`] owns a flat, row-major buffer of [`Cell`] values and
//! advances it one generation at a time with [`Universe::tick`]. The grid
//! edges wrap around: the last row is adjacent to the first, and likewise
//! for columns.

pub mod cell;
pub mod grid;
pub mod universe;

pub use crate::cell::Cell;
pub use crate::universe::Universe;
