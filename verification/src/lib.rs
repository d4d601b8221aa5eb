//! Conway's Game of Life on a fixed-size toroidal grid.
//!
//! A [`Universe`] holds one generation of cells in a packed bit buffer and
//! advances it synchronously: each step reads a single consistent snapshot
//! of the current generation and writes a fresh one. Rows and columns wrap
//! around, so the grid has no edges.

pub mod bits;
pub mod laws;
pub mod universe;

pub use universe::Cell;
pub use universe::Universe;
