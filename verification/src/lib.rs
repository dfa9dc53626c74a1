//! Conway's Game of Life on a fixed-size toroidal grid.
//!
//! The simulation state lives in [`universe::Universe`]: a bit-packed grid of
//! cells together with a scratch buffer for the generation being computed.
//! The mathematical model of the grid and of the B3/S23 rule is in [`grid`],
//! the properties proved of that model in [`laws`], and [`bitset`] is the
//! trusted surface over the packed bit storage.

pub mod bitset;
pub mod grid;
pub mod laws;
pub mod universe;

pub use universe::Universe;
