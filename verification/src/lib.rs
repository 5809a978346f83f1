//! Conway's Game of Life on a fixed-size toroidal grid.
//!
//! The grid wraps around at its edges, so every cell has exactly eight
//! neighbours. One `tick` advances the whole grid by one generation under
//! the standard B3/S23 rules, applied atomically: every cell's next state
//! is computed from the current generation only.

pub mod rules;
pub mod universe;

pub use rules::Cell;
pub use universe::Universe;
