//! A toroidal Game of Life: a double-buffered lattice of cells, the
//! synchronous Life transition rule with wrap-around neighbours, pattern
//! stamping and a textual rendering, all with verified contracts.

mod cell;
mod cell_array;
mod lattice;
pub mod pattern;
pub mod render;
pub mod rules;
mod universe;

pub use cell::Cell;
pub use lattice::Lattice2D;
pub use pattern::{get_template, Pattern};
pub use universe::{LifeError, Universe};
