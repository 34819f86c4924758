//! A carrier walking a two-dimensional grid, turning and toggling cell states
//! by fixed local rules, over several interchangeable grid stores.
pub mod automaton;
pub mod dense;
pub mod direction;
pub mod pattern;
pub mod sparse;
pub mod strategy;
pub mod walk;

pub use automaton::{orient, touch, Alphabet, Infection};
pub use dense::{part3, part4, read3, read4, DenseCodes, DenseGrid};
pub use direction::{go, turn, Coords, Turn, Wind};
pub use pattern::{challenge_input, test_input, validate, PatternError};
pub use sparse::{part1, part2, read1, read2, SparseMap, SparseSet};
pub use strategy::{build_grid, Grid, Strategy};
pub use walk::{simulate, CellStore, OutOfRange};
