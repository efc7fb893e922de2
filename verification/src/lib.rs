//! A toroidal Game of Life engine over a packed bit grid, with machine-checked
//! contracts for every operation.

pub mod bitset;
pub mod engine;
pub mod grid;
pub mod neighbors;
pub mod patterns;
pub mod universe;

pub use universe::Universe;
