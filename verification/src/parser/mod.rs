//! Reading moves from text.

pub mod algebraic;

pub use algebraic::{parse_coordinates, parse_move, parse_square};
