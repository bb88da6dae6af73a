//! Move generation and the legality filter.

pub mod generation;
pub mod lists;
pub mod piece_moves;
pub mod validation;
