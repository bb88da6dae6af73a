//! Dimensions and limits shared by the whole engine.

use vstd::prelude::*;

verus! {

/// Number of rows, and of columns, of the board.
pub const BOARD_SIZE: usize = 8;

/// Longest duration a gate is placed with.
pub const MAX_GATE_DURATION: u8 = 3;

/// Row on which White's pawns start.
pub const WHITE_PAWN_ROW: usize = 1;

/// Row on which Black's pawns start.
pub const BLACK_PAWN_ROW: usize = 6;

/// Symbol that stands for an empty square in a textual board.
pub const EMPTY_SQUARE_CHAR: &'static str = ".";

} // verus!
