//! One cell of the board.

use crate::gates::GateType;
use crate::pieces::Piece;
use vstd::prelude::*;

verus! {

/// A cell: the piece standing on it, a gate laid over it, and the state of
/// that gate's animation. A gate is an overlay, so a square may hold a piece
/// and a gate at once.
#[derive(Clone, Copy, Debug)]
pub struct Square {
    pub piece: Option<Piece>,
    pub gate: Option<GateType>,
    pub animation_frame: Option<usize>,
    pub animation_direction: Option<i8>,
}

impl Square {
    /// The square that holds nothing.
    pub open spec fn empty() -> Square {
        Square { piece: None, gate: None, animation_frame: None, animation_direction: None }
    }

    /// An empty square.
    pub fn new() -> (s: Square)
        ensures
            s == Square::empty(),
    {
        Square { piece: None, gate: None, animation_frame: None, animation_direction: None }
    }
}

} // verus!
