//! The handle of a queen.

use super::piece_fsm::PieceFSM;
use crate::game::Position;
use crate::pieces::{Color, Piece};
use vstd::prelude::*;

verus! {

/// Follows one queen. Only its colour hook does anything: it changes the side of the queen.
#[derive(Clone, Copy, Debug)]
pub struct QueenFSM {
    pub piece: Piece,
    pub position: Position,
}

impl QueenFSM {
    /// A handle for `piece`, last seen on `position`.
    pub fn new(piece: Piece, position: Position) -> (fsm: Self)
        ensures
            fsm == (Self { piece, position }),
    {
        Self { piece, position }
    }
}

impl PieceFSM for QueenFSM {
    open spec fn held(&self) -> Piece {
        self.piece
    }

    open spec fn site(&self) -> Position {
        self.position
    }

    open spec fn after_update(&self) -> Self {
        *self
    }

    proof fn lemma_update_keeps_identity(&self) {
    }

    fn update_state(&mut self) {
    }

    fn update_kind(&mut self)
        ensures
            *final(self) == *old(self),
    {
    }

    /// Hands the queen to the other side. No tick of the registry calls this.
    fn update_color(&mut self)
        ensures
            final(self).piece == (Piece {
                color: old(self).piece.color.other(),
                ..old(self).piece
            }),
            final(self).position == old(self).position,
    {
        if self.piece.get_color() == Color::White {
            self.piece.color = Color::Black;
        } else {
            self.piece.color = Color::White;
        }
    }

    fn update_has_moved(&mut self)
        ensures
            *final(self) == *old(self),
    {
    }

    fn piece(&self) -> (piece: &Piece) {
        &self.piece
    }

    fn piece_mut(&mut self) -> (piece: &mut Piece) {
        &mut self.piece
    }
}

} // verus!
