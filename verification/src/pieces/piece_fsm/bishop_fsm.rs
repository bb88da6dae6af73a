//! The handle of a bishop.

use super::piece_fsm::PieceFSM;
use crate::game::Position;
use crate::pieces::Piece;
use vstd::prelude::*;

verus! {

/// Follows one bishop. None of its hooks changes anything yet.
#[derive(Clone, Copy, Debug)]
pub struct BishopFSM {
    pub piece: Piece,
    pub position: Position,
}

impl BishopFSM {
    /// A handle for `piece`, last seen on `position`.
    pub fn new(piece: Piece, position: Position) -> (fsm: Self)
        ensures
            fsm == (Self { piece, position }),
    {
        Self { piece, position }
    }
}

impl PieceFSM for BishopFSM {
    open spec fn held(&self) -> Piece {
        self.piece
    }

    open spec fn site(&self) -> Position {
        self.position
    }

    open spec fn after_update(&self) -> Self {
        *self
    }

    proof fn lemma_update_keeps_identity(&self) {
    }

    fn update_state(&mut self) {
    }

    fn update_kind(&mut self)
        ensures
            *final(self) == *old(self),
    {
    }

    fn update_color(&mut self)
        ensures
            *final(self) == *old(self),
    {
    }

    fn update_has_moved(&mut self)
        ensures
            *final(self) == *old(self),
    {
    }

    fn piece(&self) -> (piece: &Piece) {
        &self.piece
    }

    fn piece_mut(&mut self) -> (piece: &mut Piece) {
        &mut self.piece
    }
}

} // verus!
