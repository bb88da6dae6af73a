//! What every per-kind piece handle offers.

use crate::game::Position;
use crate::pieces::Piece;
use vstd::prelude::*;

verus! {

/// A handle that follows one piece through its life and carries the
/// behaviour of its kind. Whatever a hook does, the piece keeps its identity
/// and the handle its position.
pub trait PieceFSM: Sized {
    /// The piece as the handle knows it.
    spec fn held(&self) -> Piece;

    /// The square on which the handle last knew its piece.
    spec fn site(&self) -> Position;

    /// The handle as [`PieceFSM::update_state`] leaves it.
    spec fn after_update(&self) -> Self;

    /// The state hook keeps the identity of the piece and the position.
    proof fn lemma_update_keeps_identity(&self)
        ensures
            self.after_update().held().id == self.held().id,
            self.after_update().site() == self.site(),
    ;

    /// The state hook, run once for each tick of the registry.
    fn update_state(&mut self)
        ensures
            *final(self) == old(self).after_update(),
    ;

    /// The kind hook.
    fn update_kind(&mut self)
        ensures
            final(self).held().id == old(self).held().id,
            final(self).site() == old(self).site(),
    ;

    /// The colour hook.
    fn update_color(&mut self)
        ensures
            final(self).held().id == old(self).held().id,
            final(self).site() == old(self).site(),
    ;

    /// The hook for the has-moved mark.
    fn update_has_moved(&mut self)
        ensures
            final(self).held().id == old(self).held().id,
            final(self).site() == old(self).site(),
    ;

    /// The piece as the handle knows it.
    fn piece(&self) -> (piece: &Piece)
        ensures
            *piece == self.held(),
    ;

    /// The piece as the handle knows it, to be changed in place.
    fn piece_mut(&mut self) -> (piece: &mut Piece)
        ensures
            *piece == old(self).held(),
            final(self).held() == *final(piece),
            final(self).site() == old(self).site(),
    ;
}

} // verus!
