//! The legality filter: does a move leave the mover's own king attacked?

use crate::game::listing::keeps_king_safe;
use crate::game::rules::leaves_in_check;
use crate::game::{Game, GameResult, Position};
use crate::pieces::Color;
use vstd::prelude::*;

verus! {

impl Game {
    /// Whether moving from `from` to `to` would leave the king of `color`
    /// attacked. The move is tried on a copy; the game itself is only read.
    pub fn leaves_king_in_check(
        &self,
        from: Position,
        to: Position,
        color: Color,
    ) -> (exposed: bool)
        requires
            from.valid(),
            to.valid(),
        ensures
            exposed == leaves_in_check(self.grid(), from, to, color),
    {
        let mut trial = Game {
            board: self.board,
            current_turn: self.current_turn,
            result: GameResult::InProgress,
        };
        trial.make_move_unchecked(from, to);
        trial.is_king_in_check(color)
    }

    /// Those of `candidates` that do not leave the king of `color` attacked
    /// when the piece on `from` goes there, in their order.
    pub(crate) fn retain_safe(
        &self,
        from: Position,
        candidates: Vec<Position>,
        color: Color,
    ) -> (kept: Vec<Position>)
        requires
            from.valid(),
            forall|i: int| 0 <= i < candidates.len() ==> (#[trigger] candidates[i]).valid(),
        ensures
            kept@ == candidates@.filter(keeps_king_safe(self.grid(), from, color)),
    {
        let ghost test = keeps_king_safe(self.grid(), from, color);
        let mut kept: Vec<Position> = Vec::new();
        let mut i: usize = 0;
        proof {
            reveal(Seq::filter);
            assert(candidates@.take(0) =~= Seq::<Position>::empty());
        }
        while i < candidates.len()
            invariant
                i <= candidates.len(),
                from.valid(),
                test == keeps_king_safe(self.grid(), from, color),
                forall|j: int| 0 <= j < candidates.len() ==> (#[trigger] candidates[j]).valid(),
                kept@ == candidates@.take(i as int).filter(test),
            decreases candidates.len() - i,
        {
            let to = candidates[i];
            proof {
                assert(candidates@.take(i + 1) =~= candidates@.take(i as int).push(to));
                candidates@.take(i as int).lemma_filter_push(to, test);
            }
            if !self.leaves_king_in_check(from, to, color) {
                kept.push(to);
            }
            i += 1;
        }
        assert(candidates@.take(candidates.len() as int) =~= candidates@);
        kept
    }
}

} // verus!
