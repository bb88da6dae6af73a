//! One sitting at the board: the game, and what has to happen around each
//! move.

use crate::board::on_board;
use crate::frontend::move_history::MoveHistory;
use crate::game::rules::{after_move, checkmated, stalemated};
use crate::game::{Game, Position};
use crate::gates::logic::{square_after_animation, square_after_turn};
use crate::gates::{update_gate_animation, update_gates};
use crate::pieces::Color;
use vstd::prelude::*;

verus! {

/// A game as it is played at the screen.
pub struct Session {
    pub game: Game,
    /// The side that was to move when gates were last counted down.
    pub last_turn: Color,
    /// Whether the game has ended.
    pub game_over: bool,
    /// The winner of a game that has ended; `None` for a draw.
    pub winner: Option<Color>,
    /// The moves played.
    pub history: MoveHistory,
}

impl Session {
    /// A sitting that starts with `game` as it stands.
    pub fn new(game: Game) -> (session: Session)
        ensures
            session.game == game,
            session.last_turn == game.current_turn,
            !session.game_over,
            session.winner is None,
            session.history@ == Seq::<(Position, Position)>::empty(),
            session.history.wf(),
    {
        let last_turn = game.current_turn;
        Session { game, last_turn, game_over: false, winner: None, history: MoveHistory::new() }
    }

    /// Gates are due to count down: the game goes on, and the side to move
    /// has changed since they last did.
    pub open spec fn gates_due(&self) -> bool {
        !self.game_over && self.game.current_turn != self.last_turn
    }

    /// Counts the gates down once if the side to move has changed since they
    /// last were, so that every turn switch counts exactly once however
    /// often this is called. Once the game is over nothing counts down.
    pub fn sync_gates(&mut self) -> (counted: bool)
        ensures
            counted == old(self).gates_due(),
            final(self).game.current_turn == old(self).game.current_turn,
            final(self).game.result == old(self).game.result,
            final(self).game_over == old(self).game_over,
            final(self).winner == old(self).winner,
            final(self).history == old(self).history,
            final(self).last_turn == (if counted {
                old(self).game.current_turn
            } else {
                old(self).last_turn
            }),
            !final(self).gates_due(),
            counted ==> forall|r: int, c: int|
                on_board(r, c) ==> #[trigger] final(self).game.grid()[r][c] == square_after_turn(
                    old(self).game.grid()[r][c],
                ),
            !counted ==> final(self).game.board == old(self).game.board,
    {
        if !self.game_over && self.game.current_turn != self.last_turn {
            update_gates(&mut self.game);
            self.last_turn = self.game.current_turn;
            true
        } else {
            false
        }
    }

    /// Steps the animation of the gates, unless the game is over.
    pub fn animate_gates(&mut self) -> (stepped: bool)
        ensures
            stepped == !old(self).game_over,
            final(self).game.current_turn == old(self).game.current_turn,
            final(self).game.result == old(self).game.result,
            final(self).last_turn == old(self).last_turn,
            final(self).game_over == old(self).game_over,
            final(self).winner == old(self).winner,
            final(self).history == old(self).history,
            stepped ==> forall|r: int, c: int|
                on_board(r, c) ==> #[trigger] final(self).game.grid()[r][c]
                    == square_after_animation(old(self).game.grid()[r][c]),
            !stepped ==> final(self).game.board == old(self).game.board,
    {
        if !self.game_over {
            update_gate_animation(&mut self.game);
            true
        } else {
            false
        }
    }

    /// Submits the move from `from` to `to`. A move that the game refuses,
    /// or any move once the sitting is over, changes nothing. A move that
    /// is played is added to the record; the sitting is then over if the side
    /// now to move is checkmated, which the mover wins, or stalemated, which
    /// nobody wins. Unless it ends the sitting, a move that is played makes
    /// the gates due to count down, once.
    pub fn play(&mut self, from: Position, to: Position) -> (played: bool)
        ensures
            old(self).history.wf() ==> final(self).history.wf(),
            played == (!old(self).game_over && old(self).game.refusal(from, to) is None),
            !played ==> *final(self) == *old(self),
            played ==> {
                &&& final(self).game.grid() == after_move(
                    old(self).game.grid(),
                    from,
                    to,
                )
                &&& final(self).game.current_turn == old(self).game.current_turn.other()
                &&& final(self).last_turn == old(self).last_turn
                &&& final(self).history@ == old(self).history@.push((from, to))
                &&& final(self).game_over == (checkmated(
                    final(self).game.grid(),
                    final(self).game.current_turn,
                ) || stalemated(final(self).game.grid(), final(self).game.current_turn))
                &&& final(self).winner == (if checkmated(
                    final(self).game.grid(),
                    final(self).game.current_turn,
                ) {
                    Some(old(self).game.current_turn)
                } else if stalemated(final(self).game.grid(), final(self).game.current_turn) {
                    None
                } else {
                    old(self).winner
                })
                &&& !old(self).gates_due() ==> (final(self).gates_due() || final(self).game_over)
            },
    {
        if self.game_over {
            return false;
        }
        if self.game.make_move(from, to).is_ok() {
            self.history.add_move(from, to);
            let to_move = self.game.current_turn;
            if self.game.is_checkmate(to_move) {
                self.game_over = true;
                self.winner = Some(to_move.opponent());
            } else if self.game.is_stalemate(to_move) {
                self.game_over = true;
                self.winner = None;
            }
            true
        } else {
            false
        }
    }
}

} // verus!
