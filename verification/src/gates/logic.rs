//! What time does to gates: the countdown at each turn switch and the
//! cosmetic animation.

use crate::board::{on_board, Square};
use crate::config::BOARD_SIZE;
use crate::game::Game;
use crate::gates::GateType;
use vstd::prelude::*;

verus! {

/// The state of a square after one turn switch: its gate counts down, the
/// rest stays.
pub open spec fn square_after_turn(s: Square) -> Square {
    Square {
        piece: s.piece,
        gate: match s.gate {
            Some(gate) => gate.after_turn(),
            None => None,
        },
        animation_frame: s.animation_frame,
        animation_direction: s.animation_direction,
    }
}

/// Counts a square's gate down by one turn.
fn tick_gate(square: &mut Square)
    ensures
        *final(square) == square_after_turn(*old(square)),
{
    if let Some(gate) = square.gate {
        match gate {
            GateType::Standard { duration } => {
                if duration > 0 {
                    let new_duration: u8 = duration - 1;
                    if new_duration == 0 {
                        square.gate = None;
                    } else {
                        square.gate = Some(GateType::Standard { duration: new_duration });
                    }
                }
            },
            GateType::Decay { duration } => {
                if duration > 0 {
                    let new_duration: u8 = duration - 1;
                    if new_duration == 0 {
                        square.gate = None;
                    } else {
                        square.gate = Some(GateType::Decay { duration: new_duration });
                    }
                }
            },
        }
    }
}

/// Counts every gate on the board down by one turn and removes those that
/// reach zero. To be called once for each switch of the side to move.
pub fn update_gates(game: &mut Game)
    ensures
        final(game).current_turn == old(game).current_turn,
        final(game).result == old(game).result,
        forall|r: int, c: int|
            on_board(r, c) ==> #[trigger] final(game).grid()[r][c] == square_after_turn(
                old(game).grid()[r][c],
            ),
{
    let mut row: usize = 0;
    while row < BOARD_SIZE
        invariant
            row <= 8,
            game.current_turn == old(game).current_turn,
            game.result == old(game).result,
            forall|r: int, c: int|
                0 <= r < row && 0 <= c < 8 ==> #[trigger] game.grid()[r][c] == square_after_turn(
                    old(game).grid()[r][c],
                ),
            forall|r: int, c: int|
                row <= r < 8 && 0 <= c < 8 ==> #[trigger] game.grid()[r][c] == old(
                    game,
                ).grid()[r][c],
        decreases 8 - row,
    {
        let mut col: usize = 0;
        while col < BOARD_SIZE
            invariant
                row < 8,
                col <= 8,
                game.current_turn == old(game).current_turn,
                game.result == old(game).result,
                forall|r: int, c: int|
                    0 <= r < row && 0 <= c < 8 ==> #[trigger] game.grid()[r][c]
                        == square_after_turn(old(game).grid()[r][c]),
                forall|c: int|
                    0 <= c < col ==> #[trigger] game.grid()[row as int][c] == square_after_turn(
                        old(game).grid()[row as int][c],
                    ),
                forall|c: int|
                    col <= c < 8 ==> #[trigger] game.grid()[row as int][c] == old(
                        game,
                    ).grid()[row as int][c],
                forall|r: int, c: int|
                    row < r < 8 && 0 <= c < 8 ==> #[trigger] game.grid()[r][c] == old(
                        game,
                    ).grid()[r][c],
            decreases 8 - col,
        {
            let ghost before = game.grid();
            tick_gate(&mut game.board[row][col]);
            assert forall|r: int, c: int| on_board(r, c) implies #[trigger]
                game.grid()[r][c] == (if r == row && c == col {
                    square_after_turn(before[r][c])
                } else {
                    before[r][c]
                }) by {}
            col += 1;
        }
        row += 1;
    }
}

/// The frame a gate's animation shows after a step from `frame` in direction
/// `direction`: one further, kept within the eight frames `0..=7`.
pub open spec fn next_frame(frame: int, direction: int) -> int {
    if frame + direction >= 7 {
        7
    } else if frame + direction <= 0 {
        0
    } else {
        frame + direction
    }
}

/// The direction a gate's animation steps in after a step from `frame` in
/// direction `direction`: it turns round at either end.
pub open spec fn next_direction(frame: int, direction: int) -> int {
    if frame + direction >= 7 {
        -1
    } else if frame + direction <= 0 {
        1
    } else {
        direction
    }
}

/// Whatever the animation stood on, after a step it shows one of the eight
/// frames; and once it stands on one of them and steps by one, it goes on
/// doing so, turning round at frames 0 and 7.
pub proof fn lemma_animation_stays_in_range(frame: int, direction: int)
    ensures
        0 <= next_frame(frame, direction) <= 7,
        (0 <= frame <= 7 && (direction == 1 || direction == -1)) ==> {
            &&& next_direction(frame, direction) == 1 || next_direction(frame, direction) == -1
            &&& next_frame(frame, direction) == frame + direction || next_frame(frame, direction)
                == frame
            &&& next_frame(frame, direction) == 7 ==> next_direction(frame, direction) == -1
            &&& next_frame(frame, direction) == 0 ==> next_direction(frame, direction) == 1
        },
{
}

/// The state of a square after one step of the animation. A square without a
/// gate stays as it is. On a gated square, a missing frame counts as 0 and a
/// missing direction as +1.
pub open spec fn square_after_animation(s: Square) -> Square {
    if s.gate is None {
        s
    } else {
        let frame: int = match s.animation_frame {
            Some(f) => f as int,
            None => 0,
        };
        let direction: int = match s.animation_direction {
            Some(d) => d as int,
            None => 1,
        };
        Square {
            piece: s.piece,
            gate: s.gate,
            animation_frame: Some(next_frame(frame, direction) as usize),
            animation_direction: Some(next_direction(frame, direction) as i8),
        }
    }
}

/// Steps the animation of one square.
fn animate_square(square: &mut Square)
    ensures
        *final(square) == square_after_animation(*old(square)),
{
    if square.gate.is_some() {
        let frame: usize = match square.animation_frame {
            Some(f) => f,
            None => 0,
        };
        let direction: i8 = match square.animation_direction {
            Some(d) => d,
            None => 1,
        };
        let stepped: i128 = frame as i128 + direction as i128;
        if stepped >= 7 {
            square.animation_frame = Some(7);
            square.animation_direction = Some(-1);
        } else if stepped <= 0 {
            square.animation_frame = Some(0);
            square.animation_direction = Some(1);
        } else {
            square.animation_frame = Some(stepped as usize);
            square.animation_direction = Some(direction);
        }
    }
}

/// Steps the animation of every gate on the board. Purely cosmetic: pieces,
/// gates, the side to move and the result stay as they are, so it may run at
/// any pace.
pub fn update_gate_animation(game: &mut Game)
    ensures
        final(game).current_turn == old(game).current_turn,
        final(game).result == old(game).result,
        forall|r: int, c: int|
            on_board(r, c) ==> #[trigger] final(game).grid()[r][c] == square_after_animation(
                old(game).grid()[r][c],
            ),
{
    let mut row: usize = 0;
    while row < BOARD_SIZE
        invariant
            row <= 8,
            game.current_turn == old(game).current_turn,
            game.result == old(game).result,
            forall|r: int, c: int|
                0 <= r < row && 0 <= c < 8 ==> #[trigger] game.grid()[r][c]
                    == square_after_animation(old(game).grid()[r][c]),
            forall|r: int, c: int|
                row <= r < 8 && 0 <= c < 8 ==> #[trigger] game.grid()[r][c] == old(
                    game,
                ).grid()[r][c],
        decreases 8 - row,
    {
        let mut col: usize = 0;
        while col < BOARD_SIZE
            invariant
                row < 8,
                col <= 8,
                game.current_turn == old(game).current_turn,
                game.result == old(game).result,
                forall|r: int, c: int|
                    0 <= r < row && 0 <= c < 8 ==> #[trigger] game.grid()[r][c]
                        == square_after_animation(old(game).grid()[r][c]),
                forall|c: int|
                    0 <= c < col ==> #[trigger] game.grid()[row as int][c]
                        == square_after_animation(old(game).grid()[row as int][c]),
                forall|c: int|
                    col <= c < 8 ==> #[trigger] game.grid()[row as int][c] == old(
                        game,
                    ).grid()[row as int][c],
                forall|r: int, c: int|
                    row < r < 8 && 0 <= c < 8 ==> #[trigger] game.grid()[r][c] == old(
                        game,
                    ).grid()[r][c],
            decreases 8 - col,
        {
            let ghost before = game.grid();
            animate_square(&mut game.board[row][col]);
            assert forall|r: int, c: int| on_board(r, c) implies #[trigger]
                game.grid()[r][c] == (if r == row && c == col {
                    square_after_animation(before[r][c])
                } else {
                    before[r][c]
                }) by {}
            col += 1;
        }
        row += 1;
    }
}

} // verus!
