//! Pseudo-legal destinations, kind by kind.

use crate::config::{BLACK_PAWN_ROW, WHITE_PAWN_ROW};
use crate::game::listing::{
    bishop_list, king_list, knight_list, leap_list, lemma_bishop_list, lemma_king_list,
    lemma_knight_list, lemma_pawn_lists, lemma_queen_list, lemma_rook_list, pawn_advance_list,
    pawn_capture_list, pawn_capture_towards, queen_list, rook_list,
};
use crate::game::moves::lists::extend_moves;
use crate::game::rules::{
    bishop_move, king_move, knight_move, pawn_advance, pawn_capture, queen_move, rook_move,
};
use crate::game::{Game, Position};
use crate::pieces::Color;
use vstd::prelude::*;

verus! {

impl Game {
    /// Adds to `moves` the square `(dr, dc)` away from `pos`, where it lies on
    /// the board and a piece of `color` may land on it.
    fn add_leap(&self, moves: &mut Vec<Position>, pos: Position, dr: i32, dc: i32, color: Color)
        requires
            pos.valid(),
        ensures
            final(moves)@ == old(moves)@ + leap_list(
                self.grid(),
                pos,
                dr as int,
                dc as int,
                color,
            ),
    {
        if let Some(new_pos) = self.apply_offset(pos, dr, dc) {
            if self.can_move_to(new_pos, color) {
                moves.push(new_pos);
            }
        }
        reveal(leap_list);
        assert(moves@ =~= old(moves)@ + leap_list(
            self.grid(),
            pos,
            dr as int,
            dc as int,
            color,
        ));
    }

    /// Adds to `attacks` the square one row ahead of `pos` and `dc` columns
    /// aside, where it lies on the board and holds a piece of the other
    /// colour.
    fn add_capture(&self, attacks: &mut Vec<Position>, pos: Position, dc: i32, color: Color)
        requires
            pos.valid(),
        ensures
            final(attacks)@ == old(attacks)@ + pawn_capture_towards(
                self.grid(),
                pos,
                dc as int,
                color,
            ),
    {
        let direction: i32 = match color {
            Color::White => 1,
            Color::Black => -1,
        };
        if let Some(attack_pos) = self.apply_offset(pos, direction, dc) {
            if let Some(piece) = self.board[attack_pos.row][attack_pos.col].piece {
                if piece.color != color {
                    attacks.push(attack_pos);
                }
            }
        }
        assert(attacks@ =~= old(attacks)@ + pawn_capture_towards(
            self.grid(),
            pos,
            dc as int,
            color,
        ));
    }

    /// Where a king of `color` on `pos` may step: the squares next to it that
    /// are empty or hold an opposing piece.
    pub(crate) fn king_moves(&self, pos: Position, color: Color) -> (moves: Vec<Position>)
        requires
            pos.valid(),
        ensures
            forall|p: Position|
                #[trigger] moves@.contains(p) <==> king_move(self.grid(), pos, color, p),
            moves@.no_duplicates(),
            moves@ == king_list(self.grid(), pos, color),
    {
        let mut moves: Vec<Position> = Vec::new();
        self.add_leap(&mut moves, pos, -1, -1, color);
        assert(moves@ =~= leap_list(self.grid(), pos, -1, -1, color));
        self.add_leap(&mut moves, pos, -1, 0, color);
        self.add_leap(&mut moves, pos, -1, 1, color);
        self.add_leap(&mut moves, pos, 0, -1, color);
        self.add_leap(&mut moves, pos, 0, 1, color);
        self.add_leap(&mut moves, pos, 1, -1, color);
        self.add_leap(&mut moves, pos, 1, 0, color);
        self.add_leap(&mut moves, pos, 1, 1, color);
        proof {
            lemma_king_list(self.grid(), pos, color);
        }
        moves
    }

    /// Where a queen of `color` on `pos` may move: along rows, columns and
    /// diagonals.
    pub(crate) fn queen_moves(&self, pos: Position, color: Color) -> (moves: Vec<Position>)
        requires
            pos.valid(),
        ensures
            forall|p: Position|
                #[trigger] moves@.contains(p) <==> queen_move(self.grid(), pos, color, p),
            moves@.no_duplicates(),
            moves@ == queen_list(self.grid(), pos, color),
    {
        let mut moves = self.rook_moves(pos, color);
        let diagonal = self.bishop_moves(pos, color);
        extend_moves(&mut moves, diagonal);
        proof {
            lemma_queen_list(self.grid(), pos, color);
        }
        moves
    }

    /// Where a rook of `color` on `pos` may move: along its row and its
    /// column.
    pub(crate) fn rook_moves(&self, pos: Position, color: Color) -> (moves: Vec<Position>)
        requires
            pos.valid(),
        ensures
            forall|p: Position|
                #[trigger] moves@.contains(p) <==> rook_move(self.grid(), pos, color, p),
            moves@.no_duplicates(),
            moves@ == rook_list(self.grid(), pos, color),
    {
        let mut moves = self.slide_in_direction(pos, -1, 0, color);
        let up = self.slide_in_direction(pos, 1, 0, color);
        extend_moves(&mut moves, up);
        let left = self.slide_in_direction(pos, 0, -1, color);
        extend_moves(&mut moves, left);
        let right = self.slide_in_direction(pos, 0, 1, color);
        extend_moves(&mut moves, right);
        proof {
            lemma_rook_list(self.grid(), pos, color);
        }
        moves
    }

    /// Where a bishop of `color` on `pos` may move: along its diagonals.
    pub(crate) fn bishop_moves(&self, pos: Position, color: Color) -> (moves: Vec<Position>)
        requires
            pos.valid(),
        ensures
            forall|p: Position|
                #[trigger] moves@.contains(p) <==> bishop_move(self.grid(), pos, color, p),
            moves@.no_duplicates(),
            moves@ == bishop_list(self.grid(), pos, color),
    {
        let mut moves = self.slide_in_direction(pos, -1, -1, color);
        let second = self.slide_in_direction(pos, -1, 1, color);
        extend_moves(&mut moves, second);
        let third = self.slide_in_direction(pos, 1, -1, color);
        extend_moves(&mut moves, third);
        let fourth = self.slide_in_direction(pos, 1, 1, color);
        extend_moves(&mut moves, fourth);
        proof {
            lemma_bishop_list(self.grid(), pos, color);
        }
        moves
    }

    /// Where a knight of `color` on `pos` may leap.
    pub(crate) fn knight_moves(&self, pos: Position, color: Color) -> (moves: Vec<Position>)
        requires
            pos.valid(),
        ensures
            forall|p: Position|
                #[trigger] moves@.contains(p) <==> knight_move(self.grid(), pos, color, p),
            moves@.no_duplicates(),
            moves@ == knight_list(self.grid(), pos, color),
    {
        let mut moves: Vec<Position> = Vec::new();
        self.add_leap(&mut moves, pos, -2, -1, color);
        assert(moves@ =~= leap_list(self.grid(), pos, -2, -1, color));
        self.add_leap(&mut moves, pos, -2, 1, color);
        self.add_leap(&mut moves, pos, -1, -2, color);
        self.add_leap(&mut moves, pos, -1, 2, color);
        self.add_leap(&mut moves, pos, 1, -2, color);
        self.add_leap(&mut moves, pos, 1, 2, color);
        self.add_leap(&mut moves, pos, 2, -1, color);
        self.add_leap(&mut moves, pos, 2, 1, color);
        proof {
            lemma_knight_list(self.grid(), pos, color);
        }
        moves
    }

    /// Where a pawn of `color` on `pos` may advance without capturing: one
    /// square ahead if that square holds neither piece nor gate, and from its
    /// home row a second square under the same condition.
    pub(crate) fn pawn_moves(&self, pos: Position, color: Color) -> (moves: Vec<Position>)
        requires
            pos.valid(),
        ensures
            forall|p: Position|
                #[trigger] moves@.contains(p) <==> pawn_advance(self.grid(), pos, color, p),
            moves@.no_duplicates(),
            moves@ == pawn_advance_list(self.grid(), pos, color),
    {
        let mut moves: Vec<Position> = Vec::new();

        let direction: i32 = match color {
            Color::White => 1,
            Color::Black => -1,
        };

        if let Some(forward) = self.apply_offset(pos, direction, 0) {
            if self.board[forward.row][forward.col].piece.is_none()
                && self.board[forward.row][forward.col].gate.is_none() {
                moves.push(forward);

                let starting_row: usize = match color {
                    Color::White => WHITE_PAWN_ROW,
                    Color::Black => BLACK_PAWN_ROW,
                };

                if pos.row == starting_row {
                    if let Some(double_forward) = self.apply_offset(forward, direction, 0) {
                        if self.board[double_forward.row][double_forward.col].piece.is_none()
                            && self.board[double_forward.row][double_forward.col].gate.is_none() {
                            moves.push(double_forward);
                        }
                    }
                }
            }
        }
        assert(moves@ =~= pawn_advance_list(self.grid(), pos, color));
        proof {
            lemma_pawn_lists(self.grid(), pos, color);
        }
        moves
    }

    /// Where a pawn of `color` on `pos` may capture: the two squares
    /// diagonally ahead, each only if an opposing piece stands on it.
    pub(crate) fn pawn_attacks(&self, pos: Position, color: Color) -> (attacks: Vec<Position>)
        requires
            pos.valid(),
        ensures
            forall|p: Position|
                #[trigger] attacks@.contains(p) <==> pawn_capture(self.grid(), pos, color, p),
            attacks@.no_duplicates(),
            attacks@ == pawn_capture_list(self.grid(), pos, color),
    {
        let mut attacks: Vec<Position> = Vec::new();
        self.add_capture(&mut attacks, pos, -1, color);
        self.add_capture(&mut attacks, pos, 1, color);
        assert(attacks@ =~= pawn_capture_list(self.grid(), pos, color));
        proof {
            lemma_pawn_lists(self.grid(), pos, color);
        }
        attacks
    }
}

} // verus!
