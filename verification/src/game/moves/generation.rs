//! The move generator: pseudo-legal destinations of the piece on a square.

use crate::game::listing::{lemma_pseudo_legal_list, pseudo_legal_list};
use crate::game::moves::lists::extend_moves;
use crate::game::rules::pseudo_legal;
use crate::game::{Game, Position};
use crate::pieces::{Color, PieceType};
use vstd::prelude::*;

verus! {

/// The pseudo-legal destinations of the piece of `color` on `pos`, each once:
/// where it may go by the geometry of its kind and the rules of capture,
/// without regard to check. Empty where `pos` is off the board or holds no
/// piece of `color`. The board is only read.
///
/// The destinations come in a fixed order, that of [`pseudo_legal_list`]:
/// direction by direction, and along each direction nearest first.
pub fn get_piece_moves(game: &Game, pos: Position, color: Color) -> (moves: Vec<Position>)
    ensures
        forall|p: Position|
            #[trigger] moves@.contains(p) <==> pseudo_legal(game.grid(), pos, color, p),
        moves@.no_duplicates(),
        moves@ == pseudo_legal_list(game.grid(), pos, color),
{
    proof {
        lemma_pseudo_legal_list(game.grid(), pos, color);
    }
    if !pos.is_valid() {
        return Vec::new();
    }
    if let Some(piece) = game.board[pos.row][pos.col].piece {
        if piece.color != color {
            return Vec::new();
        }
        match piece.kind {
            PieceType::Pawn => {
                let mut moves = game.pawn_moves(pos, color);
                let attacks = game.pawn_attacks(pos, color);
                extend_moves(&mut moves, attacks);
                moves
            },
            PieceType::Rook => game.rook_moves(pos, color),
            PieceType::Knight => game.knight_moves(pos, color),
            PieceType::Bishop => game.bishop_moves(pos, color),
            PieceType::Queen => game.queen_moves(pos, color),
            PieceType::King => game.king_moves(pos, color),
        }
    } else {
        Vec::new()
    }
}

} // verus!
