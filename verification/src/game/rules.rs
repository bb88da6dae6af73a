//! The rules of movement and of check, stated as predicates over the grid.
//!
//! Nothing here is executable: these are the definitions that the contracts
//! of the move generator, of the check detector and of the game speak of.

use crate::board::{on_board, Grid, Square};
use crate::game::{GameResult, Position};
use crate::gates::GateType;
use crate::pieces::{Color, Piece, PieceType};
use vstd::prelude::*;

verus! {

/// The piece that stands on `p`.
pub open spec fn piece_at(g: Grid, p: Position) -> Option<Piece> {
    g[p.row as int][p.col as int].piece
}

/// What gate lies over `p`.
pub open spec fn gate_at(g: Grid, p: Position) -> Option<GateType> {
    g[p.row as int][p.col as int].gate
}

/// A piece of `color` stands on `p`.
pub open spec fn holds(g: Grid, p: Position, color: Color) -> bool {
    match piece_at(g, p) {
        Some(piece) => piece.color == color,
        None => false,
    }
}

/// `to` lies `dr` rows and `dc` columns from `from`, on the board.
pub open spec fn is_shift(from: Position, dr: int, dc: int, to: Position) -> bool {
    to.valid() && to.row == from.row + dr && to.col == from.col + dc
}

/// The position `dr` rows and `dc` columns from `from`, if that lies on the
/// board.
pub open spec fn shifted(from: Position, dr: int, dc: int) -> Option<Position> {
    if on_board(from.row + dr, from.col + dc) {
        Some(Position { row: (from.row + dr) as usize, col: (from.col + dc) as usize })
    } else {
        None
    }
}

/// A piece of `color` may end its move on `to`: the square is on the board
/// and holds no piece of the same colour. An opposing piece there is captured.
pub open spec fn can_land(g: Grid, to: Position, color: Color) -> bool {
    to.valid() && !holds(g, to, color)
}

/// `to` is one of the eight squares next to `from`.
pub open spec fn king_step(from: Position, to: Position) -> bool {
    let dr = to.row - from.row;
    let dc = to.col - from.col;
    -1 <= dr <= 1 && -1 <= dc <= 1 && (dr != 0 || dc != 0)
}

/// `to` is a knight's leap from `from`: two squares along one axis and one
/// along the other.
pub open spec fn knight_step(from: Position, to: Position) -> bool {
    let dr = to.row - from.row;
    let dc = to.col - from.col;
    ((dr == 1 || dr == -1) && (dc == 2 || dc == -2)) || ((dr == 2 || dr == -2) && (dc == 1 || dc
        == -1))
}

/// A king of `color` on `from` may step to `to`.
pub open spec fn king_move(g: Grid, from: Position, color: Color, to: Position) -> bool {
    king_step(from, to) && can_land(g, to, color)
}

/// A knight of `color` on `from` may leap to `to`.
pub open spec fn knight_move(g: Grid, from: Position, color: Color, to: Position) -> bool {
    knight_step(from, to) && can_land(g, to, color)
}

/// The `k`-th square of the ray that leaves `from` in direction `(dr, dc)`.
pub open spec fn ray_square(from: Position, dr: int, dc: int, k: int) -> Position {
    Position { row: (from.row + k * dr) as usize, col: (from.col + k * dc) as usize }
}

/// The `k`-th square of the ray lies on the board.
pub open spec fn ray_on_board(from: Position, dr: int, dc: int, k: int) -> bool {
    on_board(from.row + k * dr, from.col + k * dc)
}

/// The `k`-th square of the ray lies on the board and holds no piece.
pub open spec fn ray_free(g: Grid, from: Position, dr: int, dc: int, k: int) -> bool {
    ray_on_board(from, dr, dc, k) && piece_at(g, ray_square(from, dr, dc, k)) is None
}

/// The first `n` squares of the ray lie on the board and hold no piece.
pub open spec fn ray_clear(g: Grid, from: Position, dr: int, dc: int, n: int) -> bool {
    forall|k: int| 1 <= k <= n ==> #[trigger] ray_free(g, from, dr, dc, k)
}

/// A sliding piece of `color` on `from` reaches the `k`-th square of the ray:
/// every square before it is free, and the square itself is on the board and
/// holds no piece of the same colour. So what a slider reaches along a ray is
/// a run of empty squares, followed by at most one capture.
pub open spec fn ray_reaches(
    g: Grid,
    from: Position,
    dr: int,
    dc: int,
    color: Color,
    k: int,
) -> bool {
    &&& 1 <= k
    &&& ray_clear(g, from, dr, dc, k - 1)
    &&& ray_on_board(from, dr, dc, k)
    &&& !holds(g, ray_square(from, dr, dc, k), color)
}

/// A sliding piece of `color` on `from` reaches `to` along direction
/// `(dr, dc)`.
pub open spec fn slide_move(
    g: Grid,
    from: Position,
    dr: int,
    dc: int,
    color: Color,
    to: Position,
) -> bool {
    exists|k: int|
        #[trigger] ray_reaches(g, from, dr, dc, color, k) && to == ray_square(from, dr, dc, k)
}

/// A rook of `color` on `from` may move to `to`: along a row or a column.
pub open spec fn rook_move(g: Grid, from: Position, color: Color, to: Position) -> bool {
    ||| slide_move(g, from, -1, 0, color, to)
    ||| slide_move(g, from, 1, 0, color, to)
    ||| slide_move(g, from, 0, -1, color, to)
    ||| slide_move(g, from, 0, 1, color, to)
}

/// A bishop of `color` on `from` may move to `to`: along a diagonal.
pub open spec fn bishop_move(g: Grid, from: Position, color: Color, to: Position) -> bool {
    ||| slide_move(g, from, -1, -1, color, to)
    ||| slide_move(g, from, -1, 1, color, to)
    ||| slide_move(g, from, 1, -1, color, to)
    ||| slide_move(g, from, 1, 1, color, to)
}

/// A queen of `color` on `from` may move to `to`: as a rook or as a bishop.
pub open spec fn queen_move(g: Grid, from: Position, color: Color, to: Position) -> bool {
    rook_move(g, from, color, to) || bishop_move(g, from, color, to)
}

/// The row direction in which pawns of `color` advance: White towards higher
/// rows, Black towards lower ones.
pub open spec fn forward(color: Color) -> int {
    match color {
        Color::White => 1,
        Color::Black => -1,
    }
}

/// The row on which pawns of `color` start.
pub open spec fn home_row(color: Color) -> int {
    match color {
        Color::White => 1,
        Color::Black => 6,
    }
}

/// `(r, c)` is a square of the board that holds neither a piece nor a gate.
pub open spec fn open_square(g: Grid, r: int, c: int) -> bool {
    on_board(r, c) && g[r][c].piece is None && g[r][c].gate is None
}

/// A pawn of `color` on `from` may advance one square to `to`: straight
/// ahead, onto a square free of piece and gate.
pub open spec fn pawn_single(g: Grid, from: Position, color: Color, to: Position) -> bool {
    &&& to.col == from.col
    &&& to.row == from.row + forward(color)
    &&& open_square(g, to.row as int, to.col as int)
}

/// A pawn of `color` on `from` may advance two squares to `to`: from its home
/// row only, with both the square it passes and the one it lands on free of
/// piece and gate.
pub open spec fn pawn_double(g: Grid, from: Position, color: Color, to: Position) -> bool {
    &&& from.row == home_row(color)
    &&& to.col == from.col
    &&& to.row == from.row + 2 * forward(color)
    &&& open_square(g, from.row + forward(color), from.col as int)
    &&& open_square(g, to.row as int, to.col as int)
}

/// A pawn of `color` on `from` may advance to `to`.
pub open spec fn pawn_advance(g: Grid, from: Position, color: Color, to: Position) -> bool {
    pawn_single(g, from, color, to) || pawn_double(g, from, color, to)
}

/// A pawn of `color` on `from` may capture on `to`: one square diagonally
/// ahead, where an opposing piece stands. Gates do not matter here.
pub open spec fn pawn_capture(g: Grid, from: Position, color: Color, to: Position) -> bool {
    &&& to.valid()
    &&& to.row == from.row + forward(color)
    &&& (to.col == from.col - 1 || to.col == from.col + 1)
    &&& holds(g, to, color.other())
}

/// A pawn of `color` on `from` may move to `to`.
pub open spec fn pawn_move(g: Grid, from: Position, color: Color, to: Position) -> bool {
    pawn_advance(g, from, color, to) || pawn_capture(g, from, color, to)
}

/// A piece of kind `kind` and colour `color` on `from` may move to `to` by
/// the geometry of its kind and the rules of capture, whether or not that
/// exposes its own king.
pub open spec fn kind_move(
    g: Grid,
    kind: PieceType,
    from: Position,
    color: Color,
    to: Position,
) -> bool {
    match kind {
        PieceType::Pawn => pawn_move(g, from, color, to),
        PieceType::Rook => rook_move(g, from, color, to),
        PieceType::Knight => knight_move(g, from, color, to),
        PieceType::Bishop => bishop_move(g, from, color, to),
        PieceType::Queen => queen_move(g, from, color, to),
        PieceType::King => king_move(g, from, color, to),
    }
}

/// Pseudo-legal move: a piece of `color` stands on `from`, and may move to
/// `to` by the rules of its kind.
pub open spec fn pseudo_legal(g: Grid, from: Position, color: Color, to: Position) -> bool {
    &&& from.valid()
    &&& match piece_at(g, from) {
        Some(piece) => piece.color == color && kind_move(g, piece.kind, from, color, to),
        None => false,
    }
}

/// The king of `color` stands on `p`.
pub open spec fn is_king(g: Grid, p: Position, color: Color) -> bool {
    &&& p.valid()
    &&& match piece_at(g, p) {
        Some(piece) => piece.kind == PieceType::King && piece.color == color,
        None => false,
    }
}

/// The place of `p` when the squares are counted row by row.
pub open spec fn row_major(p: Position) -> int {
    p.row * 8 + p.col
}

/// `p` is where the king of `color` is taken to stand: the first square, row
/// by row, that holds one.
pub open spec fn king_position(g: Grid, color: Color, p: Position) -> bool {
    &&& is_king(g, p, color)
    &&& forall|q: Position| #[trigger] is_king(g, q, color) ==> row_major(p) <= row_major(q)
}

/// The king of `color` is attacked: some opposing piece has a pseudo-legal
/// move onto the king's square. A side without a king is never in check.
pub open spec fn in_check(g: Grid, color: Color) -> bool {
    exists|king: Position, attacker: Position|
        king_position(g, color, king) && #[trigger] pseudo_legal(
            g,
            attacker,
            color.other(),
            king,
        )
}

/// The grid with the piece on `p` replaced by `piece`; gate and animation
/// stay.
pub open spec fn with_piece(g: Grid, p: Position, piece: Option<Piece>) -> Grid {
    g.update(
        p.row as int,
        g[p.row as int].update(
            p.col as int,
            Square {
                piece,
                gate: g[p.row as int][p.col as int].gate,
                animation_frame: g[p.row as int][p.col as int].animation_frame,
                animation_direction: g[p.row as int][p.col as int].animation_direction,
            },
        ),
    )
}

/// The grid after the piece on `from` has gone to `to`: `from` is left
/// without a piece, and whatever stood on `to` is gone. Gates stay where they
/// are.
pub open spec fn after_move(g: Grid, from: Position, to: Position) -> Grid {
    with_piece(with_piece(g, from, None), to, piece_at(g, from))
}

/// Moving from `from` to `to` leaves the king of `color` attacked.
pub open spec fn leaves_in_check(g: Grid, from: Position, to: Position, color: Color) -> bool {
    in_check(after_move(g, from, to), color)
}

/// Legal move: pseudo-legal, and the mover's own king is not attacked after
/// it.
pub open spec fn legal(g: Grid, from: Position, color: Color, to: Position) -> bool {
    pseudo_legal(g, from, color, to) && !leaves_in_check(g, from, to, color)
}

/// `color` has at least one legal move.
pub open spec fn has_legal_move(g: Grid, color: Color) -> bool {
    exists|from: Position, to: Position| #[trigger] legal(g, from, color, to)
}

/// `color` is checkmated: its king is attacked and it has no legal move.
pub open spec fn checkmated(g: Grid, color: Color) -> bool {
    in_check(g, color) && !has_legal_move(g, color)
}

/// `color` is stalemated: its king is not attacked, yet it has no legal move.
pub open spec fn stalemated(g: Grid, color: Color) -> bool {
    !in_check(g, color) && !has_legal_move(g, color)
}

/// The result of a game in which `to_move` is to move on `g` and the result
/// so far is `so_far`: lost by `to_move` if it is checkmated, drawn if it is
/// stalemated, else as before.
pub open spec fn result_for(g: Grid, to_move: Color, so_far: GameResult) -> GameResult {
    if checkmated(g, to_move) {
        GameResult::Checkmate(to_move.other())
    } else if stalemated(g, to_move) {
        GameResult::Stalemate
    } else {
        so_far
    }
}

/// A pseudo-legal move ends on the board, on another square than it starts
/// from.
pub proof fn lemma_pseudo_legal_target(g: Grid, from: Position, color: Color, to: Position)
    requires
        pseudo_legal(g, from, color, to),
    ensures
        to.valid(),
        to != from,
{
    let kind = piece_at(g, from)->Some_0.kind;
    if kind == PieceType::Rook || kind == PieceType::Queen {
        if rook_move(g, from, color, to) {
            lemma_slide_target(g, from, -1, 0, color, to);
            lemma_slide_target(g, from, 1, 0, color, to);
            lemma_slide_target(g, from, 0, -1, color, to);
            lemma_slide_target(g, from, 0, 1, color, to);
        }
    }
    if kind == PieceType::Bishop || kind == PieceType::Queen {
        if bishop_move(g, from, color, to) {
            lemma_slide_target(g, from, -1, -1, color, to);
            lemma_slide_target(g, from, -1, 1, color, to);
            lemma_slide_target(g, from, 1, -1, color, to);
            lemma_slide_target(g, from, 1, 1, color, to);
        }
    }
}

/// A slide ends on the board, on another square than it starts from.
pub proof fn lemma_slide_target(
    g: Grid,
    from: Position,
    dr: int,
    dc: int,
    color: Color,
    to: Position,
)
    requires
        from.valid(),
        dr != 0 || dc != 0,
    ensures
        slide_move(g, from, dr, dc, color, to) ==> to.valid() && to != from,
{
    if slide_move(g, from, dr, dc, color, to) {
        let k = choose|k: int| #[trigger]
            ray_reaches(g, from, dr, dc, color, k) && to == ray_square(from, dr, dc, k);
        if dr != 0 {
            assert(k * dr != 0) by (nonlinear_arith)
                requires
                    k >= 1,
                    dr != 0,
            ;
        } else {
            assert(k * dc != 0) by (nonlinear_arith)
                requires
                    k >= 1,
                    dc != 0,
            ;
        }
    }
}

} // verus!
