//! What holds of the rules, whatever the position: facts that follow from the
//! definitions in [`crate::game::rules`] and that callers may rely on.

use crate::board::{grid_of, grid_wf, initial_square, on_board, Board, Grid};
use crate::game::rules::{
    after_move, checkmated, forward, has_legal_move, holds, home_row, in_check, legal,
    leaves_in_check, lemma_pseudo_legal_target, open_square, pawn_move, piece_at, pseudo_legal,
    ray_clear, ray_free, ray_on_board, ray_reaches, ray_square, stalemated,
};
use crate::game::Position;
use crate::pieces::{Color, PieceType};
use vstd::prelude::*;

verus! {

/// A legal move never ends on the square it starts from, nor off the board.
pub proof fn lemma_legal_target(g: Grid, from: Position, color: Color, to: Position)
    requires
        legal(g, from, color, to),
    ensures
        to.valid(),
        to != from,
{
    lemma_pseudo_legal_target(g, from, color, to);
}

/// A legal move never leaves the mover's own king attacked: on the grid as it
/// stands after the move, the mover is not in check.
pub proof fn lemma_legal_keeps_king_safe(g: Grid, from: Position, color: Color, to: Position)
    requires
        legal(g, from, color, to),
    ensures
        !leaves_in_check(g, from, to, color),
        !in_check(after_move(g, from, to), color),
{
}

/// Sliding pieces never jump: where the `k`-th square of a ray is reached,
/// every nearer square of the ray lies on the board, is empty and is reached
/// as well. So what is reached along a ray is one unbroken run from the
/// piece outwards.
pub proof fn lemma_slide_never_jumps(
    g: Grid,
    from: Position,
    dr: int,
    dc: int,
    color: Color,
    k: int,
    j: int,
)
    requires
        ray_reaches(g, from, dr, dc, color, k),
        1 <= j < k,
    ensures
        ray_on_board(from, dr, dc, j),
        piece_at(g, ray_square(from, dr, dc, j)) is None,
        ray_reaches(g, from, dr, dc, color, j),
{
    assert(ray_clear(g, from, dr, dc, k - 1));
    assert(ray_free(g, from, dr, dc, j));
    assert forall|i: int| 1 <= i <= j - 1 implies #[trigger] ray_free(g, from, dr, dc, i) by {}
}

/// A slide ends at the first piece it meets: no square behind an occupied
/// one is reached, and an occupied square that is reached holds an opposing
/// piece, which is captured. So the run of empty squares is followed by at
/// most one capture.
pub proof fn lemma_slide_stops_at_piece(
    g: Grid,
    from: Position,
    dr: int,
    dc: int,
    color: Color,
    k: int,
    m: int,
)
    requires
        1 <= k < m,
        ray_on_board(from, dr, dc, k),
        piece_at(g, ray_square(from, dr, dc, k)) is Some,
    ensures
        !ray_reaches(g, from, dr, dc, color, m),
        ray_reaches(g, from, dr, dc, color, k) ==> holds(
            g,
            ray_square(from, dr, dc, k),
            color.other(),
        ),
{
    if ray_reaches(g, from, dr, dc, color, m) {
        assert(ray_clear(g, from, dr, dc, m - 1));
        assert(ray_free(g, from, dr, dc, k));
    }
}

/// A pawn advances two squares only from its home row, and only where both
/// the square it passes and the square it lands on hold neither a piece nor a
/// gate.
pub proof fn lemma_pawn_double_step(g: Grid, from: Position, color: Color, to: Position)
    requires
        pawn_move(g, from, color, to),
        to.row - from.row == 2 || from.row - to.row == 2,
    ensures
        from.row == home_row(color),
        to.col == from.col,
        to.row == from.row + 2 * forward(color),
        open_square(g, from.row + forward(color), from.col as int),
        open_square(g, to.row as int, to.col as int),
{
}

/// A pawn on the board has a pseudo-legal move two rows away only under the
/// conditions of the double step.
pub proof fn lemma_pawn_two_rows(g: Grid, from: Position, color: Color, to: Position)
    requires
        pseudo_legal(g, from, color, to),
        piece_at(g, from)->Some_0.kind == PieceType::Pawn,
        to.row - from.row == 2 || from.row - to.row == 2,
    ensures
        from.row == home_row(color),
        to.col == from.col,
        open_square(g, from.row + forward(color), from.col as int),
        open_square(g, to.row as int, to.col as int),
{
    lemma_pawn_double_step(g, from, color, to);
}

/// Checkmate and stalemate exclude each other. Either means that the side has
/// no legal move, and a side without a legal move is in exactly one of the
/// two: checkmated if its king is attacked, stalemated if it is not.
pub proof fn lemma_checkmate_and_stalemate(g: Grid, color: Color)
    ensures
        !(checkmated(g, color) && stalemated(g, color)),
        checkmated(g, color) ==> !has_legal_move(g, color),
        stalemated(g, color) ==> !has_legal_move(g, color),
        !has_legal_move(g, color) ==> (checkmated(g, color) <==> in_check(g, color)),
        !has_legal_move(g, color) ==> (stalemated(g, color) <==> !in_check(g, color)),
        has_legal_move(g, color) ==> !checkmated(g, color) && !stalemated(g, color),
{
}

/// No two pieces on the grid share an identity.
pub open spec fn distinct_identities(g: Grid) -> bool {
    forall|p: Position, q: Position|
        p.valid() && q.valid() && p != q && (#[trigger] piece_at(g, p)) is Some
            && (#[trigger] piece_at(g, q)) is Some
            ==> piece_at(g, p)->Some_0.id != piece_at(g, q)->Some_0.id
}

/// The grid that a board stores has eight rows of eight squares.
pub proof fn lemma_board_grid_wf(board: Board)
    ensures
        grid_wf(grid_of(board)),
{
}

/// At the start of a game no two pieces share an identity.
pub proof fn lemma_start_identities(g: Grid)
    requires
        forall|r: int, c: int| on_board(r, c) ==> #[trigger] g[r][c] == initial_square(r, c),
    ensures
        distinct_identities(g),
{
    assert forall|p: Position, q: Position|
        p.valid() && q.valid() && p != q && (#[trigger] piece_at(g, p)) is Some
            && (#[trigger] piece_at(g, q)) is Some
        implies piece_at(g, p)->Some_0.id != piece_at(g, q)->Some_0.id by {
        assert(g[p.row as int][p.col as int] == initial_square(p.row as int, p.col as int));
        assert(g[q.row as int][q.col as int] == initial_square(q.row as int, q.col as int));
    }
}

/// A move carries the piece over as it is, identity included: after it the
/// destination holds the piece that stood on the origin, the origin is empty,
/// every other square holds what it held, and no gate has changed. So pieces
/// that had distinct identities before the move have them after it.
pub proof fn lemma_move_carries_piece(g: Grid, from: Position, to: Position)
    requires
        grid_wf(g),
        from.valid(),
        to.valid(),
    ensures
        grid_wf(after_move(g, from, to)),
        piece_at(after_move(g, from, to), to) == piece_at(g, from),
        from != to ==> piece_at(after_move(g, from, to), from) is None,
        forall|p: Position|
            p.valid() && p != from && p != to ==> #[trigger] piece_at(after_move(g, from, to), p)
                == piece_at(g, p),
        forall|r: int, c: int|
            on_board(r, c) ==> (#[trigger] after_move(g, from, to)[r][c]).gate == g[r][c].gate,
        distinct_identities(g) ==> distinct_identities(after_move(g, from, to)),
{
    let after = after_move(g, from, to);
    assert forall|p: Position| p.valid() && p != from && p != to implies #[trigger]
        piece_at(after, p) == piece_at(g, p) by {}
    if distinct_identities(g) {
        assert forall|p: Position, q: Position|
            p.valid() && q.valid() && p != q && (#[trigger] piece_at(after, p)) is Some
                && (#[trigger] piece_at(after, q)) is Some
            implies piece_at(after, p)->Some_0.id != piece_at(after, q)->Some_0.id by {
            let origin_of_p = if p == to {
                from
            } else {
                p
            };
            let origin_of_q = if q == to {
                from
            } else {
                q
            };
            assert(piece_at(after, p) == piece_at(g, origin_of_p));
            assert(piece_at(after, q) == piece_at(g, origin_of_q));
            assert(origin_of_p != origin_of_q);
        }
    }
}

} // verus!
