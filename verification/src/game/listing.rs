//! The order in which moves are listed, and why the lists hold exactly the
//! moves that the rules allow, each once.

use crate::board::Grid;
use crate::game::moves::lists::{lemma_join, lemma_push};
use crate::game::rules::{
    bishop_move, can_land, forward, has_legal_move, holds, is_shift, king_move, knight_move,
    leaves_in_check, legal, pawn_advance, pawn_capture, pawn_double, pawn_single, piece_at,
    pseudo_legal, queen_move, ray_clear, ray_free, ray_on_board, ray_reaches, ray_square,
    rook_move, shifted, slide_move,
};
use crate::game::Position;
use crate::pieces::{Color, PieceType};
use vstd::prelude::*;

verus! {

/// A sliding piece of `color` on `from` reaches exactly the first `n` squares
/// of the ray in direction `(dr, dc)`.
pub open spec fn reaches_first(
    g: Grid,
    from: Position,
    dr: int,
    dc: int,
    color: Color,
    n: nat,
) -> bool {
    forall|k: int| 1 <= k ==> (#[trigger] ray_reaches(g, from, dr, dc, color, k) <==> k <= n)
}

/// The number of squares that a sliding piece of `color` on `from` reaches
/// along the ray in direction `(dr, dc)`.
pub open spec fn ray_length(g: Grid, from: Position, dr: int, dc: int, color: Color) -> nat {
    choose|n: nat| reaches_first(g, from, dr, dc, color, n)
}

/// The squares that a sliding piece of `color` on `from` reaches along the
/// ray in direction `(dr, dc)`, nearest first.
#[verifier::opaque]
pub open spec fn slide_list(g: Grid, from: Position, dr: int, dc: int, color: Color) -> Seq<
    Position,
> {
    Seq::new(ray_length(g, from, dr, dc, color), |i: int| ray_square(from, dr, dc, i + 1))
}

/// The square `(dr, dc)` away from `from`, as a list: that square alone where
/// it is on the board and a piece of `color` may land there, else nothing.
#[verifier::opaque]
pub open spec fn leap_list(g: Grid, from: Position, dr: int, dc: int, color: Color) -> Seq<
    Position,
> {
    match shifted(from, dr, dc) {
        Some(to) => if can_land(g, to, color) {
            seq![to]
        } else {
            Seq::empty()
        },
        None => Seq::empty(),
    }
}

/// The moves of a king in the order in which they are listed: row below,
/// own row, row above, each from the lower column to the higher.
pub open spec fn king_list(g: Grid, from: Position, color: Color) -> Seq<Position> {
    leap_list(g, from, -1, -1, color) + leap_list(g, from, -1, 0, color) + leap_list(
        g,
        from,
        -1,
        1,
        color,
    ) + leap_list(g, from, 0, -1, color) + leap_list(g, from, 0, 1, color) + leap_list(
        g,
        from,
        1,
        -1,
        color,
    ) + leap_list(g, from, 1, 0, color) + leap_list(g, from, 1, 1, color)
}

/// The moves of a knight in the order in which they are listed: from two
/// rows below to two rows above, each from the lower column to the higher.
pub open spec fn knight_list(g: Grid, from: Position, color: Color) -> Seq<Position> {
    leap_list(g, from, -2, -1, color) + leap_list(g, from, -2, 1, color) + leap_list(
        g,
        from,
        -1,
        -2,
        color,
    ) + leap_list(g, from, -1, 2, color) + leap_list(g, from, 1, -2, color) + leap_list(
        g,
        from,
        1,
        2,
        color,
    ) + leap_list(g, from, 2, -1, color) + leap_list(g, from, 2, 1, color)
}

/// The moves of a rook in the order in which they are listed: towards row 0,
/// towards row 7, towards column 0, towards column 7, each nearest first.
pub open spec fn rook_list(g: Grid, from: Position, color: Color) -> Seq<Position> {
    slide_list(g, from, -1, 0, color) + slide_list(g, from, 1, 0, color) + slide_list(
        g,
        from,
        0,
        -1,
        color,
    ) + slide_list(g, from, 0, 1, color)
}

/// The moves of a bishop in the order in which they are listed, diagonal by
/// diagonal, each nearest first.
pub open spec fn bishop_list(g: Grid, from: Position, color: Color) -> Seq<Position> {
    slide_list(g, from, -1, -1, color) + slide_list(g, from, -1, 1, color) + slide_list(
        g,
        from,
        1,
        -1,
        color,
    ) + slide_list(g, from, 1, 1, color)
}

/// The moves of a queen in the order in which they are listed: those of a
/// rook, then those of a bishop.
pub open spec fn queen_list(g: Grid, from: Position, color: Color) -> Seq<Position> {
    rook_list(g, from, color) + bishop_list(g, from, color)
}

/// The advances of a pawn in the order in which they are listed: the single
/// step, then the double step.
pub open spec fn pawn_advance_list(g: Grid, from: Position, color: Color) -> Seq<Position> {
    let one = Position { row: (from.row + forward(color)) as usize, col: from.col };
    let two = Position { row: (from.row + 2 * forward(color)) as usize, col: from.col };
    if pawn_single(g, from, color, one) {
        if pawn_double(g, from, color, two) {
            seq![one, two]
        } else {
            seq![one]
        }
    } else {
        Seq::empty()
    }
}

/// The capture of a pawn towards column offset `dc`, as a list.
pub open spec fn pawn_capture_towards(g: Grid, from: Position, dc: int, color: Color) -> Seq<
    Position,
> {
    match shifted(from, forward(color), dc) {
        Some(to) => if holds(g, to, color.other()) {
            seq![to]
        } else {
            Seq::empty()
        },
        None => Seq::empty(),
    }
}

/// The captures of a pawn in the order in which they are listed: towards
/// the lower column, then towards the higher.
pub open spec fn pawn_capture_list(g: Grid, from: Position, color: Color) -> Seq<Position> {
    pawn_capture_towards(g, from, -1, color) + pawn_capture_towards(g, from, 1, color)
}

/// The moves of a piece of kind `kind` in the order in which they are
/// listed; for a pawn, advances before captures.
pub open spec fn kind_list(g: Grid, kind: PieceType, from: Position, color: Color) -> Seq<
    Position,
> {
    match kind {
        PieceType::Pawn => pawn_advance_list(g, from, color) + pawn_capture_list(g, from, color),
        PieceType::Rook => rook_list(g, from, color),
        PieceType::Knight => knight_list(g, from, color),
        PieceType::Bishop => bishop_list(g, from, color),
        PieceType::Queen => queen_list(g, from, color),
        PieceType::King => king_list(g, from, color),
    }
}

/// The pseudo-legal moves of the piece of `color` on `from`, in the order in
/// which they are listed; empty where no such piece stands there.
pub open spec fn pseudo_legal_list(g: Grid, from: Position, color: Color) -> Seq<Position> {
    if from.valid() {
        match piece_at(g, from) {
            Some(piece) => if piece.color == color {
                kind_list(g, piece.kind, from, color)
            } else {
                Seq::empty()
            },
            None => Seq::empty(),
        }
    } else {
        Seq::empty()
    }
}

/// The test that the legality filter applies to a destination: the move
/// from `from` to it does not leave the king of `color` attacked.
pub open spec fn keeps_king_safe(g: Grid, from: Position, color: Color) -> spec_fn(
    Position,
) -> bool {
    |to: Position| !leaves_in_check(g, from, to, color)
}

/// The legal moves of the piece of `color` on `from`, in the order in which
/// they are listed: its pseudo-legal moves, less those that leave its king
/// attacked.
pub open spec fn legal_list(g: Grid, from: Position, color: Color) -> Seq<Position> {
    pseudo_legal_list(g, from, color).filter(keeps_king_safe(g, from, color))
}

/// The `n`-th square of the board, counted row by row.
pub open spec fn nth_square(n: int) -> Position {
    Position { row: (n / 8) as usize, col: (n % 8) as usize }
}

/// The destinations of the legal moves of the pieces of `color` on the first
/// `n` squares, counted row by row: square after square, each piece's moves
/// in their order.
pub open spec fn all_legal_list(g: Grid, color: Color, n: nat) -> Seq<Position>
    decreases n,
{
    if n == 0 {
        Seq::empty()
    } else {
        all_legal_list(g, color, (n - 1) as nat) + legal_list(g, nth_square(n - 1), color)
    }
}

/// The square after the `n`-th of a ray is the `n`-th shifted by the
/// direction.
pub(crate) proof fn lemma_ray_next(from: Position, dr: int, dc: int, n: int)
    ensures
        from.row + (n + 1) * dr == from.row + n * dr + dr,
        from.col + (n + 1) * dc == from.col + n * dc + dc,
        from.row + 0 * dr == from.row,
        from.col + 0 * dc == from.col,
{
    assert((n + 1) * dr == n * dr + dr) by (nonlinear_arith);
    assert((n + 1) * dc == n * dc + dc) by (nonlinear_arith);
}

/// A ray that starts on the board leaves it after seven squares at most.
pub(crate) proof fn lemma_ray_bound(from: Position, dr: int, dc: int, k: int)
    requires
        from.valid(),
        dr != 0 || dc != 0,
        0 <= k,
        ray_on_board(from, dr, dc, k),
    ensures
        k <= 7,
{
    if dr != 0 {
        assert(k <= 7) by (nonlinear_arith)
            requires
                0 <= k,
                dr != 0,
                -7 <= k * dr <= 7,
        ;
    } else {
        assert(k <= 7) by (nonlinear_arith)
            requires
                0 <= k,
                dc != 0,
                -7 <= k * dc <= 7,
        ;
    }
}

/// Two squares of one ray differ.
pub(crate) proof fn lemma_ray_distinct(from: Position, dr: int, dc: int, j: int, k: int)
    requires
        dr != 0 || dc != 0,
        j != k,
        ray_on_board(from, dr, dc, j),
        ray_on_board(from, dr, dc, k),
    ensures
        ray_square(from, dr, dc, j) != ray_square(from, dr, dc, k),
{
    if dr != 0 {
        assert(j * dr != k * dr) by (nonlinear_arith)
            requires
                dr != 0,
                j != k,
        ;
    } else {
        assert(j * dc != k * dc) by (nonlinear_arith)
            requires
                dc != 0,
                j != k,
        ;
    }
}

/// Within a clear stretch of a ray every square is reached.
pub(crate) proof fn lemma_ray_open(
    g: Grid,
    from: Position,
    dr: int,
    dc: int,
    color: Color,
    n: int,
    k: int,
)
    requires
        ray_clear(g, from, dr, dc, n),
        1 <= k <= n,
    ensures
        ray_reaches(g, from, dr, dc, color, k),
{
    assert(ray_free(g, from, dr, dc, k));
}

/// Behind a square that is not free no square is reached.
pub(crate) proof fn lemma_ray_blocked(
    g: Grid,
    from: Position,
    dr: int,
    dc: int,
    color: Color,
    n: int,
    k: int,
)
    requires
        0 <= n,
        !ray_free(g, from, dr, dc, n + 1),
        k > n + 1,
    ensures
        !ray_reaches(g, from, dr, dc, color, k),
{
    if ray_reaches(g, from, dr, dc, color, k) {
        assert(ray_clear(g, from, dr, dc, k - 1));
        assert(ray_free(g, from, dr, dc, n + 1));
    }
}

/// A list of exactly the squares of a ray that are reached holds each of
/// them once, and nothing else.
pub(crate) proof fn lemma_ray_listing(
    g: Grid,
    from: Position,
    dr: int,
    dc: int,
    color: Color,
    moves: Seq<Position>,
)
    requires
        dr != 0 || dc != 0,
        forall|i: int| 0 <= i < moves.len() ==> moves[i] == ray_square(from, dr, dc, i + 1),
        forall|k: int|
            1 <= k ==> (#[trigger] ray_reaches(g, from, dr, dc, color, k) <==> k <= moves.len()),
    ensures
        forall|p: Position| #[trigger] moves.contains(p) <==> slide_move(g, from, dr, dc, color, p),
        moves.no_duplicates(),
        moves == slide_list(g, from, dr, dc, color),
{
    reveal(slide_list);
    assert(reaches_first(g, from, dr, dc, color, moves.len()));
    let n = ray_length(g, from, dr, dc, color);
    assert(reaches_first(g, from, dr, dc, color, n));
    if n < moves.len() {
        assert(ray_reaches(g, from, dr, dc, color, moves.len() as int));
    } else if n > moves.len() {
        assert(ray_reaches(g, from, dr, dc, color, n as int));
    }
    assert(moves =~= slide_list(g, from, dr, dc, color));
    assert forall|p: Position| moves.contains(p) implies slide_move(g, from, dr, dc, color, p) by {
        let i = choose|i: int| 0 <= i < moves.len() && moves[i] == p;
        assert(ray_reaches(g, from, dr, dc, color, i + 1));
    }
    assert forall|p: Position| slide_move(g, from, dr, dc, color, p) implies moves.contains(p) by {
        let k = choose|k: int| #[trigger]
            ray_reaches(g, from, dr, dc, color, k) && p == ray_square(from, dr, dc, k);
        assert(moves[k - 1] == p);
    }
    assert forall|i: int, j: int|
        0 <= i < moves.len() && 0 <= j < moves.len() && i != j implies moves[i] != moves[j] by {
        assert(ray_reaches(g, from, dr, dc, color, i + 1));
        assert(ray_reaches(g, from, dr, dc, color, j + 1));
        lemma_ray_distinct(from, dr, dc, i + 1, j + 1);
    }
}

/// Along every ray some number of squares is reached: none behind the first
/// square that is off the board or occupied.
pub(crate) proof fn lemma_ray_length(g: Grid, from: Position, dr: int, dc: int, color: Color)
    requires
        from.valid(),
        dr != 0 || dc != 0,
    ensures
        reaches_first(g, from, dr, dc, color, ray_length(g, from, dr, dc, color)),
        ray_length(g, from, dr, dc, color) <= 7,
{
    lemma_ray_next(from, dr, dc, 0);
    let n = lemma_ray_scan(g, from, dr, dc, color, 0);
    assert(reaches_first(g, from, dr, dc, color, n));
    let m = ray_length(g, from, dr, dc, color);
    if m >= 1 {
        assert(ray_reaches(g, from, dr, dc, color, m as int));
        lemma_ray_bound(from, dr, dc, m as int);
    }
}

/// Walks the ray from its `n`-th square on and finds how many squares are
/// reached.
proof fn lemma_ray_scan(g: Grid, from: Position, dr: int, dc: int, color: Color, n: nat) -> (count:
    nat)
    requires
        from.valid(),
        dr != 0 || dc != 0,
        n <= 7,
        ray_on_board(from, dr, dc, n as int),
        ray_clear(g, from, dr, dc, n as int),
    ensures
        reaches_first(g, from, dr, dc, color, count),
    decreases 8 - n,
{
    let next: int = n as int + 1;
    if ray_free(g, from, dr, dc, next) {
        lemma_ray_bound(from, dr, dc, next);
        assert forall|k: int| 1 <= k <= next implies #[trigger] ray_free(g, from, dr, dc, k) by {}
        lemma_ray_scan(g, from, dr, dc, color, (n + 1) as nat)
    } else {
        let count: nat = if ray_reaches(g, from, dr, dc, color, next) {
            (n + 1) as nat
        } else {
            n
        };
        assert forall|k: int| 1 <= k implies (#[trigger] ray_reaches(g, from, dr, dc, color, k)
            <==> k <= count) by {
            if k <= n {
                lemma_ray_open(g, from, dr, dc, color, n as int, k);
            } else if k > next {
                lemma_ray_blocked(g, from, dr, dc, color, n as int, k);
            }
        }
        count
    }
}

/// The list of a slide holds exactly the squares that the slide reaches,
/// each once.
pub proof fn lemma_slide_list(g: Grid, from: Position, dr: int, dc: int, color: Color)
    requires
        from.valid(),
        dr != 0 || dc != 0,
    ensures
        forall|p: Position|
            #[trigger] slide_list(g, from, dr, dc, color).contains(p) <==> slide_move(
                g,
                from,
                dr,
                dc,
                color,
                p,
            ),
        slide_list(g, from, dr, dc, color).no_duplicates(),
{
    reveal(slide_list);
    lemma_ray_length(g, from, dr, dc, color);
    lemma_ray_listing(g, from, dr, dc, color, slide_list(g, from, dr, dc, color));
}

/// The list of a leap holds the square of the leap, if a piece of `color`
/// may land there, and nothing else.
pub(crate) proof fn lemma_leap_list(g: Grid, from: Position, dr: int, dc: int, color: Color)
    ensures
        forall|p: Position|
            #[trigger] leap_list(g, from, dr, dc, color).contains(p) <==> (is_shift(from, dr, dc, p)
                && can_land(g, p, color)),
        leap_list(g, from, dr, dc, color).no_duplicates(),
{
    reveal(leap_list);
    let list = leap_list(g, from, dr, dc, color);
    assert forall|p: Position| #[trigger]
        list.contains(p) <==> (is_shift(from, dr, dc, p) && can_land(g, p, color)) by {
        if is_shift(from, dr, dc, p) && can_land(g, p, color) {
            assert(shifted(from, dr, dc) == Some(p));
            assert(list[0] == p);
        }
    }
}

/// A leap added to a list adds its square, if a piece of `color` may land
/// there; the list still holds nothing twice if no square of it is that of
/// the leap.
proof fn lemma_add_leap(
    list: Seq<Position>,
    g: Grid,
    from: Position,
    dr: int,
    dc: int,
    color: Color,
)
    ensures
        forall|p: Position|
            #[trigger] (list + leap_list(g, from, dr, dc, color)).contains(p) <==> (list.contains(p)
                || (is_shift(from, dr, dc, p) && can_land(g, p, color))),
        (list.no_duplicates() && (forall|p: Position|
            list.contains(p) ==> !is_shift(from, dr, dc, p))) ==> (list + leap_list(
            g,
            from,
            dr,
            dc,
            color,
        )).no_duplicates(),
{
    lemma_leap_list(g, from, dr, dc, color);
    lemma_join(list, leap_list(g, from, dr, dc, color));
}

/// The list of a king's moves holds exactly the moves of a king, each once.
pub proof fn lemma_king_list(g: Grid, from: Position, color: Color)
    requires
        from.valid(),
    ensures
        forall|p: Position|
            #[trigger] king_list(g, from, color).contains(p) <==> king_move(g, from, color, p),
        king_list(g, from, color).no_duplicates(),
{
    let a1 = leap_list(g, from, -1, -1, color);
    lemma_leap_list(g, from, -1, -1, color);
    let a2 = a1 + leap_list(g, from, -1, 0, color);
    lemma_add_leap(a1, g, from, -1, 0, color);
    let a3 = a2 + leap_list(g, from, -1, 1, color);
    lemma_add_leap(a2, g, from, -1, 1, color);
    let a4 = a3 + leap_list(g, from, 0, -1, color);
    lemma_add_leap(a3, g, from, 0, -1, color);
    let a5 = a4 + leap_list(g, from, 0, 1, color);
    lemma_add_leap(a4, g, from, 0, 1, color);
    let a6 = a5 + leap_list(g, from, 1, -1, color);
    lemma_add_leap(a5, g, from, 1, -1, color);
    let a7 = a6 + leap_list(g, from, 1, 0, color);
    lemma_add_leap(a6, g, from, 1, 0, color);
    lemma_add_leap(a7, g, from, 1, 1, color);
}

/// The list of a knight's moves holds exactly the moves of a knight, each
/// once.
pub proof fn lemma_knight_list(g: Grid, from: Position, color: Color)
    requires
        from.valid(),
    ensures
        forall|p: Position|
            #[trigger] knight_list(g, from, color).contains(p) <==> knight_move(g, from, color, p),
        knight_list(g, from, color).no_duplicates(),
{
    let a1 = leap_list(g, from, -2, -1, color);
    lemma_leap_list(g, from, -2, -1, color);
    let a2 = a1 + leap_list(g, from, -2, 1, color);
    lemma_add_leap(a1, g, from, -2, 1, color);
    let a3 = a2 + leap_list(g, from, -1, -2, color);
    lemma_add_leap(a2, g, from, -1, -2, color);
    let a4 = a3 + leap_list(g, from, -1, 2, color);
    lemma_add_leap(a3, g, from, -1, 2, color);
    let a5 = a4 + leap_list(g, from, 1, -2, color);
    lemma_add_leap(a4, g, from, 1, -2, color);
    let a6 = a5 + leap_list(g, from, 1, 2, color);
    lemma_add_leap(a5, g, from, 1, 2, color);
    let a7 = a6 + leap_list(g, from, 2, -1, color);
    lemma_add_leap(a6, g, from, 2, -1, color);
    lemma_add_leap(a7, g, from, 2, 1, color);
}

/// Squares reached along two different rays of the eight that a queen
/// moves along differ.
proof fn lemma_rays_apart(
    g: Grid,
    from: Position,
    dr1: int,
    dc1: int,
    dr2: int,
    dc2: int,
    color: Color,
)
    requires
        -1 <= dr1 <= 1 && -1 <= dc1 <= 1,
        -1 <= dr2 <= 1 && -1 <= dc2 <= 1,
        (dr1, dc1) != (dr2, dc2),
    ensures
        forall|p: Position|
            !(slide_move(g, from, dr1, dc1, color, p) && slide_move(g, from, dr2, dc2, color, p)),
{
    assert forall|p: Position|
        !(slide_move(g, from, dr1, dc1, color, p) && slide_move(g, from, dr2, dc2, color, p)) by {
        if slide_move(g, from, dr1, dc1, color, p) && slide_move(g, from, dr2, dc2, color, p) {
            let k1 = choose|k: int| #[trigger]
                ray_reaches(g, from, dr1, dc1, color, k) && p == ray_square(from, dr1, dc1, k);
            let k2 = choose|k: int| #[trigger]
                ray_reaches(g, from, dr2, dc2, color, k) && p == ray_square(from, dr2, dc2, k);
            assert(k1 * dr1 == k2 * dr2);
            assert(k1 * dc1 == k2 * dc2);
            assert(false) by (nonlinear_arith)
                requires
                    k1 >= 1,
                    k2 >= 1,
                    -1 <= dr1 <= 1 && -1 <= dc1 <= 1,
                    -1 <= dr2 <= 1 && -1 <= dc2 <= 1,
                    dr1 != dr2 || dc1 != dc2,
                    k1 * dr1 == k2 * dr2,
                    k1 * dc1 == k2 * dc2,
            ;
        }
    }
}

/// A slide added to a list adds the squares that it reaches; the list
/// still holds nothing twice if none of its squares is reached by the slide.
proof fn lemma_add_slide(
    list: Seq<Position>,
    g: Grid,
    from: Position,
    dr: int,
    dc: int,
    color: Color,
)
    requires
        from.valid(),
        dr != 0 || dc != 0,
    ensures
        forall|p: Position|
            #[trigger] (list + slide_list(g, from, dr, dc, color)).contains(p) <==> (list.contains(
                p,
            ) || slide_move(g, from, dr, dc, color, p)),
        (list.no_duplicates() && (forall|p: Position|
            list.contains(p) ==> !slide_move(g, from, dr, dc, color, p))) ==> (list + slide_list(
            g,
            from,
            dr,
            dc,
            color,
        )).no_duplicates(),
{
    lemma_slide_list(g, from, dr, dc, color);
    lemma_join(list, slide_list(g, from, dr, dc, color));
}

/// The list of a rook's moves holds exactly the moves of a rook, each once.
pub proof fn lemma_rook_list(g: Grid, from: Position, color: Color)
    requires
        from.valid(),
    ensures
        forall|p: Position|
            #[trigger] rook_list(g, from, color).contains(p) <==> rook_move(g, from, color, p),
        rook_list(g, from, color).no_duplicates(),
{
    let a1 = slide_list(g, from, -1, 0, color);
    lemma_slide_list(g, from, -1, 0, color);
    let a2 = a1 + slide_list(g, from, 1, 0, color);
    lemma_add_slide(a1, g, from, 1, 0, color);
    lemma_rays_apart(g, from, -1, 0, 1, 0, color);
    let a3 = a2 + slide_list(g, from, 0, -1, color);
    lemma_add_slide(a2, g, from, 0, -1, color);
    lemma_rays_apart(g, from, -1, 0, 0, -1, color);
    lemma_rays_apart(g, from, 1, 0, 0, -1, color);
    lemma_add_slide(a3, g, from, 0, 1, color);
    lemma_rays_apart(g, from, -1, 0, 0, 1, color);
    lemma_rays_apart(g, from, 1, 0, 0, 1, color);
    lemma_rays_apart(g, from, 0, -1, 0, 1, color);
}

/// The list of a bishop's moves holds exactly the moves of a bishop, each
/// once.
pub proof fn lemma_bishop_list(g: Grid, from: Position, color: Color)
    requires
        from.valid(),
    ensures
        forall|p: Position|
            #[trigger] bishop_list(g, from, color).contains(p) <==> bishop_move(g, from, color, p),
        bishop_list(g, from, color).no_duplicates(),
{
    let a1 = slide_list(g, from, -1, -1, color);
    lemma_slide_list(g, from, -1, -1, color);
    let a2 = a1 + slide_list(g, from, -1, 1, color);
    lemma_add_slide(a1, g, from, -1, 1, color);
    lemma_rays_apart(g, from, -1, -1, -1, 1, color);
    let a3 = a2 + slide_list(g, from, 1, -1, color);
    lemma_add_slide(a2, g, from, 1, -1, color);
    lemma_rays_apart(g, from, -1, -1, 1, -1, color);
    lemma_rays_apart(g, from, -1, 1, 1, -1, color);
    lemma_add_slide(a3, g, from, 1, 1, color);
    lemma_rays_apart(g, from, -1, -1, 1, 1, color);
    lemma_rays_apart(g, from, -1, 1, 1, 1, color);
    lemma_rays_apart(g, from, 1, -1, 1, 1, color);
}

/// The list of a queen's moves holds exactly the moves of a queen, each
/// once.
pub proof fn lemma_queen_list(g: Grid, from: Position, color: Color)
    requires
        from.valid(),
    ensures
        forall|p: Position|
            #[trigger] queen_list(g, from, color).contains(p) <==> queen_move(g, from, color, p),
        queen_list(g, from, color).no_duplicates(),
{
    lemma_rook_list(g, from, color);
    lemma_bishop_list(g, from, color);
    lemma_join(rook_list(g, from, color), bishop_list(g, from, color));
    lemma_rays_apart(g, from, -1, 0, -1, -1, color);
    lemma_rays_apart(g, from, -1, 0, -1, 1, color);
    lemma_rays_apart(g, from, -1, 0, 1, -1, color);
    lemma_rays_apart(g, from, -1, 0, 1, 1, color);
    lemma_rays_apart(g, from, 1, 0, -1, -1, color);
    lemma_rays_apart(g, from, 1, 0, -1, 1, color);
    lemma_rays_apart(g, from, 1, 0, 1, -1, color);
    lemma_rays_apart(g, from, 1, 0, 1, 1, color);
    lemma_rays_apart(g, from, 0, -1, -1, -1, color);
    lemma_rays_apart(g, from, 0, -1, -1, 1, color);
    lemma_rays_apart(g, from, 0, -1, 1, -1, color);
    lemma_rays_apart(g, from, 0, -1, 1, 1, color);
    lemma_rays_apart(g, from, 0, 1, -1, -1, color);
    lemma_rays_apart(g, from, 0, 1, -1, 1, color);
    lemma_rays_apart(g, from, 0, 1, 1, -1, color);
    lemma_rays_apart(g, from, 0, 1, 1, 1, color);
}

/// The lists of a pawn's advances and captures hold exactly its advances and
/// its captures, each once.
pub proof fn lemma_pawn_lists(g: Grid, from: Position, color: Color)
    requires
        from.valid(),
    ensures
        forall|p: Position|
            #[trigger] pawn_advance_list(g, from, color).contains(p) <==> pawn_advance(
                g,
                from,
                color,
                p,
            ),
        pawn_advance_list(g, from, color).no_duplicates(),
        forall|p: Position|
            #[trigger] pawn_capture_list(g, from, color).contains(p) <==> pawn_capture(
                g,
                from,
                color,
                p,
            ),
        pawn_capture_list(g, from, color).no_duplicates(),
{
    let advances = pawn_advance_list(g, from, color);
    assert forall|p: Position| #[trigger]
        advances.contains(p) <==> pawn_advance(g, from, color, p) by {
        if pawn_single(g, from, color, p) {
            assert(advances[0] == p);
        }
        if pawn_double(g, from, color, p) {
            assert(advances[1] == p);
        }
    }
    let low = pawn_capture_towards(g, from, -1, color);
    let high = pawn_capture_towards(g, from, 1, color);
    assert forall|p: Position| #[trigger]
        low.contains(p) <==> (pawn_capture(g, from, color, p) && p.col == from.col - 1) by {
        if pawn_capture(g, from, color, p) && p.col == from.col - 1 {
            assert(shifted(from, forward(color), -1) == Some(p));
            assert(low[0] == p);
        }
    }
    assert forall|p: Position| #[trigger]
        high.contains(p) <==> (pawn_capture(g, from, color, p) && p.col == from.col + 1) by {
        if pawn_capture(g, from, color, p) && p.col == from.col + 1 {
            assert(shifted(from, forward(color), 1) == Some(p));
            assert(high[0] == p);
        }
    }
    lemma_join(low, high);
}

/// The list of pseudo-legal moves holds exactly the pseudo-legal moves, each
/// once.
pub proof fn lemma_pseudo_legal_list(g: Grid, from: Position, color: Color)
    ensures
        forall|p: Position|
            #[trigger] pseudo_legal_list(g, from, color).contains(p) <==> pseudo_legal(
                g,
                from,
                color,
                p,
            ),
        pseudo_legal_list(g, from, color).no_duplicates(),
{
    if from.valid() && piece_at(g, from) is Some && piece_at(g, from)->Some_0.color == color {
        match piece_at(g, from)->Some_0.kind {
            PieceType::Pawn => {
                lemma_pawn_lists(g, from, color);
                lemma_join(pawn_advance_list(g, from, color), pawn_capture_list(g, from, color));
            },
            PieceType::Rook => {
                lemma_rook_list(g, from, color);
            },
            PieceType::Knight => {
                lemma_knight_list(g, from, color);
            },
            PieceType::Bishop => {
                lemma_bishop_list(g, from, color);
            },
            PieceType::Queen => {
                lemma_queen_list(g, from, color);
            },
            PieceType::King => {
                lemma_king_list(g, from, color);
            },
        }
    }
}

/// A filtered list holds exactly what the list holds and passes the test;
/// it holds nothing twice if the list does not.
pub(crate) proof fn lemma_filter(list: Seq<Position>, test: spec_fn(Position) -> bool)
    ensures
        forall|p: Position|
            #[trigger] list.filter(test).contains(p) <==> (list.contains(p) && test(p)),
        list.no_duplicates() ==> list.filter(test).no_duplicates(),
    decreases list.len(),
{
    reveal(Seq::filter);
    if list.len() > 0 {
        let init = list.drop_last();
        let last = list.last();
        lemma_filter(init, test);
        assert(list =~= init.push(last));
        lemma_push(init, last);
        lemma_push(init.filter(test), last);
        if list.no_duplicates() {
            assert forall|i: int, j: int|
                0 <= i < init.len() && 0 <= j < init.len() && i != j implies init[i] != init[j] by {
                assert(list[i] != list[j]);
            }
            if init.contains(last) {
                let i = choose|i: int| 0 <= i < init.len() && init[i] == last;
                assert(list[i] == list[list.len() - 1]);
            }
        }
    }
}

/// Where no piece of `color` stands on `from`, no move is listed for it.
pub(crate) proof fn lemma_no_piece_no_moves(g: Grid, from: Position, color: Color)
    requires
        !from.valid() || !holds(g, from, color),
    ensures
        pseudo_legal_list(g, from, color) == Seq::<Position>::empty(),
        legal_list(g, from, color) == Seq::<Position>::empty(),
{
    reveal(Seq::filter);
}

/// The list of legal moves holds exactly the legal moves, each once.
pub proof fn lemma_legal_list(g: Grid, from: Position, color: Color)
    ensures
        forall|p: Position|
            #[trigger] legal_list(g, from, color).contains(p) <==> legal(g, from, color, p),
        legal_list(g, from, color).no_duplicates(),
{
    lemma_pseudo_legal_list(g, from, color);
    lemma_filter(pseudo_legal_list(g, from, color), keeps_king_safe(g, from, color));
}

/// The list of all legal destinations of the first `n` squares holds exactly
/// the destinations of the legal moves that start on one of them.
pub(crate) proof fn lemma_all_legal_prefix(g: Grid, color: Color, n: nat)
    requires
        n <= 64,
    ensures
        forall|p: Position|
            #[trigger] all_legal_list(g, color, n).contains(p) <==> (exists|from: Position|
                from.valid() && from.row * 8 + from.col < n && #[trigger] legal(g, from, color, p)),
    decreases n,
{
    if n > 0 {
        let earlier = all_legal_list(g, color, (n - 1) as nat);
        let here = nth_square(n - 1);
        lemma_all_legal_prefix(g, color, (n - 1) as nat);
        lemma_legal_list(g, here, color);
        lemma_join(earlier, legal_list(g, here, color));
        assert forall|p: Position| #[trigger]
            all_legal_list(g, color, n).contains(p) <==> (exists|from: Position|
                from.valid() && from.row * 8 + from.col < n && #[trigger] legal(g, from, color, p))
        by {
            if all_legal_list(g, color, n).contains(p) {
                if earlier.contains(p) {
                    let from = choose|from: Position|
                        from.valid() && from.row * 8 + from.col < n - 1 && #[trigger] legal(
                            g,
                            from,
                            color,
                            p,
                        );
                    assert(legal(g, from, color, p));
                } else {
                    assert(legal(g, here, color, p));
                }
            }
            if exists|from: Position|
                from.valid() && from.row * 8 + from.col < n && #[trigger] legal(g, from, color, p) {
                let from = choose|from: Position|
                    from.valid() && from.row * 8 + from.col < n && #[trigger] legal(
                        g,
                        from,
                        color,
                        p,
                    );
                if from.row * 8 + from.col == n - 1 {
                    assert(from == here);
                } else {
                    assert(legal(g, from, color, p));
                }
            }
        }
    }
}

/// The list of all legal destinations holds exactly the destinations of the
/// legal moves of `color`; it is empty exactly if `color` has no legal move.
pub proof fn lemma_all_legal_list(g: Grid, color: Color)
    ensures
        forall|p: Position|
            #[trigger] all_legal_list(g, color, 64).contains(p) <==> (exists|from: Position|
                #[trigger] legal(g, from, color, p)),
        all_legal_list(g, color, 64).len() == 0 <==> !has_legal_move(g, color),
{
    let all = all_legal_list(g, color, 64);
    lemma_all_legal_prefix(g, color, 64);
    assert forall|p: Position| #[trigger] all.contains(p) <==> (exists|from: Position| #[trigger]
        legal(g, from, color, p)) by {
        if exists|from: Position| #[trigger] legal(g, from, color, p) {
            let from = choose|from: Position| #[trigger] legal(g, from, color, p);
            assert(from.valid());
        }
    }
    if all.len() == 0 {
        assert forall|from: Position, to: Position| !#[trigger] legal(g, from, color, to) by {
            if legal(g, from, color, to) {
                assert(all.contains(to));
            }
        }
    } else {
        assert(all.contains(all[0]));
    }
}

} // verus!
