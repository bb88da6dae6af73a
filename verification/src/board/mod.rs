//! The board: an 8 by 8 grid of squares, row 0 being White's back rank.

pub mod display;
pub mod square;

pub use display::{board_to_text, square_symbol, tile_at, Tile};
pub use square::Square;

use crate::config::BOARD_SIZE;
use crate::pieces::{Color, Piece, PieceId, PieceType};
use vstd::prelude::*;

verus! {

/// The board as it is stored: rows of squares.
pub type Board = [[Square; BOARD_SIZE]; BOARD_SIZE];

/// The board as contracts see it: a sequence of rows, each a sequence of
/// squares.
pub type Grid = Seq<Seq<Square>>;

/// The grid that `board` stores.
pub open spec fn grid_of(board: Board) -> Grid {
    Seq::new(8, |r: int| board@[r]@)
}

/// A grid has eight rows of eight squares.
pub open spec fn grid_wf(g: Grid) -> bool {
    &&& g.len() == 8
    &&& forall|r: int| 0 <= r < 8 ==> (#[trigger] g[r]).len() == 8
}

/// `(r, c)` names a square of the board.
pub open spec fn on_board(r: int, c: int) -> bool {
    0 <= r < 8 && 0 <= c < 8
}

/// The kind of piece that starts in column `c` of a back rank: rook, knight,
/// bishop, queen, king, bishop, knight, rook.
pub open spec fn back_rank_kind(c: int) -> PieceType {
    if c == 0 || c == 7 {
        PieceType::Rook
    } else if c == 1 || c == 6 {
        PieceType::Knight
    } else if c == 2 || c == 5 {
        PieceType::Bishop
    } else if c == 3 {
        PieceType::Queen
    } else {
        PieceType::King
    }
}

/// The piece that starts on `(r, c)`, if any. White's pawns stand on row 1
/// and Black's on row 6; White's back rank is row 0 and Black's row 7. The
/// identities are 0 to 7 for White's pawns, 8 to 15 for Black's, and from 16
/// on the back ranks column by column, White's piece before Black's.
pub open spec fn initial_piece(r: int, c: int) -> Option<Piece> {
    if r == 0 {
        Some(Piece::fresh(PieceId((16 + 2 * c) as u32), back_rank_kind(c), Color::White))
    } else if r == 1 {
        Some(Piece::fresh(PieceId(c as u32), PieceType::Pawn, Color::White))
    } else if r == 6 {
        Some(Piece::fresh(PieceId((8 + c) as u32), PieceType::Pawn, Color::Black))
    } else if r == 7 {
        Some(Piece::fresh(PieceId((17 + 2 * c) as u32), back_rank_kind(c), Color::Black))
    } else {
        None
    }
}

/// The square `(r, c)` at the start of a game: its piece, no gate.
pub open spec fn initial_square(r: int, c: int) -> Square {
    Square {
        piece: initial_piece(r, c),
        gate: None,
        animation_frame: None,
        animation_direction: None,
    }
}

/// Stands `piece` on `(row, col)`. A gate on that square and all other
/// squares stay as they are.
fn put_piece(board: &mut Board, row: usize, col: usize, piece: Piece)
    requires
        row < 8,
        col < 8,
    ensures
        forall|r: int, c: int|
            on_board(r, c) ==> #[trigger] grid_of(*final(board))[r][c] == (if r == row && c == col {
                Square {
                    piece: Some(piece),
                    gate: grid_of(*old(board))[r][c].gate,
                    animation_frame: grid_of(*old(board))[r][c].animation_frame,
                    animation_direction: grid_of(*old(board))[r][c].animation_direction,
                }
            } else {
                grid_of(*old(board))[r][c]
            }),
{
    board[row][col].piece = Some(piece);
}

/// The board at the start of a game: the standard chess layout, with no gate
/// anywhere.
pub fn create_board() -> (board: Board)
    ensures
        forall|r: int, c: int|
            on_board(r, c) ==> #[trigger] grid_of(board)[r][c] == initial_square(r, c),
{
    let empty = Square::new();
    let mut board: Board = [[empty; BOARD_SIZE]; BOARD_SIZE];
    let mut next_id: u32 = 0;

    let mut i: usize = 0;
    while i < BOARD_SIZE
        invariant
            i <= 8,
            next_id == i,
            forall|r: int, c: int|
                on_board(r, c) ==> #[trigger] grid_of(board)[r][c] == (if r == 1 && c < i {
                    initial_square(r, c)
                } else {
                    Square::empty()
                }),
        decreases 8 - i,
    {
        let pawn = Piece::new(PieceId::new(next_id), PieceType::Pawn, Color::White);
        put_piece(&mut board, 1, i, pawn);
        next_id += 1;
        i += 1;
    }

    let mut i: usize = 0;
    while i < BOARD_SIZE
        invariant
            i <= 8,
            next_id == 8 + i,
            forall|r: int, c: int|
                on_board(r, c) ==> #[trigger] grid_of(board)[r][c] == (if r == 1 || (r == 6 && c
                    < i) {
                    initial_square(r, c)
                } else {
                    Square::empty()
                }),
        decreases 8 - i,
    {
        let pawn = Piece::new(PieceId::new(next_id), PieceType::Pawn, Color::Black);
        put_piece(&mut board, 6, i, pawn);
        next_id += 1;
        i += 1;
    }

    let piece_order = [
        PieceType::Rook,
        PieceType::Knight,
        PieceType::Bishop,
        PieceType::Queen,
        PieceType::King,
        PieceType::Bishop,
        PieceType::Knight,
        PieceType::Rook,
    ];

    let mut i: usize = 0;
    while i < BOARD_SIZE
        invariant
            i <= 8,
            next_id == 16 + 2 * i,
            forall|c: int| 0 <= c < 8 ==> #[trigger] piece_order@[c] == back_rank_kind(c),
            forall|r: int, c: int|
                on_board(r, c) ==> #[trigger] grid_of(board)[r][c] == (if r == 1 || r == 6 || ((r
                    == 0 || r == 7) && c < i) {
                    initial_square(r, c)
                } else {
                    Square::empty()
                }),
        decreases 8 - i,
    {
        let kind = piece_order[i];
        put_piece(&mut board, 0, i, Piece::new(PieceId::new(next_id), kind, Color::White));
        next_id += 1;
        put_piece(&mut board, 7, i, Piece::new(PieceId::new(next_id), kind, Color::Black));
        next_id += 1;
        i += 1;
    }

    board
}

} // verus!
