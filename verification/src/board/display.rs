//! How the board is shown: as text, and tile by tile.

use crate::board::{grid_of, Board, Grid, Square};
use crate::config::BOARD_SIZE;
use crate::gates::GateType;
use crate::pieces::{Color, Piece, PieceType};
use vstd::prelude::*;
use vstd::string::StringExecFns;

verus! {

/// The letter that stands for a piece: the initial of its kind, with `N` for
/// the knight; a capital for White, a small letter for Black.
pub open spec fn piece_letter(piece: Piece) -> char {
    match (piece.color, piece.kind) {
        (Color::White, PieceType::Pawn) => 'P',
        (Color::White, PieceType::Rook) => 'R',
        (Color::White, PieceType::Knight) => 'N',
        (Color::White, PieceType::Bishop) => 'B',
        (Color::White, PieceType::Queen) => 'Q',
        (Color::White, PieceType::King) => 'K',
        (Color::Black, PieceType::Pawn) => 'p',
        (Color::Black, PieceType::Rook) => 'r',
        (Color::Black, PieceType::Knight) => 'n',
        (Color::Black, PieceType::Bishop) => 'b',
        (Color::Black, PieceType::Queen) => 'q',
        (Color::Black, PieceType::King) => 'k',
    }
}

/// How one square is written: a piece as its letter and a blank; else a gate
/// as `S` or `D`, by its kind, with no blank; else a dot and a blank.
pub open spec fn square_text(s: Square) -> Seq<char> {
    match s.piece {
        Some(piece) => seq![piece_letter(piece), ' '],
        None => match s.gate {
            Some(GateType::Standard { .. }) => seq!['S'],
            Some(GateType::Decay { .. }) => seq!['D'],
            None => seq!['.', ' '],
        },
    }
}

/// How the first `n` squares of a row are written, one after the other.
pub open spec fn squares_text(row: Seq<Square>, n: nat) -> Seq<char>
    decreases n,
{
    if n == 0 {
        Seq::empty()
    } else {
        squares_text(row, (n - 1) as nat) + square_text(row[n - 1])
    }
}

/// How the board is written down to its `n`-th row from the top: an empty
/// line, then each row on a line of its own, row 7 first.
pub open spec fn rows_text(g: Grid, n: nat) -> Seq<char>
    decreases n,
{
    if n == 0 {
        seq!['\n']
    } else {
        rows_text(g, (n - 1) as nat) + squares_text(g[8 - n], 8) + seq!['\n']
    }
}

/// How the board is written: an empty line, the eight rows from row 7 down
/// to row 0, and an empty line.
pub open spec fn board_text(g: Grid) -> Seq<char> {
    rows_text(g, 8) + seq!['\n']
}

/// The letter of `piece` and a blank, as text.
fn piece_text(piece: Piece) -> (text: &'static str)
    ensures
        text@ == seq![piece_letter(piece), ' '],
{
    proof {
        reveal_strlit("P ");
        reveal_strlit("R ");
        reveal_strlit("N ");
        reveal_strlit("B ");
        reveal_strlit("Q ");
        reveal_strlit("K ");
        reveal_strlit("p ");
        reveal_strlit("r ");
        reveal_strlit("n ");
        reveal_strlit("b ");
        reveal_strlit("q ");
        reveal_strlit("k ");
    }
    let text = match piece.color {
        Color::White => match piece.kind {
            PieceType::Pawn => "P ",
            PieceType::Rook => "R ",
            PieceType::Knight => "N ",
            PieceType::Bishop => "B ",
            PieceType::Queen => "Q ",
            PieceType::King => "K ",
        },
        Color::Black => match piece.kind {
            PieceType::Pawn => "p ",
            PieceType::Rook => "r ",
            PieceType::Knight => "n ",
            PieceType::Bishop => "b ",
            PieceType::Queen => "q ",
            PieceType::King => "k ",
        },
    };
    assert(text@ =~= seq![piece_letter(piece), ' ']);
    text
}

/// How `square` is written.
pub fn square_symbol(square: &Square) -> (text: &'static str)
    ensures
        text@ == square_text(*square),
{
    proof {
        reveal_strlit("S");
        reveal_strlit("D");
        reveal_strlit(". ");
    }
    if let Some(piece) = square.piece {
        piece_text(piece)
    } else if let Some(gate) = square.gate {
        match gate {
            GateType::Standard { duration } => {
                assert("S"@ =~= seq!['S']);
                "S"
            },
            GateType::Decay { duration } => {
                assert("D"@ =~= seq!['D']);
                "D"
            },
        }
    } else {
        assert(". "@ =~= seq!['.', ' ']);
        ". "
    }
}

/// The board as text: an empty line, the rows from the top one, row 7, down
/// to row 0, and an empty line.
pub fn board_to_text(board: &Board) -> (text: String)
    ensures
        text@ == board_text(grid_of(*board)),
{
    proof {
        reveal_strlit("\n");
    }
    let ghost g = grid_of(*board);
    let mut text = String::new();
    text.append("\n");
    assert(text@ =~= rows_text(g, 0));
    let mut done: usize = 0;
    while done < BOARD_SIZE
        invariant
            done <= 8,
            g == grid_of(*board),
            text@ == rows_text(g, done as nat),
            "\n"@ =~= seq!['\n'],
        decreases 8 - done,
    {
        let row: usize = BOARD_SIZE - 1 - done;
        let ghost start = text@;
        let mut col: usize = 0;
        while col < BOARD_SIZE
            invariant
                row < 8,
                col <= 8,
                g == grid_of(*board),
                text@ == start + squares_text(g[row as int], col as nat),
            decreases 8 - col,
        {
            text.append(square_symbol(&board[row][col]));
            assert(text@ =~= start + squares_text(g[row as int], (col + 1) as nat));
            col += 1;
        }
        text.append("\n");
        assert(text@ =~= rows_text(g, (done + 1) as nat));
        done += 1;
    }
    text.append("\n");
    text
}

/// The tile that shows a square: one frame of a gate animation, or a plain
/// light or dark tile.
#[derive(Debug, Clone, Copy, PartialEq, Eq, Structural)]
pub enum Tile {
    /// A gate, showing the given frame of its animation.
    Gate(usize),
    Light,
    Dark,
}

/// The tile that shows the square `(row, col)` of a grid: a gated square
/// shows its animation frame, or frame 0 before the animation has started;
/// the other squares are light where row and column add up to an even number
/// and dark elsewhere.
pub open spec fn tile_of(g: Grid, row: int, col: int) -> Tile {
    if g[row][col].gate is Some {
        Tile::Gate(
            match g[row][col].animation_frame {
                Some(frame) => frame,
                None => 0,
            },
        )
    } else if (row + col) % 2 == 0 {
        Tile::Light
    } else {
        Tile::Dark
    }
}

/// The tile that shows the square `(row, col)` of `board`.
pub fn tile_at(board: &Board, row: usize, col: usize) -> (tile: Tile)
    requires
        row < 8,
        col < 8,
    ensures
        tile == tile_of(grid_of(*board), row as int, col as int),
{
    if board[row][col].gate.is_some() {
        let frame = match board[row][col].animation_frame {
            Some(frame) => frame,
            None => 0,
        };
        Tile::Gate(frame)
    } else if (row + col) % 2 == 0 {
        Tile::Light
    } else {
        Tile::Dark
    }
}

} // verus!
