//! Coordinate notation: a square is a file letter and a rank digit, as in
//! `e2`; a move is two squares, as in `e2e4`.

use crate::game::Position;
use vstd::prelude::*;
use vstd::string::StrSliceExecFns;

verus! {

/// The column that file letter `c` names: `a` to `h`, in either case, name
/// columns 0 to 7.
pub open spec fn file_index(c: char) -> Option<usize> {
    if 'a' <= c <= 'h' {
        Some((c as int - 'a' as int) as usize)
    } else if 'A' <= c <= 'H' {
        Some((c as int - 'A' as int) as usize)
    } else {
        None
    }
}

/// The row that rank digit `c` names: `1` to `8` name rows 0 to 7.
pub open spec fn rank_index(c: char) -> Option<usize> {
    if '1' <= c <= '8' {
        Some((c as int - '1' as int) as usize)
    } else {
        None
    }
}

/// The square that `s` names, if it names one: exactly a file letter
/// followed by a rank digit.
pub open spec fn square_of(s: Seq<char>) -> Option<Position> {
    if s.len() == 2 && file_index(s[0]) is Some && rank_index(s[1]) is Some {
        Some(Position { row: rank_index(s[1])->Some_0, col: file_index(s[0])->Some_0 })
    } else {
        None
    }
}

/// The move that `s` names, if it names one: exactly two squares, the one to
/// move from and the one to move to.
pub open spec fn move_of(s: Seq<char>) -> Option<(Position, Position)> {
    if s.len() == 4 && square_of(s.subrange(0, 2)) is Some && square_of(s.subrange(2, 4)) is Some {
        Some((square_of(s.subrange(0, 2))->Some_0, square_of(s.subrange(2, 4))->Some_0))
    } else {
        None
    }
}

/// What `str::trim` makes of a string: the string without its leading and
/// trailing whitespace, as Unicode defines whitespace.
pub uninterp spec fn trimmed(s: Seq<char>) -> Seq<char>;

/// `str::trim`. The contract only names the result: the same text always
/// trims to the same text.
#[verifier::external_body]
fn trim(input: &str) -> (text: &str)
    ensures
        text@ == trimmed(input@),
{
    input.trim()
}

/// The column that the file letter `c` names.
fn parse_file(c: char) -> (col: Option<usize>)
    ensures
        col == file_index(c),
{
    if c == 'a' || c == 'A' {
        Some(0)
    } else if c == 'b' || c == 'B' {
        Some(1)
    } else if c == 'c' || c == 'C' {
        Some(2)
    } else if c == 'd' || c == 'D' {
        Some(3)
    } else if c == 'e' || c == 'E' {
        Some(4)
    } else if c == 'f' || c == 'F' {
        Some(5)
    } else if c == 'g' || c == 'G' {
        Some(6)
    } else if c == 'h' || c == 'H' {
        Some(7)
    } else {
        None
    }
}

/// The row that the rank digit `c` names.
fn parse_rank(c: char) -> (row: Option<usize>)
    ensures
        row == rank_index(c),
{
    if c == '1' {
        Some(0)
    } else if c == '2' {
        Some(1)
    } else if c == '3' {
        Some(2)
    } else if c == '4' {
        Some(3)
    } else if c == '5' {
        Some(4)
    } else if c == '6' {
        Some(5)
    } else if c == '7' {
        Some(6)
    } else if c == '8' {
        Some(7)
    } else {
        None
    }
}

/// Reads a square such as `e2`. Anything but a file letter followed by a
/// rank digit gives `None`; nothing is trimmed.
pub fn parse_square(input: &str) -> (square: Option<Position>)
    ensures
        square == square_of(input@),
        square matches Some(p) ==> p.valid(),
{
    if input.unicode_len() != 2 {
        return None;
    }
    let col = parse_file(input.get_char(0));
    let row = parse_rank(input.get_char(1));
    match (row, col) {
        (Some(row_index), Some(col_index)) => Position::new(row_index, col_index),
        _ => None,
    }
}

/// Reads a move such as `e2e4` from text that is already trimmed: exactly
/// two squares. Anything else gives `None`.
pub fn parse_coordinates(input: &str) -> (parsed: Option<(Position, Position)>)
    ensures
        parsed == move_of(input@),
        parsed matches Some(m) ==> m.0.valid() && m.1.valid(),
{
    if input.unicode_len() != 4 {
        return None;
    }
    let from = parse_square(input.substring_char(0, 2));
    let to = parse_square(input.substring_char(2, 4));
    match (from, to) {
        (Some(from_square), Some(to_square)) => Some((from_square, to_square)),
        _ => None,
    }
}

/// Reads a move such as `e2e4`, with or without whitespace around it.
/// Malformed text gives `None`.
pub fn parse_move(input: &str) -> (parsed: Option<(Position, Position)>)
    ensures
        parsed == move_of(trimmed(input@)),
        parsed matches Some(m) ==> m.0.valid() && m.1.valid(),
{
    parse_coordinates(trim(input))
}

} // verus!
