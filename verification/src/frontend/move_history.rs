//! The record of the moves played, and how a move is written.

use crate::game::Position;
use crate::parser::algebraic::square_of;
use vstd::prelude::*;
use vstd::string::StringExecFns;

verus! {

/// The letter of column `col`: `a` for column 0, up to `h` for column 7.
pub open spec fn file_char(col: int) -> char {
    ('a' as int + col) as char
}

/// The decimal digit `d` as a character.
pub open spec fn digit_char(d: int) -> char {
    ('0' as int + d) as char
}

/// The name of the square `p`: the letter of its column, then the digit of
/// its row counted from 1.
pub open spec fn square_name(p: Position) -> Seq<char> {
    seq![file_char(p.col as int), digit_char(p.row + 1)]
}

/// The number `n` in decimal, without leading zeros.
pub open spec fn decimal(n: nat) -> Seq<char>
    decreases n,
{
    if n < 10 {
        seq![digit_char(n as int)]
    } else {
        decimal(n / 10).push(digit_char((n % 10) as int))
    }
}

/// How the move numbered `idx`, counted from 0, is written. White's moves
/// have the even numbers and open a line with the number of the move pair
/// and a full stop; Black's moves stand bare.
pub open spec fn move_text(idx: nat, from: Position, to: Position) -> Seq<char> {
    if idx % 2 == 0 {
        decimal(idx / 2 + 1) + seq!['.', ' '] + square_name(from) + square_name(to)
    } else {
        square_name(from) + square_name(to)
    }
}

/// The name of a square reads back as that square.
pub proof fn lemma_square_name_reads_back(p: Position)
    requires
        p.valid(),
    ensures
        square_of(square_name(p)) == Some(p),
{
}

/// The letter of column `col`, as text.
fn file_letter(col: usize) -> (text: &'static str)
    requires
        col < 8,
    ensures
        text@ == seq![file_char(col as int)],
{
    proof {
        reveal_strlit("a");
        reveal_strlit("b");
        reveal_strlit("c");
        reveal_strlit("d");
        reveal_strlit("e");
        reveal_strlit("f");
        reveal_strlit("g");
        reveal_strlit("h");
    }
    let text = if col == 0 {
        "a"
    } else if col == 1 {
        "b"
    } else if col == 2 {
        "c"
    } else if col == 3 {
        "d"
    } else if col == 4 {
        "e"
    } else if col == 5 {
        "f"
    } else if col == 6 {
        "g"
    } else {
        "h"
    };
    assert(text@ =~= seq![file_char(col as int)]);
    text
}

/// The digit `d`, as text.
fn digit_text(d: usize) -> (text: &'static str)
    requires
        d < 10,
    ensures
        text@ == seq![digit_char(d as int)],
{
    proof {
        reveal_strlit("0");
        reveal_strlit("1");
        reveal_strlit("2");
        reveal_strlit("3");
        reveal_strlit("4");
        reveal_strlit("5");
        reveal_strlit("6");
        reveal_strlit("7");
        reveal_strlit("8");
        reveal_strlit("9");
    }
    let text = if d == 0 {
        "0"
    } else if d == 1 {
        "1"
    } else if d == 2 {
        "2"
    } else if d == 3 {
        "3"
    } else if d == 4 {
        "4"
    } else if d == 5 {
        "5"
    } else if d == 6 {
        "6"
    } else if d == 7 {
        "7"
    } else if d == 8 {
        "8"
    } else {
        "9"
    };
    assert(text@ =~= seq![digit_char(d as int)]);
    text
}

/// Writes `n` in decimal at the end of `text`.
fn push_decimal(text: &mut String, n: usize)
    ensures
        final(text)@ == old(text)@ + decimal(n as nat),
    decreases n,
{
    if n >= 10 {
        push_decimal(text, n / 10);
    }
    text.append(digit_text(n % 10));
    assert(text@ =~= old(text)@ + decimal(n as nat));
}

/// The moves played, oldest first.
pub struct MoveHistory {
    moves: Vec<(Position, Position)>,
}

impl View for MoveHistory {
    type V = Seq<(Position, Position)>;

    closed spec fn view(&self) -> Seq<(Position, Position)> {
        self.moves@
    }
}

impl MoveHistory {
    /// Every recorded move goes from a square of the board to a square of
    /// the board.
    pub open spec fn wf(&self) -> bool {
        forall|i: int|
            0 <= i < self@.len() ==> (#[trigger] self@[i]).0.valid() && self@[i].1.valid()
    }

    /// An empty record.
    pub fn new() -> (history: Self)
        ensures
            history@ == Seq::<(Position, Position)>::empty(),
            history.wf(),
    {
        Self { moves: Vec::new() }
    }

    /// Records the move from `from` to `to` as the latest.
    pub fn add_move(&mut self, from: Position, to: Position)
        ensures
            final(self)@ == old(self)@.push((from, to)),
            old(self).wf() && from.valid() && to.valid() ==> final(self).wf(),
    {
        self.moves.push((from, to));
        proof {
            if old(self).wf() && from.valid() && to.valid() {
                assert forall|i: int| 0 <= i < self@.len() implies (#[trigger] self@[i]).0.valid()
                    && self@[i].1.valid() by {
                    if i < old(self)@.len() {
                        assert(old(self)@[i].0.valid());
                    }
                }
            }
        }
    }

    /// Number of moves recorded.
    pub fn len(&self) -> (n: usize)
        ensures
            n == self@.len(),
    {
        self.moves.len()
    }

    /// The move numbered `idx`, counted from 0.
    pub fn get(&self, idx: usize) -> (entry: Option<(Position, Position)>)
        ensures
            entry == (if idx < self@.len() {
                Some(self@[idx as int])
            } else {
                None
            }),
    {
        if idx < self.moves.len() {
            Some(self.moves[idx])
        } else {
            None
        }
    }

    /// The name of the square `pos`, such as `e2`.
    pub fn position_to_algebraic(pos: &Position) -> (name: String)
        requires
            pos.valid(),
        ensures
            name@ == square_name(*pos),
            square_of(name@) == Some(*pos),
    {
        let mut name = String::new();
        name.append(file_letter(pos.col));
        name.append(digit_text(pos.row + 1));
        assert(name@ =~= square_name(*pos));
        name
    }

    /// How the move numbered `idx`, counted from 0, from `from` to `to` is
    /// written in the record.
    pub fn format_move(&self, idx: usize, from: Position, to: Position) -> (text: String)
        requires
            from.valid(),
            to.valid(),
        ensures
            text@ == move_text(idx as nat, from, to),
    {
        let move_num = (idx / 2) + 1;
        let from_sq = Self::position_to_algebraic(&from);
        let to_sq = Self::position_to_algebraic(&to);
        let mut text = String::new();
        if idx % 2 == 0 {
            push_decimal(&mut text, move_num);
            proof {
                reveal_strlit(". ");
            }
            text.append(". ");
            assert(". "@ =~= seq!['.', ' ']);
        }
        text.append(from_sq.as_str());
        text.append(to_sq.as_str());
        assert(text@ =~= move_text(idx as nat, from, to));
        text
    }

    /// How the recorded move numbered `idx` is written.
    pub fn line(&self, idx: usize) -> (text: String)
        requires
            self.wf(),
            idx < self@.len(),
        ensures
            text@ == move_text(idx as nat, self@[idx as int].0, self@[idx as int].1),
    {
        let (from, to) = self.moves[idx];
        self.format_move(idx, from, to)
    }

    /// The number of the first move that shows when at most `max_visible`
    /// lines fit: the latest moves show, the oldest scroll away.
    pub fn visible_start(&self, max_visible: usize) -> (start: usize)
        ensures
            start == (if self@.len() > max_visible {
                self@.len() - max_visible
            } else {
                0
            }),
    {
        if self.moves.len() > max_visible {
            self.moves.len() - max_visible
        } else {
            0
        }
    }
}

} // verus!
