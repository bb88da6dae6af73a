//! Pieces: their kind, colour, auxiliary classification and stable identity.

pub mod piece_fsm;

use vstd::prelude::*;

verus! {

/// The six kinds of chess piece. The set is closed: no kind ever turns into another.
#[derive(Copy, Clone, Debug, PartialEq, Eq, Hash, Structural)]
pub enum PieceType {
    Pawn,
    Rook,
    Knight,
    Bishop,
    Queen,
    King,
}

/// The two sides. Exactly one of them is to move at any time.
#[derive(Copy, Clone, Debug, PartialEq, Eq, Hash, Structural)]
pub enum Color {
    White,
    Black,
}

impl Color {
    /// The side that is not `self`.
    pub open spec fn other(self) -> Color {
        match self {
            Color::White => Color::Black,
            Color::Black => Color::White,
        }
    }

    /// The side that is not `self`.
    pub fn opponent(self) -> (c: Color)
        ensures
            c == self.other(),
    {
        match self {
            Color::White => Color::Black,
            Color::Black => Color::White,
        }
    }
}

/// Form of a piece. No rule reads it; every piece starts as `Base`.
#[derive(Copy, Clone, Debug, PartialEq, Eq, Hash, Structural)]
pub enum PieceForm {
    Base,
    Corrupted,
    Ascended,
    Fragmented,
}

/// Activity of a piece. No rule reads it; every piece starts as `Idle`.
#[derive(Copy, Clone, Debug, PartialEq, Eq, Hash, Structural)]
pub enum PieceState {
    Idle,
    Selected,
    Moving,
    Morphing(PieceForm),
    Attacking,
    Dead,
}

/// Stable identity of a piece: given once, at creation, and kept wherever
/// the piece moves.
#[derive(Copy, Clone, Debug, PartialEq, Eq, Hash, Structural)]
pub struct PieceId(pub u32);

impl PieceId {
    /// The identity with number `value`.
    pub fn new(value: u32) -> (id: PieceId)
        ensures
            id == PieceId(value),
    {
        PieceId(value)
    }
}

/// A piece on the board.
#[derive(Copy, Clone, Debug, PartialEq, Eq, Structural)]
pub struct Piece {
    pub id: PieceId,
    pub kind: PieceType,
    pub color: Color,
    pub form: PieceForm,
    pub state: PieceState,
    pub has_moved: Option<bool>,
}

impl Piece {
    /// What [`Piece::new`] builds: a piece in its base form, idle, that has
    /// not moved.
    pub open spec fn fresh(id: PieceId, kind: PieceType, color: Color) -> Piece {
        Piece {
            id,
            kind,
            color,
            form: PieceForm::Base,
            state: PieceState::Idle,
            has_moved: Some(false),
        }
    }

    /// A new piece of the given kind and colour under identity `id`.
    pub fn new(id: PieceId, kind: PieceType, color: Color) -> (p: Piece)
        ensures
            p == Piece::fresh(id, kind, color),
    {
        Piece {
            id,
            kind,
            color,
            form: PieceForm::Base,
            state: PieceState::Idle,
            has_moved: Some(false),
        }
    }

    pub fn get_id(&self) -> (id: PieceId)
        ensures
            id == self.id,
    {
        self.id
    }

    pub fn get_kind(&self) -> (kind: PieceType)
        ensures
            kind == self.kind,
    {
        self.kind
    }

    pub fn get_color(&self) -> (color: Color)
        ensures
            color == self.color,
    {
        self.color
    }

    pub fn get_form(&self) -> (form: PieceForm)
        ensures
            form == self.form,
    {
        self.form
    }

    pub fn get_state(&self) -> (state: PieceState)
        ensures
            state == self.state,
    {
        self.state
    }

    pub fn get_has_moved(&self) -> (has_moved: Option<bool>)
        ensures
            has_moved == self.has_moved,
    {
        self.has_moved
    }
}

} // verus!
