//! The selection: which square the player has picked, by mouse or by keys,
//! and when two picks make a move.

use crate::game::Position;
use vstd::prelude::*;

verus! {

/// The keys that matter to the selection, as they were pressed in one frame.
#[derive(Clone, Copy, Debug, PartialEq, Eq, Structural)]
pub struct KeyInput {
    /// Enter was pressed.
    pub enter: bool,
    /// Escape was pressed.
    pub escape: bool,
    /// The column whose letter key was pressed.
    pub column: Option<usize>,
    /// The row whose digit key was pressed.
    pub row: Option<usize>,
}

/// The state of the selection.
#[derive(Clone, Copy, Debug, PartialEq, Eq, Structural)]
pub struct Selection {
    /// The square picked to move from.
    pub selected: Option<Position>,
    /// The column picked by its letter, waiting for a row.
    pub highlighted_column: Option<usize>,
    /// Whether the next square typed is the destination of a move.
    pub typing_mode: bool,
}

/// The index of the first of eight keys that is pressed.
pub fn first_pressed(pressed: &[bool; 8]) -> (index: Option<usize>)
    ensures
        match index {
            Some(i) => i < 8 && pressed[i as int] && forall|j: int| 0 <= j < i ==> !pressed[j],
            None => forall|j: int| 0 <= j < 8 ==> !pressed[j],
        },
{
    let mut i: usize = 0;
    while i < 8
        invariant
            i <= 8,
            forall|j: int| 0 <= j < i ==> !pressed[j],
        decreases 8 - i,
    {
        if pressed[i] {
            return Some(i);
        }
        i += 1;
    }
    None
}

impl Selection {
    /// The selection after a click on `pos`, and the move that the click
    /// completes: with a square selected, the click names the destination
    /// and the selection stays; with none, the click selects `pos`.
    pub open spec fn after_click(self, pos: Position) -> (Selection, Option<(Position, Position)>) {
        match self.selected {
            Some(from) => (self, Some((from, pos))),
            None => (
                Selection {
                    selected: Some(pos),
                    highlighted_column: self.highlighted_column,
                    typing_mode: self.typing_mode,
                },
                None,
            ),
        }
    }

    /// The selection after Enter and Escape have been looked at. Enter, with
    /// a square selected, starts typing a destination; Escape, looked at
    /// second, ends it. Either drops the highlighted column.
    pub open spec fn after_mode_keys(self, keys: KeyInput) -> Selection {
        let entered = if keys.enter && self.selected is Some {
            Selection { selected: self.selected, highlighted_column: None, typing_mode: true }
        } else {
            self
        };
        if keys.escape {
            Selection { selected: entered.selected, highlighted_column: None, typing_mode: false }
        } else {
            entered
        }
    }

    /// The selection after the keys of one frame, and the move that they
    /// complete. After Enter and Escape, a letter key highlights its column.
    /// A digit key, with a column highlighted, names a square: in typing
    /// mode, with a square selected, that is the destination of a move, and
    /// typing ends; otherwise the square becomes the selected one. Either
    /// way the highlight goes.
    pub open spec fn after_keys(self, keys: KeyInput) -> (Selection, Option<(Position, Position)>) {
        let moded = self.after_mode_keys(keys);
        let column = match keys.column {
            Some(col) => Some(col),
            None => moded.highlighted_column,
        };
        match (keys.row, column) {
            (Some(row), Some(col)) => {
                let pos = Position { row, col };
                if moded.selected is Some && moded.typing_mode {
                    (
                        Selection {
                            selected: moded.selected,
                            highlighted_column: None,
                            typing_mode: false,
                        },
                        Some((moded.selected->Some_0, pos)),
                    )
                } else {
                    (
                        Selection {
                            selected: Some(pos),
                            highlighted_column: None,
                            typing_mode: moded.typing_mode,
                        },
                        None,
                    )
                }
            },
            _ => (
                Selection {
                    selected: moded.selected,
                    highlighted_column: column,
                    typing_mode: moded.typing_mode,
                },
                None,
            ),
        }
    }

    /// Nothing selected, nothing highlighted, not typing.
    pub fn new() -> (selection: Selection)
        ensures
            selection == (Selection {
                selected: None,
                highlighted_column: None,
                typing_mode: false,
            }),
    {
        Selection { selected: None, highlighted_column: None, typing_mode: false }
    }

    /// Takes a click on the square `pos`. Returns the move that the click
    /// completes, if it completes one.
    pub fn click(&mut self, pos: Position) -> (submitted: Option<(Position, Position)>)
        ensures
            (*final(self), submitted) == old(self).after_click(pos),
    {
        if let Some(from) = self.selected {
            return Some((from, pos));
        } else {
            self.selected = Some(pos);
        }
        None
    }

    /// Takes the keys of one frame. Returns the move that they complete, if
    /// they complete one.
    pub fn keys(&mut self, keys: KeyInput) -> (submitted: Option<(Position, Position)>)
        ensures
            (*final(self), submitted) == old(self).after_keys(keys),
    {
        if keys.enter {
            if let Some(_) = self.selected {
                self.typing_mode = true;
                self.highlighted_column = None;
            }
        }
        if keys.escape {
            self.typing_mode = false;
            self.highlighted_column = None;
        }
        if let Some(col) = keys.column {
            self.highlighted_column = Some(col);
        }
        if let Some(row) = keys.row {
            if let Some(col) = self.highlighted_column {
                let pos = Position { row, col };

                if let Some(from) = self.selected {
                    if self.typing_mode {
                        self.highlighted_column = None;
                        self.typing_mode = false;
                        return Some((from, pos));
                    } else {
                        self.selected = Some(pos);
                        self.highlighted_column = None;
                    }
                } else {
                    self.selected = Some(pos);
                    self.highlighted_column = None;
                }
            }
        }
        None
    }

    /// Drops the selected square, as after a move submitted by a click.
    pub fn deselect(&mut self)
        ensures
            *final(self) == (Selection {
                selected: None,
                highlighted_column: old(self).highlighted_column,
                typing_mode: old(self).typing_mode,
            }),
    {
        self.selected = None;
    }

    /// Drops everything, as after a move submitted by keys.
    pub fn reset(&mut self)
        ensures
            *final(self) == (Selection {
                selected: None,
                highlighted_column: None,
                typing_mode: false,
            }),
    {
        self.selected = None;
        self.highlighted_column = None;
        self.typing_mode = false;
    }
}

} // verus!
