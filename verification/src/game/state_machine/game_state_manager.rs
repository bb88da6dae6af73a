//! The registry of piece handles.
//!
//! The registry holds one handle for each registered piece, in the order of
//! registration, and never two for one identity. A tick runs the state hook
//! of every handle and writes back to the board the pieces that their hook
//! changed.

use crate::board::{grid_of, Board, Grid};
use crate::config::BOARD_SIZE;
use crate::game::listing::nth_square;
use crate::game::rules::{piece_at, with_piece};
use crate::game::Position;
use crate::pieces::piece_fsm::{
    BishopFSM, KingFSM, KnightFSM, PawnFSM, PieceFSM, QueenFSM, RookFSM,
};
use crate::pieces::{Piece, PieceId, PieceType};
use vstd::prelude::*;

verus! {

/// The handle of a piece: one variant for each kind, each with the behaviour
/// of that kind.
#[derive(Clone, Copy, Debug)]
pub enum PieceHandle {
    Pawn(PawnFSM),
    Rook(RookFSM),
    Knight(KnightFSM),
    Bishop(BishopFSM),
    Queen(QueenFSM),
    King(KingFSM),
}

impl PieceHandle {
    /// The piece as the handle knows it.
    pub open spec fn held(&self) -> Piece {
        match self {
            PieceHandle::Pawn(fsm) => fsm.held(),
            PieceHandle::Rook(fsm) => fsm.held(),
            PieceHandle::Knight(fsm) => fsm.held(),
            PieceHandle::Bishop(fsm) => fsm.held(),
            PieceHandle::Queen(fsm) => fsm.held(),
            PieceHandle::King(fsm) => fsm.held(),
        }
    }

    /// The square on which the handle last knew its piece.
    pub open spec fn site(&self) -> Position {
        match self {
            PieceHandle::Pawn(fsm) => fsm.site(),
            PieceHandle::Rook(fsm) => fsm.site(),
            PieceHandle::Knight(fsm) => fsm.site(),
            PieceHandle::Bishop(fsm) => fsm.site(),
            PieceHandle::Queen(fsm) => fsm.site(),
            PieceHandle::King(fsm) => fsm.site(),
        }
    }

    /// The handle as its state hook leaves it.
    pub open spec fn after_update(&self) -> PieceHandle {
        match self {
            PieceHandle::Pawn(fsm) => PieceHandle::Pawn(fsm.after_update()),
            PieceHandle::Rook(fsm) => PieceHandle::Rook(fsm.after_update()),
            PieceHandle::Knight(fsm) => PieceHandle::Knight(fsm.after_update()),
            PieceHandle::Bishop(fsm) => PieceHandle::Bishop(fsm.after_update()),
            PieceHandle::Queen(fsm) => PieceHandle::Queen(fsm.after_update()),
            PieceHandle::King(fsm) => PieceHandle::King(fsm.after_update()),
        }
    }

    /// The handle that [`PieceHandle::new`] builds: of the variant that goes
    /// with the kind of `piece`.
    pub open spec fn made(piece: Piece, position: Position) -> PieceHandle {
        match piece.kind {
            PieceType::Pawn => PieceHandle::Pawn(PawnFSM { piece, position }),
            PieceType::Rook => PieceHandle::Rook(RookFSM { piece, position }),
            PieceType::Knight => PieceHandle::Knight(KnightFSM { piece, position }),
            PieceType::Bishop => PieceHandle::Bishop(BishopFSM { piece, position }),
            PieceType::Queen => PieceHandle::Queen(QueenFSM { piece, position }),
            PieceType::King => PieceHandle::King(KingFSM { piece, position }),
        }
    }

    /// A handle for `piece`, last seen on `position`.
    pub fn new(piece: Piece, position: Position) -> (handle: PieceHandle)
        ensures
            handle == PieceHandle::made(piece, position),
            handle.held() == piece,
            handle.site() == position,
    {
        match piece.kind {
            PieceType::Pawn => PieceHandle::Pawn(PawnFSM::new(piece, position)),
            PieceType::Rook => PieceHandle::Rook(RookFSM::new(piece, position)),
            PieceType::Knight => PieceHandle::Knight(KnightFSM::new(piece, position)),
            PieceType::Bishop => PieceHandle::Bishop(BishopFSM::new(piece, position)),
            PieceType::Queen => PieceHandle::Queen(QueenFSM::new(piece, position)),
            PieceType::King => PieceHandle::King(KingFSM::new(piece, position)),
        }
    }

    /// Runs the state hook of the handle's kind.
    pub fn update_state(&mut self)
        ensures
            *final(self) == old(self).after_update(),
    {
        match self {
            PieceHandle::Pawn(fsm) => fsm.update_state(),
            PieceHandle::Rook(fsm) => fsm.update_state(),
            PieceHandle::Knight(fsm) => fsm.update_state(),
            PieceHandle::Bishop(fsm) => fsm.update_state(),
            PieceHandle::Queen(fsm) => fsm.update_state(),
            PieceHandle::King(fsm) => fsm.update_state(),
        }
    }

    /// The piece as the handle knows it.
    pub fn piece(&self) -> (piece: Piece)
        ensures
            piece == self.held(),
    {
        match self {
            PieceHandle::Pawn(fsm) => *fsm.piece(),
            PieceHandle::Rook(fsm) => *fsm.piece(),
            PieceHandle::Knight(fsm) => *fsm.piece(),
            PieceHandle::Bishop(fsm) => *fsm.piece(),
            PieceHandle::Queen(fsm) => *fsm.piece(),
            PieceHandle::King(fsm) => *fsm.piece(),
        }
    }

    /// The square on which the handle last knew its piece.
    pub fn position(&self) -> (position: Position)
        ensures
            position == self.site(),
    {
        match self {
            PieceHandle::Pawn(fsm) => fsm.position,
            PieceHandle::Rook(fsm) => fsm.position,
            PieceHandle::Knight(fsm) => fsm.position,
            PieceHandle::Bishop(fsm) => fsm.position,
            PieceHandle::Queen(fsm) => fsm.position,
            PieceHandle::King(fsm) => fsm.position,
        }
    }

    /// The state hook of every kind keeps the identity of the piece and the
    /// position of the handle.
    pub proof fn lemma_update_keeps_identity(&self)
        ensures
            self.after_update().held().id == self.held().id,
            self.after_update().site() == self.site(),
    {
    }
}

/// No two handles of `entries` hold pieces of one identity.
pub open spec fn distinct_ids(entries: Seq<PieceHandle>) -> bool {
    forall|i: int, j: int|
        0 <= i < j < entries.len() ==> (#[trigger] entries[i]).held().id != (
        #[trigger] entries[j]).held().id
}

/// `i` is the place in `entries` of the handle that holds identity `id`.
pub open spec fn is_slot(entries: Seq<PieceHandle>, id: PieceId, i: int) -> bool {
    0 <= i < entries.len() && entries[i].held().id == id
}

/// The entries after `piece` has been registered on `position`: its handle
/// takes the place of the handle that held its identity, or comes last if
/// there was none.
pub open spec fn registered(entries: Seq<PieceHandle>, piece: Piece, position: Position) -> Seq<
    PieceHandle,
> {
    if exists|i: int| is_slot(entries, piece.id, i) {
        entries.update(
            choose|i: int| is_slot(entries, piece.id, i),
            PieceHandle::made(piece, position),
        )
    } else {
        entries.push(PieceHandle::made(piece, position))
    }
}

/// The entries after the pieces on the first `n` squares of `g`, counted row
/// by row, have been registered one after the other.
pub open spec fn registered_squares(entries: Seq<PieceHandle>, g: Grid, n: nat) -> Seq<PieceHandle>
    decreases n,
{
    if n == 0 {
        entries
    } else {
        let earlier = registered_squares(entries, g, (n - 1) as nat);
        match piece_at(g, nth_square(n - 1)) {
            Some(piece) => registered(earlier, piece, nth_square(n - 1)),
            None => earlier,
        }
    }
}

/// The grid after the tick of one handle: where the state hook changed the
/// handle's piece, and the square that the handle names is on the board and
/// holds a piece, that square now holds the changed piece. Anything else
/// leaves the grid as it is.
pub open spec fn written_back(g: Grid, handle: PieceHandle) -> Grid {
    let after = handle.after_update();
    if after.held() != handle.held() && after.site().valid() && piece_at(g, after.site()) is Some {
        with_piece(g, after.site(), Some(after.held()))
    } else {
        g
    }
}

/// The grid after the tick of the first `n` handles of `entries`, in their
/// order.
pub open spec fn ticked(g: Grid, entries: Seq<PieceHandle>, n: nat) -> Grid
    decreases n,
{
    if n == 0 {
        g
    } else {
        written_back(ticked(g, entries, (n - 1) as nat), entries[n - 1])
    }
}

/// As long as no kind's state hook changes its piece, a tick leaves the grid
/// as it is.
pub proof fn lemma_tick_keeps_grid(g: Grid, entries: Seq<PieceHandle>, n: nat)
    requires
        n <= entries.len(),
    ensures
        ticked(g, entries, n) == g,
    decreases n,
{
    if n > 0 {
        lemma_tick_keeps_grid(g, entries, (n - 1) as nat);
    }
}

/// The registry: the handles of the registered pieces, in the order in which
/// their identities were first registered.
pub struct GameStateManager {
    entries: Vec<PieceHandle>,
}

impl View for GameStateManager {
    type V = Seq<PieceHandle>;

    closed spec fn view(&self) -> Seq<PieceHandle> {
        self.entries@
    }
}

impl GameStateManager {
    /// The registry holds no two handles for one identity. Every registry
    /// that [`GameStateManager::new`] made is well formed, and stays so.
    pub open spec fn wf(&self) -> bool {
        distinct_ids(self@)
    }

    /// An empty registry.
    pub fn new() -> (manager: Self)
        ensures
            manager@ == Seq::<PieceHandle>::empty(),
            manager.wf(),
    {
        Self { entries: Vec::new() }
    }

    /// Number of registered pieces.
    pub fn len(&self) -> (n: usize)
        ensures
            n == self@.len(),
    {
        self.entries.len()
    }

    /// The place of the handle that holds identity `id`, if one does.
    fn find(&self, id: PieceId) -> (slot: Option<usize>)
        ensures
            match slot {
                Some(i) => is_slot(self@, id, i as int),
                None => forall|i: int| !is_slot(self@, id, i),
            },
    {
        let mut i: usize = 0;
        while i < self.entries.len()
            invariant
                i <= self.entries.len(),
                forall|j: int| 0 <= j < i ==> !is_slot(self.entries@, id, j),
            decreases self.entries.len() - i,
        {
            if self.entries[i].piece().id == id {
                return Some(i);
            }
            i += 1;
        }
        None
    }

    /// The piece registered under `id`, as its handle knows it.
    pub fn piece_of(&self, id: PieceId) -> (piece: Option<Piece>)
        ensures
            match piece {
                Some(p) => exists|i: int| is_slot(self@, id, i) && self@[i].held() == p,
                None => forall|i: int| !is_slot(self@, id, i),
            },
    {
        match self.find(id) {
            Some(i) => Some(self.entries[i].piece()),
            None => None,
        }
    }

    /// The square on which the piece registered under `id` was last known to
    /// stand.
    pub fn position_of(&self, id: PieceId) -> (position: Option<Position>)
        ensures
            match position {
                Some(p) => exists|i: int| is_slot(self@, id, i) && self@[i].site() == p,
                None => forall|i: int| !is_slot(self@, id, i),
            },
    {
        match self.find(id) {
            Some(i) => Some(self.entries[i].position()),
            None => None,
        }
    }

    /// Registers `piece` as standing on `pos`. A piece registered before
    /// under the same identity is replaced and keeps its place; a new one
    /// comes last.
    pub fn register_piece(&mut self, piece: Piece, pos: Position)
        requires
            old(self).wf(),
        ensures
            final(self)@ == registered(old(self)@, piece, pos),
            final(self).wf(),
    {
        let handle = PieceHandle::new(piece, pos);
        match self.find(piece.id) {
            Some(i) => {
                proof {
                    let chosen = choose|j: int| is_slot(self@, piece.id, j);
                    assert(is_slot(self@, piece.id, i as int));
                    assert(chosen == i);
                }
                self.entries[i] = handle;
                assert forall|a: int, b: int| 0 <= a < b < self@.len() implies (
                #[trigger] self@[a]).held().id != (#[trigger] self@[b]).held().id by {
                    assert(old(self)@[a].held().id != old(self)@[b].held().id);
                }
            },
            None => {
                self.entries.push(handle);
                assert forall|a: int, b: int| 0 <= a < b < self@.len() implies (
                #[trigger] self@[a]).held().id != (#[trigger] self@[b]).held().id by {
                    assert(!is_slot(old(self)@, piece.id, a));
                    if b < old(self)@.len() {
                        assert(old(self)@[a].held().id != old(self)@[b].held().id);
                    }
                }
            },
        }
    }

    /// Registers every piece on `board` on the square it stands on, row by
    /// row. The board is only read.
    pub fn register_all_pieces(&mut self, board: &mut Board)
        requires
            old(self).wf(),
        ensures
            *final(board) == *old(board),
            final(self)@ == registered_squares(old(self)@, grid_of(*old(board)), 64),
            final(self).wf(),
    {
        let ghost g = grid_of(*board);
        let ghost start = self@;
        let mut row: usize = 0;
        while row < BOARD_SIZE
            invariant
                row <= 8,
                *board == *old(board),
                g == grid_of(*board),
                self@ == registered_squares(start, g, (row * 8) as nat),
                self.wf(),
            decreases 8 - row,
        {
            let mut col: usize = 0;
            while col < BOARD_SIZE
                invariant
                    row < 8,
                    col <= 8,
                    *board == *old(board),
                    g == grid_of(*board),
                    self@ == registered_squares(start, g, (row * 8 + col) as nat),
                    self.wf(),
                decreases 8 - col,
            {
                assert(nth_square(row * 8 + col) == (Position { row, col }));
                if let Some(piece) = board[row][col].piece {
                    self.register_piece(piece, Position { row, col });
                }
                col += 1;
            }
            row += 1;
        }
    }

    /// Ticks the registry: runs the state hook of every handle, in the order
    /// of registration, and writes to `board` each piece that its hook
    /// changed, on the square that the handle names, provided that square
    /// still holds a piece.
    pub fn update_all_fsm(&mut self, board: &mut Board)
        requires
            old(self).wf(),
        ensures
            final(self)@.len() == old(self)@.len(),
            forall|i: int|
                0 <= i < old(self)@.len() ==> #[trigger] final(self)@[i] == old(
                    self,
                )@[i].after_update(),
            grid_of(*final(board)) == ticked(grid_of(*old(board)), old(self)@, old(self)@.len()),
            final(self).wf(),
    {
        let ghost start = self@;
        let ghost g = grid_of(*board);
        let mut i: usize = 0;
        while i < self.entries.len()
            invariant
                i <= self.entries.len(),
                self@.len() == start.len(),
                distinct_ids(start),
                forall|j: int| 0 <= j < i ==> #[trigger] self@[j] == start[j].after_update(),
                forall|j: int| i <= j < start.len() ==> #[trigger] self@[j] == start[j],
                grid_of(*board) == ticked(g, start, i as nat),
            decreases self.entries.len() - i,
        {
            let before = self.entries[i].piece();
            let mut handle = self.entries[i];
            handle.update_state();
            let after = handle.piece();
            let pos = handle.position();
            self.entries[i] = handle;
            if after != before && pos.is_valid() {
                if board[pos.row][pos.col].piece.is_some() {
                    board[pos.row][pos.col].piece = Some(after);
                    assert(grid_of(*board) =~~= ticked(g, start, (i + 1) as nat));
                }
            }
            i += 1;
        }
        proof {
            assert forall|a: int, b: int| 0 <= a < b < self@.len() implies (
            #[trigger] self@[a]).held().id != (#[trigger] self@[b]).held().id by {
                start[a].lemma_update_keeps_identity();
                start[b].lemma_update_keeps_identity();
            }
        }
    }
}

} // verus!
