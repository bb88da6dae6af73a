//! The game: positions, the state machine and the rules of movement.

pub mod laws;
pub mod listing;
pub mod moves;
pub mod rules;
pub mod state_machine;

use crate::board::{grid_of, Board, Grid};
use crate::config::BOARD_SIZE;
use crate::game::moves::generation::get_piece_moves;
use crate::game::moves::lists::{contains_position, extend_moves};
use crate::game::listing::{
    all_legal_list, legal_list, lemma_all_legal_list, lemma_legal_list, lemma_no_piece_no_moves,
    lemma_ray_blocked, lemma_ray_bound, lemma_ray_listing, lemma_ray_next, lemma_ray_open,
    nth_square, slide_list,
};
use crate::game::rules::{
    after_move, can_land, checkmated, has_legal_move, in_check, is_king, king_position,
    leaves_in_check, legal, lemma_pseudo_legal_target, pseudo_legal, ray_clear, ray_free,
    ray_on_board, ray_reaches, ray_square, result_for, shifted, slide_move, stalemated,
};
use crate::pieces::{Color, PieceType};
use vstd::prelude::*;

verus! {

/// A coordinate of the board. A position is valid when both its row and its
/// column are below the board's dimension.
#[derive(Clone, Copy, Debug, PartialEq, Eq, Hash, Structural)]
pub struct Position {
    pub row: usize,
    pub col: usize,
}

impl Position {
    /// Both coordinates name a row and a column of the board.
    pub open spec fn valid(self) -> bool {
        self.row < 8 && self.col < 8
    }

    /// The position `(row, col)`, if it lies on the board.
    pub fn new(row: usize, col: usize) -> (p: Option<Position>)
        ensures
            p == (if row < 8 && col < 8 {
                Some(Position { row, col })
            } else {
                None
            }),
    {
        if row < BOARD_SIZE && col < BOARD_SIZE {
            Some(Position { row, col })
        } else {
            None
        }
    }

    /// Whether the position lies on the board.
    pub fn is_valid(&self) -> (b: bool)
        ensures
            b == self.valid(),
    {
        self.row < BOARD_SIZE && self.col < BOARD_SIZE
    }
}

/// Why a move was refused.
#[derive(Debug, Clone, Copy, PartialEq, Eq, Structural)]
pub enum MoveError {
    /// The destination is not among the legal moves of the piece.
    IllegalMove,
    /// No piece stands on the square to move from. [`Game::make_move`] counts
    /// such a move among the illegal ones and does not report it apart.
    NoPieceAtPosition,
    /// A coordinate lies outside the board.
    InvalidPosition,
    /// The move would leave the mover's own king attacked. No such move is
    /// legal, so [`Game::make_move`] reports it as illegal.
    MustGetOutOfCheck,
    /// The game has already ended.
    GameNotInProgress,
}

/// How the game stands.
#[derive(Debug, Clone, Copy, PartialEq, Eq, Structural)]
pub enum GameResult {
    /// The game is won by the given side.
    Checkmate(Color),
    Stalemate,
    InProgress,
}

/// A game: the board, the side to move and the result so far.
pub struct Game {
    pub board: Board,
    pub current_turn: Color,
    pub result: GameResult,
}

impl Game {
    /// The board as contracts see it.
    pub open spec fn grid(&self) -> Grid {
        grid_of(self.board)
    }

    /// A game on `board` with White to move.
    pub fn new(board: Board) -> (game: Game)
        ensures
            game.board == board,
            game.current_turn == Color::White,
            game.result == GameResult::InProgress,
    {
        Game { board, current_turn: Color::White, result: GameResult::InProgress }
    }

    /// Why [`Game::make_move`] refuses the move from `from` to `to`, if it
    /// does: the game is over; else a coordinate lies off the board; else the
    /// move is not legal for the side to move.
    pub open spec fn refusal(&self, from: Position, to: Position) -> Option<MoveError> {
        if self.result != GameResult::InProgress {
            Some(MoveError::GameNotInProgress)
        } else if !from.valid() || !to.valid() {
            Some(MoveError::InvalidPosition)
        } else if !legal(self.grid(), from, self.current_turn, to) {
            Some(MoveError::IllegalMove)
        } else {
            None
        }
    }

    /// Plays the move from `from` to `to` for the side to move.
    ///
    /// A refused move leaves the game as it was. A legal move in a game in
    /// progress is carried out: the piece goes to `to`, capturing what stood
    /// there; the move passes to the other side; and the game is judged for
    /// that side, which has lost if it is checkmated, and has drawn if it is
    /// stalemated. Gates are not counted down here.
    pub fn make_move(&mut self, from: Position, to: Position) -> (outcome: Result<(), MoveError>)
        ensures
            match old(self).refusal(from, to) {
                Some(error) => outcome == Err::<(), MoveError>(error) && *final(self) == *old(self),
                None => {
                    &&& outcome is Ok
                    &&& final(self).grid() == after_move(old(self).grid(), from, to)
                    &&& final(self).current_turn == old(self).current_turn.other()
                    &&& final(self).result == result_for(
                        final(self).grid(),
                        final(self).current_turn,
                        GameResult::InProgress,
                    )
                },
            },
    {
        if self.result != GameResult::InProgress {
            return Err(MoveError::GameNotInProgress);
        }
        if !from.is_valid() || !to.is_valid() {
            return Err(MoveError::InvalidPosition);
        }
        let legal_moves = self.get_legal_moves(from);
        if !contains_position(&legal_moves, to) {
            return Err(MoveError::IllegalMove);
        }
        // A second line of defence: no legal move leaves the mover's king
        // attacked, so this never returns.
        if self.leaves_king_in_check(from, to, self.current_turn) {
            return Err(MoveError::MustGetOutOfCheck);
        }
        self.make_move_unchecked(from, to);
        self.switch_turn();

        self.check_game_result();

        Ok(())
    }

    /// Carries the piece on `from` over to `to`, whatever the rules say of
    /// it: `from` is left empty and what stood on `to` is gone.
    pub(crate) fn make_move_unchecked(&mut self, from: Position, to: Position)
        requires
            from.valid(),
            to.valid(),
        ensures
            final(self).grid() == after_move(old(self).grid(), from, to),
            final(self).current_turn == old(self).current_turn,
            final(self).result == old(self).result,
    {
        let moving = self.board[from.row][from.col].piece;
        self.board[from.row][from.col].piece = None;
        self.board[to.row][to.col].piece = moving;
        assert(self.grid() =~~= after_move(old(self).grid(), from, to));
    }

    /// Hands the move to the other side.
    pub fn switch_turn(&mut self)
        ensures
            final(self).current_turn == old(self).current_turn.other(),
            final(self).board == old(self).board,
            final(self).result == old(self).result,
    {
        self.current_turn = match self.current_turn {
            Color::White => Color::Black,
            Color::Black => Color::White,
        };
    }

    /// The square of the king of `color`: the first one, row by row, that
    /// holds such a king; `None` if there is none.
    pub(crate) fn find_king(&self, color: Color) -> (king: Option<Position>)
        ensures
            match king {
                Some(p) => king_position(self.grid(), color, p),
                None => forall|q: Position| !is_king(self.grid(), q, color),
            },
    {
        let mut row: usize = 0;
        while row < BOARD_SIZE
            invariant
                row <= 8,
                forall|q: Position|
                    q.row < row ==> !#[trigger] is_king(self.grid(), q, color),
            decreases 8 - row,
        {
            let mut col: usize = 0;
            while col < BOARD_SIZE
                invariant
                    row < 8,
                    col <= 8,
                    forall|q: Position|
                        q.row < row || (q.row == row && q.col < col) ==> !#[trigger] is_king(
                            self.grid(),
                            q,
                            color,
                        ),
                decreases 8 - col,
            {
                if let Some(piece) = self.board[row][col].piece {
                    if piece.kind == PieceType::King && piece.color == color {
                        return Some(Position { row, col });
                    }
                }
                col += 1;
            }
            row += 1;
        }
        None
    }

    /// Whether the king of `color` is attacked: whether some opposing piece
    /// has a pseudo-legal move onto the king's square. A side without a king
    /// is not in check.
    pub fn is_king_in_check(&self, color: Color) -> (attacked: bool)
        ensures
            attacked == in_check(self.grid(), color),
    {
        let king_pos = match self.find_king(color) {
            Some(p) => p,
            None => {
                return false;
            },
        };
        let opponent_color = match color {
            Color::White => Color::Black,
            Color::Black => Color::White,
        };
        let ghost g = self.grid();
        assert forall|k: Position| king_position(g, color, k) implies k == king_pos by {
            assert(is_king(g, k, color));
            assert(is_king(g, king_pos, color));
        }

        let mut row: usize = 0;
        while row < BOARD_SIZE
            invariant
                row <= 8,
                g == self.grid(),
                opponent_color == color.other(),
                king_position(g, color, king_pos),
                forall|a: Position|
                    a.row < row ==> !#[trigger] pseudo_legal(g, a, opponent_color, king_pos),
            decreases 8 - row,
        {
            let mut col: usize = 0;
            while col < BOARD_SIZE
                invariant
                    row < 8,
                    col <= 8,
                    g == self.grid(),
                    opponent_color == color.other(),
                    king_position(g, color, king_pos),
                    forall|a: Position|
                        a.row < row || (a.row == row && a.col < col) ==> !#[trigger] pseudo_legal(
                            g,
                            a,
                            opponent_color,
                            king_pos,
                        ),
                decreases 8 - col,
            {
                if let Some(piece) = self.board[row][col].piece {
                    if piece.color == opponent_color {
                        let pos = Position { row, col };
                        let moves = get_piece_moves(self, pos, opponent_color);
                        if contains_position(&moves, king_pos) {
                            assert(pseudo_legal(g, pos, color.other(), king_pos));
                            return true;
                        }
                    }
                }
                col += 1;
            }
            row += 1;
        }
        false
    }

    /// The legal destinations of the piece on `pos`, each once: its
    /// pseudo-legal moves, less those that would leave its own king attacked.
    /// Empty where `pos` is off the board, holds no piece, or holds a piece
    /// of the side that is not to move. No destination is `pos` itself, and
    /// all lie on the board. They come in the order in which the
    /// pseudo-legal moves are listed.
    pub fn get_legal_moves(&self, pos: Position) -> (moves: Vec<Position>)
        ensures
            forall|p: Position|
                #[trigger] moves@.contains(p) <==> legal(self.grid(), pos, self.current_turn, p),
            moves@.no_duplicates(),
            forall|i: int|
                0 <= i < moves.len() ==> (#[trigger] moves[i]).valid() && moves[i] != pos,
            forall|i: int|
                0 <= i < moves.len() ==> !leaves_in_check(
                    self.grid(),
                    pos,
                    #[trigger] moves[i],
                    self.current_turn,
                ),
            moves@ == legal_list(self.grid(), pos, self.current_turn),
    {
        if pos.is_valid() {
            if let Some(piece) = self.board[pos.row][pos.col].piece {
                if piece.color == self.current_turn {
                    return self.legal_moves_of(pos, piece.color);
                }
            }
        }
        proof {
            lemma_no_piece_no_moves(self.grid(), pos, self.current_turn);
            lemma_legal_list(self.grid(), pos, self.current_turn);
        }
        Vec::new()
    }

    /// The legal destinations of the piece of `color` on `pos`, whoever is to
    /// move.
    fn legal_moves_of(&self, pos: Position, color: Color) -> (moves: Vec<Position>)
        requires
            pos.valid(),
        ensures
            forall|p: Position|
                #[trigger] moves@.contains(p) <==> legal(self.grid(), pos, color, p),
            moves@.no_duplicates(),
            forall|i: int|
                0 <= i < moves.len() ==> (#[trigger] moves[i]).valid() && moves[i] != pos,
            forall|i: int|
                0 <= i < moves.len() ==> !leaves_in_check(
                    self.grid(),
                    pos,
                    #[trigger] moves[i],
                    color,
                ),
            moves@ == legal_list(self.grid(), pos, color),
    {
        let candidates = get_piece_moves(self, pos, color);
        proof {
            assert forall|i: int| 0 <= i < candidates.len() implies (
            #[trigger] candidates[i]).valid() by {
                assert(candidates@.contains(candidates[i]));
                lemma_pseudo_legal_target(self.grid(), pos, color, candidates[i]);
            }
        }
        let moves = self.retain_safe(pos, candidates, color);
        proof {
            lemma_legal_list(self.grid(), pos, color);
            assert forall|i: int| 0 <= i < moves.len() implies (#[trigger] moves[i]).valid()
                && moves[i] != pos && !leaves_in_check(self.grid(), pos, moves[i], color) by {
                assert(moves@.contains(moves[i]));
                lemma_pseudo_legal_target(self.grid(), pos, color, moves[i]);
            }
        }
        moves
    }

    /// The destinations of all legal moves of `color`: square after square,
    /// row by row, the legal moves of the piece that stands there. A square
    /// that several pieces may move to occurs once for each of them.
    pub fn get_all_legal_moves(&self, color: Color) -> (all_moves: Vec<Position>)
        ensures
            forall|p: Position|
                #[trigger] all_moves@.contains(p) <==> (exists|from: Position| #[trigger]
                    legal(self.grid(), from, color, p)),
            all_moves.len() == 0 <==> !has_legal_move(self.grid(), color),
            all_moves@ == all_legal_list(self.grid(), color, 64),
    {
        let mut all_moves: Vec<Position> = Vec::new();
        let ghost g = self.grid();
        let mut row: usize = 0;
        while row < BOARD_SIZE
            invariant
                row <= 8,
                g == self.grid(),
                all_moves@ == all_legal_list(g, color, (row * 8) as nat),
            decreases 8 - row,
        {
            let mut col: usize = 0;
            while col < BOARD_SIZE
                invariant
                    row < 8,
                    col <= 8,
                    g == self.grid(),
                    all_moves@ == all_legal_list(g, color, (row * 8 + col) as nat),
                decreases 8 - col,
            {
                let pos = Position { row, col };
                assert(nth_square(row * 8 + col) == pos);
                let mut extended = false;
                if let Some(piece) = self.board[row][col].piece {
                    if piece.color == color {
                        let moves = self.legal_moves_of(pos, color);
                        extend_moves(&mut all_moves, moves);
                        extended = true;
                    }
                }
                proof {
                    if !extended {
                        lemma_no_piece_no_moves(g, pos, color);
                        assert(all_moves@ + legal_list(g, pos, color) =~= all_moves@);
                    }
                }
                col += 1;
            }
            row += 1;
        }
        proof {
            lemma_all_legal_list(g, color);
        }
        all_moves
    }

    /// Whether `color` is checkmated: its king is attacked and it has no
    /// legal move.
    pub fn is_checkmate(&self, color: Color) -> (mated: bool)
        ensures
            mated == checkmated(self.grid(), color),
            mated ==> !stalemated(self.grid(), color),
    {
        self.is_king_in_check(color) && self.get_all_legal_moves(color).len() == 0
    }

    /// Whether `color` is stalemated: its king is not attacked, yet it has no
    /// legal move.
    pub fn is_stalemate(&self, color: Color) -> (stuck: bool)
        ensures
            stuck == stalemated(self.grid(), color),
            stuck ==> !checkmated(self.grid(), color),
    {
        !self.is_king_in_check(color) && self.get_all_legal_moves(color).len() == 0
    }

    /// Judges the position for the side to move: the game is lost by that
    /// side if it is checkmated, drawn if it is stalemated, and else stands
    /// as it stood.
    pub fn check_game_result(&mut self)
        ensures
            final(self).result == result_for(
                old(self).grid(),
                old(self).current_turn,
                old(self).result,
            ),
            final(self).board == old(self).board,
            final(self).current_turn == old(self).current_turn,
    {
        let to_move = self.current_turn;
        if self.is_checkmate(to_move) {
            self.result = GameResult::Checkmate(to_move.opponent());
        } else if self.is_stalemate(to_move) {
            self.result = GameResult::Stalemate;
        }
    }

    /// The position `dr` rows and `dc` columns from `pos`, or `None` where
    /// that would leave the board. Nothing wraps round an edge.
    pub(crate) fn apply_offset(&self, pos: Position, dr: i32, dc: i32) -> (target: Option<
        Position,
    >)
        ensures
            target == shifted(pos, dr as int, dc as int),
    {
        let new_row: i128 = pos.row as i128 + dr as i128;
        let new_col: i128 = pos.col as i128 + dc as i128;
        if new_row >= 0 && new_row < BOARD_SIZE as i128 && new_col >= 0 && new_col
            < BOARD_SIZE as i128 {
            Some(Position { row: new_row as usize, col: new_col as usize })
        } else {
            None
        }
    }

    /// Whether a piece of `color` may end its move on `pos`: the square is
    /// empty or holds an opposing piece.
    pub(crate) fn can_move_to(&self, pos: Position, color: Color) -> (open: bool)
        requires
            pos.valid(),
        ensures
            open == can_land(self.grid(), pos, color),
    {
        if let Some(piece) = self.board[pos.row][pos.col].piece {
            piece.color != color
        } else {
            true
        }
    }

    /// The squares that a sliding piece of `color` on `pos` reaches in
    /// direction `(dr, dc)`, nearest first: the empty squares up to the first
    /// occupied one or the edge, and that occupied square too where it holds
    /// an opposing piece.
    pub(crate) fn slide_in_direction(
        &self,
        pos: Position,
        dr: i32,
        dc: i32,
        color: Color,
    ) -> (moves: Vec<Position>)
        requires
            pos.valid(),
            dr != 0 || dc != 0,
        ensures
            forall|i: int|
                0 <= i < moves.len() ==> moves[i] == ray_square(pos, dr as int, dc as int, i + 1),
            forall|k: int|
                1 <= k ==> (#[trigger] ray_reaches(self.grid(), pos, dr as int, dc as int, color, k)
                    <==> k <= moves.len()),
            forall|p: Position|
                #[trigger] moves@.contains(p) <==> slide_move(
                    self.grid(),
                    pos,
                    dr as int,
                    dc as int,
                    color,
                    p,
                ),
            moves@.no_duplicates(),
            moves@ == slide_list(self.grid(), pos, dr as int, dc as int, color),
    {
        let mut moves: Vec<Position> = Vec::new();
        let mut current = pos;
        let ghost g = self.grid();
        proof {
            lemma_ray_next(pos, dr as int, dc as int, 0);
        }
        loop
            invariant_except_break
                current.valid(),
                ray_on_board(pos, dr as int, dc as int, moves.len() as int),
                current == ray_square(pos, dr as int, dc as int, moves.len() as int),
                ray_clear(g, pos, dr as int, dc as int, moves.len() as int),
            invariant
                pos.valid(),
                dr != 0 || dc != 0,
                g == self.grid(),
                moves.len() <= 7,
                forall|i: int|
                    0 <= i < moves.len() ==> moves[i] == ray_square(
                        pos,
                        dr as int,
                        dc as int,
                        i + 1,
                    ),
            ensures
                forall|k: int|
                    1 <= k ==> (#[trigger] ray_reaches(g, pos, dr as int, dc as int, color, k)
                        <==> k <= moves.len()),
            decreases 8 - moves.len(),
        {
            let ghost n = moves.len() as int;
            proof {
                lemma_ray_next(pos, dr as int, dc as int, n);
            }
            match self.apply_offset(current, dr, dc) {
                Some(next) => {
                    proof {
                        lemma_ray_bound(pos, dr as int, dc as int, n + 1);
                    }
                    match self.board[next.row][next.col].piece {
                        Some(piece) => {
                            if piece.color != color {
                                moves.push(next);
                            }
                            proof {
                                assert forall|k: int| 1 <= k implies (#[trigger] ray_reaches(
                                    g,
                                    pos,
                                    dr as int,
                                    dc as int,
                                    color,
                                    k,
                                ) <==> k <= moves.len()) by {
                                    if k <= n {
                                        lemma_ray_open(g, pos, dr as int, dc as int, color, n, k);
                                    } else if k > n + 1 {
                                        lemma_ray_blocked(
                                            g,
                                            pos,
                                            dr as int,
                                            dc as int,
                                            color,
                                            n,
                                            k,
                                        );
                                    }
                                }
                            }
                            break ;
                        },
                        None => {
                            moves.push(next);
                            current = next;
                            assert(ray_free(g, pos, dr as int, dc as int, n + 1));
                        },
                    }
                },
                None => {
                    proof {
                        assert forall|k: int| 1 <= k implies (#[trigger] ray_reaches(
                            g,
                            pos,
                            dr as int,
                            dc as int,
                            color,
                            k,
                        ) <==> k <= moves.len()) by {
                            if k <= n {
                                lemma_ray_open(g, pos, dr as int, dc as int, color, n, k);
                            } else if k > n + 1 {
                                lemma_ray_blocked(g, pos, dr as int, dc as int, color, n, k);
                            }
                        }
                    }
                    break ;
                },
            }
        }
        proof {
            lemma_ray_listing(g, pos, dr as int, dc as int, color, moves@);
        }
        moves
    }
}

} // verus!
