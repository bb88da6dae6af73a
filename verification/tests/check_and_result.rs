use gated_chess::board::{create_board, Board, Square};
use gated_chess::game::{Game, GameResult, MoveError, Position};
use gated_chess::pieces::{Color, Piece, PieceId, PieceType};

fn empty_board_cr() -> Board {
    [[Square::new(); 8]; 8]
}

fn put_cr(board: &mut Board, row: usize, col: usize, kind: PieceType, color: Color) {
    let id = PieceId::new((row * 8 + col) as u32);
    board[row][col].piece = Some(Piece::new(id, kind, color));
}

fn pos_cr(row: usize, col: usize) -> Position {
    Position { row, col }
}

fn sorted_cr(mut moves: Vec<Position>) -> Vec<(usize, usize)> {
    moves.sort_by_key(|p| (p.row, p.col));
    moves.into_iter().map(|p| (p.row, p.col)).collect()
}

#[test]
fn nobody_is_mated_at_the_start() {
    let game = Game::new(create_board());
    assert!(!game.is_checkmate(Color::White));
    assert!(!game.is_checkmate(Color::Black));
    assert!(!game.is_stalemate(Color::White));
    assert!(!game.is_stalemate(Color::Black));
    assert_eq!(game.get_all_legal_moves(Color::White).len(), 20);
    assert_eq!(game.get_all_legal_moves(Color::Black).len(), 20);
}

#[test]
fn legal_moves_at_the_start() {
    let game = Game::new(create_board());
    assert_eq!(sorted_cr(game.get_legal_moves(pos_cr(0, 1))), vec![(2, 0), (2, 2)]);
    assert_eq!(sorted_cr(game.get_legal_moves(pos_cr(1, 0))), vec![(2, 0), (3, 0)]);
    assert!(game.get_legal_moves(pos_cr(0, 0)).is_empty());
    assert!(game.get_legal_moves(pos_cr(0, 4)).is_empty());
    assert!(game.get_legal_moves(pos_cr(3, 3)).is_empty());
    assert!(game.get_legal_moves(pos_cr(6, 0)).is_empty());
}

#[test]
fn pinned_piece_may_not_leave_the_line() {
    let mut board = empty_board_cr();
    put_cr(&mut board, 0, 4, PieceType::King, Color::White);
    put_cr(&mut board, 1, 4, PieceType::Rook, Color::White);
    put_cr(&mut board, 7, 4, PieceType::Rook, Color::Black);
    put_cr(&mut board, 7, 0, PieceType::King, Color::Black);
    let game = Game::new(board);
    assert_eq!(
        sorted_cr(game.get_legal_moves(pos_cr(1, 4))),
        vec![(2, 4), (3, 4), (4, 4), (5, 4), (6, 4), (7, 4)]
    );
}

#[test]
fn king_may_not_step_into_attack() {
    let mut board = empty_board_cr();
    put_cr(&mut board, 0, 0, PieceType::King, Color::White);
    put_cr(&mut board, 7, 1, PieceType::Rook, Color::Black);
    put_cr(&mut board, 7, 7, PieceType::King, Color::Black);
    let game = Game::new(board);
    assert_eq!(sorted_cr(game.get_legal_moves(pos_cr(0, 0))), vec![(1, 0)]);
}

#[test]
fn side_in_check_must_answer_it() {
    let mut board = empty_board_cr();
    put_cr(&mut board, 0, 4, PieceType::King, Color::White);
    put_cr(&mut board, 1, 0, PieceType::Rook, Color::White);
    put_cr(&mut board, 7, 4, PieceType::Rook, Color::Black);
    put_cr(&mut board, 7, 0, PieceType::King, Color::Black);
    let mut game = Game::new(board);
    assert!(!game.is_checkmate(Color::White));
    assert_eq!(sorted_cr(game.get_legal_moves(pos_cr(1, 0))), vec![(1, 4)]);
    assert_eq!(
        sorted_cr(game.get_legal_moves(pos_cr(0, 4))),
        vec![(0, 3), (0, 5), (1, 3), (1, 5)]
    );
    assert_eq!(game.make_move(pos_cr(1, 0), pos_cr(2, 0)), Err(MoveError::IllegalMove));
    assert_eq!(game.make_move(pos_cr(1, 0), pos_cr(1, 4)), Ok(()));
}

#[test]
fn back_rank_mate_is_checkmate() {
    let mut board = empty_board_cr();
    put_cr(&mut board, 0, 6, PieceType::King, Color::White);
    put_cr(&mut board, 1, 5, PieceType::Pawn, Color::White);
    put_cr(&mut board, 1, 6, PieceType::Pawn, Color::White);
    put_cr(&mut board, 1, 7, PieceType::Pawn, Color::White);
    put_cr(&mut board, 7, 0, PieceType::Rook, Color::Black);
    put_cr(&mut board, 7, 7, PieceType::King, Color::Black);
    let mut game = Game::new(board);
    game.switch_turn();
    assert_eq!(game.current_turn, Color::Black);
    assert_eq!(game.make_move(pos_cr(7, 0), pos_cr(0, 0)), Ok(()));
    assert_eq!(game.result, GameResult::Checkmate(Color::Black));
    assert!(game.is_checkmate(Color::White));
    assert!(!game.is_stalemate(Color::White));
    assert!(game.get_all_legal_moves(Color::White).is_empty());
}

#[test]
fn cornered_king_is_stalemated() {
    let mut board = empty_board_cr();
    put_cr(&mut board, 7, 7, PieceType::King, Color::Black);
    put_cr(&mut board, 5, 6, PieceType::King, Color::White);
    put_cr(&mut board, 0, 5, PieceType::Queen, Color::White);
    let mut game = Game::new(board);
    assert_eq!(game.make_move(pos_cr(0, 5), pos_cr(6, 5)), Ok(()));
    assert_eq!(game.result, GameResult::Stalemate);
    assert_eq!(game.current_turn, Color::Black);
    assert!(game.is_stalemate(Color::Black));
    assert!(!game.is_checkmate(Color::Black));
    assert!(game.get_all_legal_moves(Color::Black).is_empty());
    assert_eq!(game.make_move(pos_cr(7, 7), pos_cr(7, 6)), Err(MoveError::GameNotInProgress));
}

#[test]
fn capture_removes_the_captured_piece() {
    let mut board = empty_board_cr();
    put_cr(&mut board, 0, 0, PieceType::King, Color::White);
    put_cr(&mut board, 3, 3, PieceType::Rook, Color::White);
    put_cr(&mut board, 3, 6, PieceType::Knight, Color::Black);
    put_cr(&mut board, 7, 7, PieceType::King, Color::Black);
    let rook = board[3][3].piece.unwrap();
    let mut game = Game::new(board);
    assert_eq!(game.make_move(pos_cr(3, 3), pos_cr(3, 6)), Ok(()));
    assert!(game.board[3][3].piece.is_none());
    assert_eq!(game.board[3][6].piece, Some(rook));
    assert_eq!(game.result, GameResult::InProgress);
}

#[test]
fn moved_piece_keeps_its_identity() {
    let mut game = Game::new(create_board());
    let pawn = game.board[1][4].piece.unwrap();
    assert_eq!(game.make_move(pos_cr(1, 4), pos_cr(3, 4)), Ok(()));
    let moved = game.board[3][4].piece.unwrap();
    assert_eq!(moved.get_id(), pawn.get_id());
    assert_eq!(moved, pawn);
}

#[test]
fn move_leaves_gates_where_they_are() {
    let mut game = Game::new(create_board());
    gated_chess::gates::set_gate(
        &mut game.board[4][4],
        gated_chess::gates::GateType::Standard { duration: 2 },
    );
    gated_chess::gates::set_gate(
        &mut game.board[1][0],
        gated_chess::gates::GateType::Decay { duration: 3 },
    );
    assert_eq!(game.make_move(pos_cr(1, 0), pos_cr(2, 0)), Ok(()));
    assert_eq!(
        game.board[4][4].gate,
        Some(gated_chess::gates::GateType::Standard { duration: 2 })
    );
    assert_eq!(
        game.board[1][0].gate,
        Some(gated_chess::gates::GateType::Decay { duration: 3 })
    );
    assert!(game.board[2][0].gate.is_none());
}

#[test]
fn out_of_range_coordinates_are_refused() {
    let mut game = Game::new(create_board());
    assert_eq!(game.make_move(pos_cr(8, 0), pos_cr(2, 0)), Err(MoveError::InvalidPosition));
    assert_eq!(game.make_move(pos_cr(1, 0), pos_cr(1, 8)), Err(MoveError::InvalidPosition));
    assert_eq!(game.current_turn, Color::White);
    assert_eq!(game.result, GameResult::InProgress);
}

#[test]
fn moving_from_an_empty_square_is_illegal() {
    let mut game = Game::new(create_board());
    assert_eq!(game.make_move(pos_cr(3, 3), pos_cr(4, 3)), Err(MoveError::IllegalMove));
    assert_eq!(game.make_move(pos_cr(1, 3), pos_cr(1, 3)), Err(MoveError::IllegalMove));
    assert_eq!(game.make_move(pos_cr(1, 3), pos_cr(4, 3)), Err(MoveError::IllegalMove));
}

#[test]
fn check_game_result_judges_the_side_to_move() {
    let mut board = empty_board_cr();
    put_cr(&mut board, 0, 6, PieceType::King, Color::White);
    put_cr(&mut board, 1, 5, PieceType::Pawn, Color::White);
    put_cr(&mut board, 1, 6, PieceType::Pawn, Color::White);
    put_cr(&mut board, 1, 7, PieceType::Pawn, Color::White);
    put_cr(&mut board, 0, 0, PieceType::Rook, Color::Black);
    put_cr(&mut board, 7, 7, PieceType::King, Color::Black);
    let mut game = Game::new(board);
    game.check_game_result();
    assert_eq!(game.result, GameResult::Checkmate(Color::Black));

    let mut game = Game::new(create_board());
    game.check_game_result();
    assert_eq!(game.result, GameResult::InProgress);
}

#[test]
fn side_without_a_king_is_never_in_check() {
    let mut board = empty_board_cr();
    put_cr(&mut board, 0, 0, PieceType::Rook, Color::White);
    put_cr(&mut board, 7, 0, PieceType::Rook, Color::Black);
    let game = Game::new(board);
    assert!(!game.is_checkmate(Color::White));
    assert!(!game.is_stalemate(Color::White));
    assert_eq!(game.get_legal_moves(pos_cr(0, 0)).len(), 14);
}

#[test]
fn switch_turn_alternates() {
    let mut game = Game::new(create_board());
    assert_eq!(game.current_turn, Color::White);
    game.switch_turn();
    assert_eq!(game.current_turn, Color::Black);
    game.switch_turn();
    assert_eq!(game.current_turn, Color::White);
    assert_eq!(Color::White.opponent(), Color::Black);
    assert_eq!(Color::Black.opponent(), Color::White);
}

#[test]
fn check_is_seen_from_either_side() {
    let mut board = empty_board_cr();
    put_cr(&mut board, 0, 4, PieceType::King, Color::White);
    put_cr(&mut board, 7, 4, PieceType::Rook, Color::Black);
    put_cr(&mut board, 7, 0, PieceType::King, Color::Black);
    let game = Game::new(board);
    assert!(game.is_king_in_check(Color::White));
    assert!(!game.is_king_in_check(Color::Black));
}

#[test]
fn blocked_line_gives_no_check() {
    let mut board = empty_board_cr();
    put_cr(&mut board, 0, 4, PieceType::King, Color::White);
    put_cr(&mut board, 3, 4, PieceType::Pawn, Color::White);
    put_cr(&mut board, 7, 4, PieceType::Rook, Color::Black);
    put_cr(&mut board, 2, 1, PieceType::Bishop, Color::Black);
    let game = Game::new(board);
    assert!(!game.is_king_in_check(Color::White));
}

#[test]
fn pawn_checks_diagonally_not_straight() {
    let mut board = empty_board_cr();
    put_cr(&mut board, 3, 4, PieceType::King, Color::White);
    put_cr(&mut board, 4, 4, PieceType::Pawn, Color::Black);
    let game = Game::new(board);
    assert!(!game.is_king_in_check(Color::White));

    let mut board = empty_board_cr();
    put_cr(&mut board, 3, 4, PieceType::King, Color::White);
    put_cr(&mut board, 4, 5, PieceType::Pawn, Color::Black);
    let game = Game::new(board);
    assert!(game.is_king_in_check(Color::White));
}

#[test]
fn first_king_row_by_row_is_the_one_that_counts() {
    let mut board = empty_board_cr();
    put_cr(&mut board, 0, 0, PieceType::King, Color::White);
    put_cr(&mut board, 5, 5, PieceType::King, Color::White);
    put_cr(&mut board, 5, 0, PieceType::Rook, Color::Black);
    let game = Game::new(board);
    assert!(game.is_king_in_check(Color::White));

    let mut board = empty_board_cr();
    put_cr(&mut board, 0, 0, PieceType::King, Color::White);
    put_cr(&mut board, 5, 5, PieceType::King, Color::White);
    put_cr(&mut board, 6, 1, PieceType::Rook, Color::Black);
    put_cr(&mut board, 5, 1, PieceType::Rook, Color::Black);
    put_cr(&mut board, 6, 0, PieceType::Pawn, Color::Black);
    put_cr(&mut board, 5, 0, PieceType::Pawn, Color::Black);
    let game = Game::new(board);
    assert!(!game.is_king_in_check(Color::White));
}

#[test]
fn trial_move_leaves_the_game_alone() {
    let mut board = empty_board_cr();
    put_cr(&mut board, 0, 4, PieceType::King, Color::White);
    put_cr(&mut board, 1, 4, PieceType::Rook, Color::White);
    put_cr(&mut board, 7, 4, PieceType::Rook, Color::Black);
    put_cr(&mut board, 7, 0, PieceType::King, Color::Black);
    let game = Game::new(board);
    assert!(game.leaves_king_in_check(pos_cr(1, 4), pos_cr(1, 0), Color::White));
    assert!(!game.leaves_king_in_check(pos_cr(1, 4), pos_cr(4, 4), Color::White));
    assert!(!game.leaves_king_in_check(pos_cr(1, 4), pos_cr(7, 4), Color::White));
    assert!(!game.leaves_king_in_check(pos_cr(1, 4), pos_cr(1, 4), Color::White));
    assert!(game.board[1][4].piece.is_some());
    assert!(game.board[1][0].piece.is_none());
    assert!(game.board[7][4].piece.is_some());
}

#[test]
fn every_legal_move_keeps_the_king_safe() {
    let mut board = empty_board_cr();
    put_cr(&mut board, 0, 4, PieceType::King, Color::White);
    put_cr(&mut board, 1, 4, PieceType::Rook, Color::White);
    put_cr(&mut board, 1, 3, PieceType::Knight, Color::White);
    put_cr(&mut board, 1, 0, PieceType::Pawn, Color::White);
    put_cr(&mut board, 7, 4, PieceType::Rook, Color::Black);
    put_cr(&mut board, 4, 0, PieceType::Bishop, Color::Black);
    put_cr(&mut board, 7, 0, PieceType::King, Color::Black);
    let game = Game::new(board);
    let mut count = 0;
    for row in 0..8 {
        for col in 0..8 {
            for to in game.get_legal_moves(pos_cr(row, col)) {
                assert!(!game.leaves_king_in_check(pos_cr(row, col), to, Color::White));
                count += 1;
            }
        }
    }
    assert_eq!(count, game.get_all_legal_moves(Color::White).len());
    assert!(count > 0);
    assert!(game.get_legal_moves(pos_cr(1, 3)).is_empty());
}

#[test]
fn mate_and_stalemate_never_hold_together() {
    let mut boards: Vec<Board> = Vec::new();
    boards.push(create_board());
    let mut mate = empty_board_cr();
    put_cr(&mut mate, 0, 6, PieceType::King, Color::White);
    put_cr(&mut mate, 1, 5, PieceType::Pawn, Color::White);
    put_cr(&mut mate, 1, 6, PieceType::Pawn, Color::White);
    put_cr(&mut mate, 1, 7, PieceType::Pawn, Color::White);
    put_cr(&mut mate, 0, 0, PieceType::Rook, Color::Black);
    put_cr(&mut mate, 7, 7, PieceType::King, Color::Black);
    boards.push(mate);
    let mut stale = empty_board_cr();
    put_cr(&mut stale, 7, 7, PieceType::King, Color::Black);
    put_cr(&mut stale, 5, 6, PieceType::King, Color::White);
    put_cr(&mut stale, 6, 5, PieceType::Queen, Color::White);
    boards.push(stale);
    for board in boards {
        let game = Game::new(board);
        for color in [Color::White, Color::Black] {
            let mated = game.is_checkmate(color);
            let stuck = game.is_stalemate(color);
            let no_moves = game.get_all_legal_moves(color).is_empty();
            let attacked = game.is_king_in_check(color);
            assert!(!(mated && stuck));
            assert_eq!(mated, no_moves && attacked);
            assert_eq!(stuck, no_moves && !attacked);
        }
    }
}
