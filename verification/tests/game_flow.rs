use gated_chess::board::create_board;
use gated_chess::game::{Game, GameResult, MoveError, Position};
use gated_chess::gates::{set_gate, update_gates, GateType};
use gated_chess::pieces::{Color, PieceType};

fn at(row: usize, col: usize) -> Position {
    Position::new(row, col).unwrap()
}

fn play(game: &mut Game, from: (usize, usize), to: (usize, usize)) {
    assert_eq!(game.make_move(at(from.0, from.1), at(to.0, to.1)), Ok(()));
}

#[test]
fn opening_double_step_succeeds() {
    let mut game = Game::new(create_board());
    assert_eq!(game.make_move(at(1, 4), at(3, 4)), Ok(()));
    assert_eq!(game.result, GameResult::InProgress);
    assert_eq!(game.current_turn, Color::Black);
    assert!(game.board[1][4].piece.is_none());
    let pawn = game.board[3][4].piece.unwrap();
    assert_eq!(pawn.kind, PieceType::Pawn);
    assert_eq!(pawn.color, Color::White);
}

#[test]
fn moving_the_wrong_colour_is_illegal() {
    let mut game = Game::new(create_board());
    assert_eq!(game.make_move(at(6, 4), at(5, 4)), Err(MoveError::IllegalMove));
    assert_eq!(game.current_turn, Color::White);
    assert!(game.board[6][4].piece.is_some());
    assert!(game.board[5][4].piece.is_none());
}

#[test]
fn fools_mate_is_checkmate_for_black() {
    let mut game = Game::new(create_board());
    play(&mut game, (1, 5), (2, 5));
    play(&mut game, (6, 4), (4, 4));
    play(&mut game, (1, 6), (3, 6));
    assert_eq!(game.result, GameResult::InProgress);
    play(&mut game, (7, 3), (3, 7));
    assert_eq!(game.result, GameResult::Checkmate(Color::Black));
    assert_eq!(game.current_turn, Color::White);
    assert!(game.get_all_legal_moves(Color::White).is_empty());
    assert!(game.is_checkmate(Color::White));
    assert!(!game.is_stalemate(Color::White));
    assert!(!game.is_checkmate(Color::Black));
}

#[test]
fn gate_blocks_pawn_until_it_expires() {
    let mut game = Game::new(create_board());
    set_gate(&mut game.board[2][4], GateType::Standard { duration: 1 });
    assert!(game.get_legal_moves(at(1, 4)).is_empty());
    assert_eq!(game.make_move(at(1, 4), at(2, 4)), Err(MoveError::IllegalMove));
    assert_eq!(game.make_move(at(1, 4), at(3, 4)), Err(MoveError::IllegalMove));
    update_gates(&mut game);
    assert!(game.board[2][4].gate.is_none());
    let moves = game.get_legal_moves(at(1, 4));
    assert_eq!(moves, vec![at(2, 4), at(3, 4)]);
}

#[test]
fn finished_game_refuses_moves() {
    let mut game = Game::new(create_board());
    play(&mut game, (1, 5), (2, 5));
    play(&mut game, (6, 4), (4, 4));
    play(&mut game, (1, 6), (3, 6));
    play(&mut game, (7, 3), (3, 7));
    let before: Vec<Vec<Option<gated_chess::pieces::Piece>>> =
        game.board.iter().map(|row| row.iter().map(|s| s.piece).collect()).collect();
    assert_eq!(game.make_move(at(1, 0), at(2, 0)), Err(MoveError::GameNotInProgress));
    let after: Vec<Vec<Option<gated_chess::pieces::Piece>>> =
        game.board.iter().map(|row| row.iter().map(|s| s.piece).collect()).collect();
    assert_eq!(before, after);
    assert_eq!(game.result, GameResult::Checkmate(Color::Black));
    assert_eq!(game.current_turn, Color::White);
}
