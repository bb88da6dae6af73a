use gated_chess::board::{create_board, Square};
use gated_chess::config::MAX_GATE_DURATION;
use gated_chess::game::{Game, GameResult};
use gated_chess::gates::{remove_gate, set_gate, update_gate_animation, update_gates, GateType};
use gated_chess::pieces::{Color, Piece, PieceId, PieceType};

#[test]
fn set_gate_starts_the_animation() {
    let mut square = Square::new();
    let piece = Piece::new(PieceId::new(7), PieceType::Knight, Color::Black);
    square.piece = Some(piece);
    set_gate(&mut square, GateType::Standard { duration: 3 });
    assert_eq!(square.gate, Some(GateType::Standard { duration: 3 }));
    assert_eq!(square.animation_frame, Some(0));
    assert_eq!(square.animation_direction, Some(1));
    assert_eq!(square.piece, Some(piece));
}

#[test]
fn remove_gate_clears_gate_and_animation() {
    let mut square = Square::new();
    let piece = Piece::new(PieceId::new(7), PieceType::Knight, Color::Black);
    square.piece = Some(piece);
    set_gate(&mut square, GateType::Decay { duration: 2 });
    square.animation_frame = Some(5);
    remove_gate(&mut square);
    assert_eq!(square.gate, None);
    assert_eq!(square.animation_frame, None);
    assert_eq!(square.animation_direction, None);
    assert_eq!(square.piece, Some(piece));
}

#[test]
fn gate_counts_down_by_one_each_turn_and_then_goes() {
    let mut game = Game::new(create_board());
    set_gate(&mut game.board[3][3], GateType::Standard { duration: MAX_GATE_DURATION });
    set_gate(&mut game.board[4][4], GateType::Decay { duration: 2 });
    set_gate(&mut game.board[1][1], GateType::Standard { duration: 1 });
    update_gates(&mut game);
    assert_eq!(game.board[3][3].gate, Some(GateType::Standard { duration: 2 }));
    assert_eq!(game.board[4][4].gate, Some(GateType::Decay { duration: 1 }));
    assert_eq!(game.board[1][1].gate, None);
    assert!(game.board[1][1].piece.is_some());
    update_gates(&mut game);
    assert_eq!(game.board[3][3].gate, Some(GateType::Standard { duration: 1 }));
    assert_eq!(game.board[4][4].gate, None);
    update_gates(&mut game);
    assert_eq!(game.board[3][3].gate, None);
    update_gates(&mut game);
    assert_eq!(game.board[3][3].gate, None);
    assert_eq!(game.current_turn, Color::White);
    assert_eq!(game.result, GameResult::InProgress);
}

#[test]
fn countdown_keeps_the_animation_state() {
    let mut game = Game::new(create_board());
    set_gate(&mut game.board[3][3], GateType::Standard { duration: 1 });
    game.board[3][3].animation_frame = Some(4);
    game.board[3][3].animation_direction = Some(-1);
    update_gates(&mut game);
    assert_eq!(game.board[3][3].gate, None);
    assert_eq!(game.board[3][3].animation_frame, Some(4));
    assert_eq!(game.board[3][3].animation_direction, Some(-1));
}

#[test]
fn gate_without_duration_stays() {
    let mut game = Game::new(create_board());
    set_gate(&mut game.board[3][3], GateType::Standard { duration: 0 });
    set_gate(&mut game.board[3][4], GateType::Decay { duration: 0 });
    update_gates(&mut game);
    update_gates(&mut game);
    assert_eq!(game.board[3][3].gate, Some(GateType::Standard { duration: 0 }));
    assert_eq!(game.board[3][4].gate, Some(GateType::Decay { duration: 0 }));
}

#[test]
fn longest_gate_counts_down() {
    let mut game = Game::new(create_board());
    set_gate(&mut game.board[3][3], GateType::Decay { duration: 255 });
    update_gates(&mut game);
    assert_eq!(game.board[3][3].gate, Some(GateType::Decay { duration: 254 }));
}

#[test]
fn animation_runs_up_and_down() {
    let mut game = Game::new(create_board());
    set_gate(&mut game.board[3][3], GateType::Standard { duration: 3 });
    let mut seen: Vec<(usize, i8)> = Vec::new();
    for _ in 0..16 {
        update_gate_animation(&mut game);
        seen.push((
            game.board[3][3].animation_frame.unwrap(),
            game.board[3][3].animation_direction.unwrap(),
        ));
    }
    assert_eq!(
        seen,
        vec![
            (1, 1), (2, 1), (3, 1), (4, 1), (5, 1), (6, 1), (7, -1),
            (6, -1), (5, -1), (4, -1), (3, -1), (2, -1), (1, -1), (0, 1),
            (1, 1), (2, 1),
        ]
    );
    assert_eq!(game.board[3][3].gate, Some(GateType::Standard { duration: 3 }));
}

#[test]
fn animation_touches_only_gated_squares() {
    let mut game = Game::new(create_board());
    game.board[2][2].animation_frame = Some(3);
    game.board[2][2].animation_direction = Some(1);
    update_gate_animation(&mut game);
    assert_eq!(game.board[2][2].animation_frame, Some(3));
    assert_eq!(game.board[2][2].animation_direction, Some(1));
    assert_eq!(game.board[5][5].animation_frame, None);
    assert_eq!(game.board[5][5].animation_direction, None);
}

#[test]
fn animation_starts_where_it_was_missing() {
    let mut game = Game::new(create_board());
    game.board[3][3].gate = Some(GateType::Decay { duration: 2 });
    update_gate_animation(&mut game);
    assert_eq!(game.board[3][3].animation_frame, Some(1));
    assert_eq!(game.board[3][3].animation_direction, Some(1));
}

#[test]
fn animation_clamps_frames_out_of_range() {
    let mut game = Game::new(create_board());
    game.board[3][3].gate = Some(GateType::Decay { duration: 2 });
    game.board[3][3].animation_frame = Some(100);
    game.board[3][3].animation_direction = Some(1);
    game.board[3][4].gate = Some(GateType::Decay { duration: 2 });
    game.board[3][4].animation_frame = Some(2);
    game.board[3][4].animation_direction = Some(-100);
    game.board[3][5].gate = Some(GateType::Decay { duration: 2 });
    game.board[3][5].animation_frame = Some(usize::MAX);
    game.board[3][5].animation_direction = Some(127);
    update_gate_animation(&mut game);
    assert_eq!(game.board[3][3].animation_frame, Some(7));
    assert_eq!(game.board[3][3].animation_direction, Some(-1));
    assert_eq!(game.board[3][4].animation_frame, Some(0));
    assert_eq!(game.board[3][4].animation_direction, Some(1));
    assert_eq!(game.board[3][5].animation_frame, Some(7));
    assert_eq!(game.board[3][5].animation_direction, Some(-1));
}
