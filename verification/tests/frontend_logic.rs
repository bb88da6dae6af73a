use gated_chess::board::create_board;
use gated_chess::frontend::{
    first_pressed, AnimationState, KeyInput, MorphAnimation, MoveHistory, PieceAnimationState,
    PieceAnimator, Selection, Session,
};
use gated_chess::game::{Game, GameResult, Position};
use gated_chess::gates::{set_gate, GateType};
use gated_chess::pieces::Color;

fn sq(row: usize, col: usize) -> Position {
    Position { row, col }
}

fn no_keys() -> KeyInput {
    KeyInput { enter: false, escape: false, column: None, row: None }
}

#[test]
fn square_names() {
    assert_eq!(MoveHistory::position_to_algebraic(&sq(0, 0)), "a1");
    assert_eq!(MoveHistory::position_to_algebraic(&sq(1, 4)), "e2");
    assert_eq!(MoveHistory::position_to_algebraic(&sq(7, 7)), "h8");
    for row in 0..8 {
        for col in 0..8 {
            let name = MoveHistory::position_to_algebraic(&sq(row, col));
            assert_eq!(gated_chess::parser::parse_square(&name), Some(sq(row, col)));
        }
    }
}

#[test]
fn moves_are_written_with_their_number() {
    let history = MoveHistory::new();
    assert_eq!(history.format_move(0, sq(1, 4), sq(3, 4)), "1. e2e4");
    assert_eq!(history.format_move(1, sq(6, 4), sq(4, 4)), "e7e5");
    assert_eq!(history.format_move(2, sq(0, 6), sq(2, 5)), "2. g1f3");
    assert_eq!(history.format_move(18, sq(0, 0), sq(1, 0)), "10. a1a2");
    assert_eq!(history.format_move(19, sq(0, 0), sq(1, 0)), "a1a2");
    assert_eq!(history.format_move(2468, sq(0, 0), sq(1, 0)), "1235. a1a2");
}

#[test]
fn history_records_in_order() {
    let mut history = MoveHistory::new();
    assert_eq!(history.len(), 0);
    assert_eq!(history.get(0), None);
    history.add_move(sq(1, 4), sq(3, 4));
    history.add_move(sq(6, 4), sq(4, 4));
    assert_eq!(history.len(), 2);
    assert_eq!(history.get(0), Some((sq(1, 4), sq(3, 4))));
    assert_eq!(history.get(1), Some((sq(6, 4), sq(4, 4))));
    assert_eq!(history.get(2), None);
    assert_eq!(history.line(0), "1. e2e4");
    assert_eq!(history.line(1), "e7e5");
}

#[test]
fn history_shows_the_latest_lines() {
    let mut history = MoveHistory::new();
    for _ in 0..10 {
        history.add_move(sq(0, 0), sq(1, 1));
    }
    assert_eq!(history.visible_start(4), 6);
    assert_eq!(history.visible_start(10), 0);
    assert_eq!(history.visible_start(25), 0);
    assert_eq!(history.visible_start(0), 10);
}

#[test]
fn first_pressed_key_wins() {
    assert_eq!(first_pressed(&[false; 8]), None);
    assert_eq!(first_pressed(&[true; 8]), Some(0));
    assert_eq!(
        first_pressed(&[false, false, true, false, true, false, false, false]),
        Some(2)
    );
    assert_eq!(
        first_pressed(&[false, false, false, false, false, false, false, true]),
        Some(7)
    );
}

#[test]
fn two_clicks_make_a_move() {
    let mut selection = Selection::new();
    assert_eq!(selection.click(sq(1, 4)), None);
    assert_eq!(selection.selected, Some(sq(1, 4)));
    assert_eq!(selection.click(sq(3, 4)), Some((sq(1, 4), sq(3, 4))));
    assert_eq!(selection.selected, Some(sq(1, 4)));
    selection.deselect();
    assert_eq!(selection, Selection::new());
}

#[test]
fn typing_a_square_selects_it() {
    let mut selection = Selection::new();
    assert_eq!(selection.keys(KeyInput { column: Some(4), ..no_keys() }), None);
    assert_eq!(selection.highlighted_column, Some(4));
    assert_eq!(selection.selected, None);
    assert_eq!(selection.keys(KeyInput { row: Some(1), ..no_keys() }), None);
    assert_eq!(selection.selected, Some(sq(1, 4)));
    assert_eq!(selection.highlighted_column, None);
    assert!(!selection.typing_mode);
}

#[test]
fn typing_a_second_square_reselects_without_enter() {
    let mut selection = Selection::new();
    selection.click(sq(1, 4));
    assert_eq!(selection.keys(KeyInput { column: Some(0), row: Some(1), ..no_keys() }), None);
    assert_eq!(selection.selected, Some(sq(1, 0)));
}

#[test]
fn enter_then_a_square_submits_a_move() {
    let mut selection = Selection::new();
    selection.click(sq(1, 4));
    assert_eq!(selection.keys(KeyInput { enter: true, ..no_keys() }), None);
    assert!(selection.typing_mode);
    assert_eq!(selection.keys(KeyInput { column: Some(4), ..no_keys() }), None);
    assert_eq!(
        selection.keys(KeyInput { row: Some(3), ..no_keys() }),
        Some((sq(1, 4), sq(3, 4)))
    );
    assert!(!selection.typing_mode);
    assert_eq!(selection.highlighted_column, None);
    assert_eq!(selection.selected, Some(sq(1, 4)));
    selection.reset();
    assert_eq!(selection, Selection::new());
}

#[test]
fn enter_without_a_selection_does_nothing() {
    let mut selection = Selection::new();
    selection.keys(KeyInput { column: Some(2), ..no_keys() });
    assert_eq!(selection.keys(KeyInput { enter: true, ..no_keys() }), None);
    assert!(!selection.typing_mode);
    assert_eq!(selection.highlighted_column, Some(2));
}

#[test]
fn escape_leaves_typing_mode() {
    let mut selection = Selection::new();
    selection.click(sq(1, 4));
    selection.keys(KeyInput { enter: true, ..no_keys() });
    selection.keys(KeyInput { column: Some(4), ..no_keys() });
    assert_eq!(selection.keys(KeyInput { escape: true, ..no_keys() }), None);
    assert!(!selection.typing_mode);
    assert_eq!(selection.highlighted_column, None);
    assert_eq!(selection.selected, Some(sq(1, 4)));
    assert_eq!(selection.keys(KeyInput { enter: true, escape: true, ..no_keys() }), None);
    assert!(!selection.typing_mode);
}

#[test]
fn row_key_without_a_column_does_nothing() {
    let mut selection = Selection::new();
    assert_eq!(selection.keys(KeyInput { row: Some(3), ..no_keys() }), None);
    assert_eq!(selection, Selection::new());
}

#[test]
fn session_counts_gates_once_per_turn_switch() {
    let mut game = Game::new(create_board());
    set_gate(&mut game.board[4][0], GateType::Standard { duration: 2 });
    let mut session = Session::new(game);
    assert!(!session.sync_gates());
    assert_eq!(session.game.board[4][0].gate, Some(GateType::Standard { duration: 2 }));
    assert!(session.play(sq(1, 4), sq(3, 4)));
    assert_eq!(session.game.board[4][0].gate, Some(GateType::Standard { duration: 2 }));
    assert!(session.sync_gates());
    assert_eq!(session.game.board[4][0].gate, Some(GateType::Standard { duration: 1 }));
    assert!(!session.sync_gates());
    assert!(!session.sync_gates());
    assert_eq!(session.game.board[4][0].gate, Some(GateType::Standard { duration: 1 }));
    assert!(session.play(sq(6, 4), sq(4, 4)));
    assert!(session.sync_gates());
    assert_eq!(session.game.board[4][0].gate, None);
    assert_eq!(session.last_turn, Color::White);
}

#[test]
fn session_refuses_and_records() {
    let mut session = Session::new(Game::new(create_board()));
    assert!(!session.play(sq(6, 4), sq(4, 4)));
    assert_eq!(session.history.len(), 0);
    assert_eq!(session.game.current_turn, Color::White);
    assert!(session.play(sq(1, 4), sq(3, 4)));
    assert_eq!(session.history.len(), 1);
    assert_eq!(session.history.line(0), "1. e2e4");
    assert!(!session.game_over);
    assert_eq!(session.winner, None);
}

#[test]
fn session_ends_with_fools_mate() {
    let mut session = Session::new(Game::new(create_board()));
    assert!(session.play(sq(1, 5), sq(2, 5)));
    assert!(session.play(sq(6, 4), sq(4, 4)));
    assert!(session.play(sq(1, 6), sq(3, 6)));
    assert!(!session.game_over);
    assert!(session.play(sq(7, 3), sq(3, 7)));
    assert!(session.game_over);
    assert_eq!(session.winner, Some(Color::Black));
    assert_eq!(session.game.result, GameResult::Checkmate(Color::Black));
    assert_eq!(session.history.len(), 4);
    assert!(!session.play(sq(1, 0), sq(2, 0)));
    assert_eq!(session.history.len(), 4);
    assert!(!session.sync_gates());
    assert!(!session.animate_gates());
}

#[test]
fn session_animates_gates_while_the_game_goes_on() {
    let mut game = Game::new(create_board());
    set_gate(&mut game.board[4][0], GateType::Standard { duration: 2 });
    let mut session = Session::new(game);
    assert!(session.animate_gates());
    assert_eq!(session.game.board[4][0].animation_frame, Some(1));
    assert_eq!(session.game.board[4][0].gate, Some(GateType::Standard { duration: 2 }));
}

#[test]
fn animation_state_names() {
    assert_eq!(AnimationState::Idle.as_str(), "idle");
    assert_eq!(AnimationState::Moving.as_str(), "moving");
    assert_eq!(AnimationState::Capturing.as_str(), "capturing");
    assert_eq!(AnimationState::Selected.as_str(), "selected");
    assert_eq!(AnimationState::from("idle"), AnimationState::Idle);
    assert_eq!(AnimationState::from("moving"), AnimationState::Moving);
    assert_eq!(AnimationState::from("capturing"), AnimationState::Capturing);
    assert_eq!(AnimationState::from("selected"), AnimationState::Selected);
    assert_eq!(AnimationState::from("dancing"), AnimationState::Idle);
    assert_eq!(AnimationState::from(""), AnimationState::Idle);
    assert_eq!(AnimationState::from_name("Moving"), AnimationState::Idle);
    assert!(gated_chess::frontend::animation::same_text("abc", "abc"));
    assert!(!gated_chess::frontend::animation::same_text("abc", "abd"));
    assert!(!gated_chess::frontend::animation::same_text("abc", "ab"));
}

#[test]
fn looping_animator_wraps_round() {
    let mut animator = PieceAnimator::new(true);
    let mut frames: Vec<usize> = Vec::new();
    for _ in 0..7 {
        animator.advance(3);
        frames.push(animator.current_frame());
    }
    assert_eq!(frames, vec![1, 2, 0, 1, 2, 0, 1]);
    assert!(!animator.is_finished());
    assert!(animator.is_running());
    assert_eq!(animator.frame_in(3), Some(1));
    assert_eq!(animator.frame_in(1), None);
}

#[test]
fn one_shot_animator_stops_on_the_last_frame() {
    let mut animator = PieceAnimator::new(false);
    let mut frames: Vec<(usize, bool)> = Vec::new();
    for _ in 0..5 {
        animator.advance(3);
        frames.push((animator.current_frame(), animator.is_finished()));
    }
    assert_eq!(frames, vec![(1, false), (2, false), (2, true), (2, true), (2, true)]);
    assert!(!animator.is_running());
    animator.reset();
    assert_eq!(animator, PieceAnimator::new(false));
    animator.advance(0);
    assert_eq!((animator.current_frame(), animator.is_finished()), (0, true));
}

#[test]
fn ping_pong_runs_forth_and_back() {
    let mut state = PieceAnimationState::new();
    let mut frames: Vec<(usize, i32)> = Vec::new();
    for _ in 0..9 {
        state.step(4);
        frames.push((state.current_frame, state.direction));
    }
    assert_eq!(
        frames,
        vec![(1, 1), (2, 1), (3, 1), (2, -1), (1, -1), (0, -1), (1, 1), (2, 1), (3, 1)]
    );
    let mut single = PieceAnimationState::new();
    single.step(1);
    assert_eq!((single.current_frame, single.direction), (0, -1));
    single.step(1);
    assert_eq!((single.current_frame, single.direction), (0, 1));
    let mut none = PieceAnimationState::new();
    none.step(0);
    assert_eq!(none, PieceAnimationState::new());
}

#[test]
fn morph_plays_once() {
    let mut morph = MorphAnimation::new(3);
    let mut frames: Vec<(usize, bool)> = Vec::new();
    for _ in 0..4 {
        morph.advance();
        frames.push((morph.current_index, morph.is_finished()));
    }
    assert_eq!(frames, vec![(1, false), (2, false), (2, true), (2, true)]);
}
