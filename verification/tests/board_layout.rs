use gated_chess::board::{board_to_text, create_board, square_symbol, tile_at, Square, Tile};
use gated_chess::config::{BLACK_PAWN_ROW, BOARD_SIZE, EMPTY_SQUARE_CHAR, WHITE_PAWN_ROW};
use gated_chess::gates::{set_gate, GateType};
use gated_chess::pieces::{Color, Piece, PieceForm, PieceId, PieceState, PieceType};

#[test]
fn board_starts_in_the_standard_layout() {
    let board = create_board();
    let order = [
        PieceType::Rook,
        PieceType::Knight,
        PieceType::Bishop,
        PieceType::Queen,
        PieceType::King,
        PieceType::Bishop,
        PieceType::Knight,
        PieceType::Rook,
    ];
    for col in 0..BOARD_SIZE {
        let white = board[0][col].piece.unwrap();
        assert_eq!((white.kind, white.color), (order[col], Color::White));
        let black = board[7][col].piece.unwrap();
        assert_eq!((black.kind, black.color), (order[col], Color::Black));
        let white_pawn = board[WHITE_PAWN_ROW][col].piece.unwrap();
        assert_eq!((white_pawn.kind, white_pawn.color), (PieceType::Pawn, Color::White));
        let black_pawn = board[BLACK_PAWN_ROW][col].piece.unwrap();
        assert_eq!((black_pawn.kind, black_pawn.color), (PieceType::Pawn, Color::Black));
        for row in 2..6 {
            assert!(board[row][col].piece.is_none());
        }
    }
    for row in 0..BOARD_SIZE {
        for col in 0..BOARD_SIZE {
            assert!(board[row][col].gate.is_none());
            assert!(board[row][col].animation_frame.is_none());
            assert!(board[row][col].animation_direction.is_none());
        }
    }
}

#[test]
fn pieces_start_with_distinct_identities() {
    let board = create_board();
    let mut ids: Vec<u32> = Vec::new();
    for row in 0..8 {
        for col in 0..8 {
            if let Some(piece) = board[row][col].piece {
                ids.push(piece.get_id().0);
                assert_eq!(piece.get_form(), PieceForm::Base);
                assert_eq!(piece.get_state(), PieceState::Idle);
                assert_eq!(piece.get_has_moved(), Some(false));
            }
        }
    }
    assert_eq!(ids.len(), 32);
    ids.sort();
    assert_eq!(ids, (0..32).collect::<Vec<u32>>());
    assert_eq!(board[1][3].piece.unwrap().get_id(), PieceId::new(3));
    assert_eq!(board[6][3].piece.unwrap().get_id(), PieceId::new(11));
    assert_eq!(board[0][4].piece.unwrap().get_id(), PieceId::new(24));
    assert_eq!(board[7][4].piece.unwrap().get_id(), PieceId::new(25));
}

#[test]
fn new_piece_is_base_idle_and_unmoved() {
    let piece = Piece::new(PieceId::new(41), PieceType::Bishop, Color::Black);
    assert_eq!(piece.get_id(), PieceId(41));
    assert_eq!(piece.get_kind(), PieceType::Bishop);
    assert_eq!(piece.get_color(), Color::Black);
    assert_eq!(piece.get_form(), PieceForm::Base);
    assert_eq!(piece.get_state(), PieceState::Idle);
    assert_eq!(piece.get_has_moved(), Some(false));
}

#[test]
fn new_square_is_empty() {
    let square = Square::new();
    assert!(square.piece.is_none());
    assert!(square.gate.is_none());
    assert!(square.animation_frame.is_none());
    assert!(square.animation_direction.is_none());
}

#[test]
fn start_position_as_text() {
    let text = board_to_text(&create_board());
    let expected = "\n\
                    r n b q k b n r \n\
                    p p p p p p p p \n\
                    . . . . . . . . \n\
                    . . . . . . . . \n\
                    . . . . . . . . \n\
                    . . . . . . . . \n\
                    P P P P P P P P \n\
                    R N B Q K B N R \n\
                    \n";
    assert_eq!(text, expected);
}

#[test]
fn gates_show_in_the_text_unless_a_piece_stands_there() {
    let mut board = create_board();
    set_gate(&mut board[2][0], GateType::Standard { duration: 2 });
    set_gate(&mut board[2][1], GateType::Decay { duration: 2 });
    set_gate(&mut board[1][0], GateType::Decay { duration: 2 });
    let text = board_to_text(&board);
    let lines: Vec<&str> = text.split('\n').collect();
    assert_eq!(lines[6], "SD. . . . . . ");
    assert_eq!(lines[7], "P P P P P P P P ");
    assert_eq!(square_symbol(&board[2][0]), "S");
    assert_eq!(square_symbol(&board[2][1]), "D");
    assert_eq!(square_symbol(&board[3][3]), format!("{} ", EMPTY_SQUARE_CHAR));
    assert_eq!(square_symbol(&board[0][1]), "N ");
    assert_eq!(square_symbol(&board[7][4]), "k ");
}

#[test]
fn tiles_alternate_and_gates_show_their_frame() {
    let mut board = create_board();
    assert_eq!(tile_at(&board, 0, 0), Tile::Light);
    assert_eq!(tile_at(&board, 0, 1), Tile::Dark);
    assert_eq!(tile_at(&board, 1, 0), Tile::Dark);
    assert_eq!(tile_at(&board, 7, 7), Tile::Light);
    set_gate(&mut board[3][3], GateType::Standard { duration: 2 });
    assert_eq!(tile_at(&board, 3, 3), Tile::Gate(0));
    board[3][3].animation_frame = Some(5);
    assert_eq!(tile_at(&board, 3, 3), Tile::Gate(5));
    board[3][3].animation_frame = None;
    assert_eq!(tile_at(&board, 3, 3), Tile::Gate(0));
}
