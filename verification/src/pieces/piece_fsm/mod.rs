//! Per-kind piece handles: one type for each kind of piece, all offering the
//! hooks of [`PieceFSM`].

pub mod bishop_fsm;
pub mod king_fsm;
pub mod knight_fsm;
pub mod pawn_fsm;
pub mod piece_fsm;
pub mod queen_fsm;
pub mod rook_fsm;

pub use bishop_fsm::BishopFSM;
pub use king_fsm::KingFSM;
pub use knight_fsm::KnightFSM;
pub use pawn_fsm::PawnFSM;
pub use piece_fsm::PieceFSM;
pub use queen_fsm::QueenFSM;
pub use rook_fsm::RookFSM;
