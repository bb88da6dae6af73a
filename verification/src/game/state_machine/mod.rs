//! The piece registry: per-piece handles, kept by the identity of their piece.

pub mod game_state_manager;

pub use game_state_manager::{GameStateManager, PieceHandle};
