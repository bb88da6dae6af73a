//! What the presentation layer decides, apart from drawing and from reading
//! input devices: which square is selected, when a move is submitted, when
//! gates count down, and when the game is over.

pub mod animation;
pub mod move_history;
pub mod selection;
pub mod session;

pub use animation::{AnimationState, MorphAnimation, PieceAnimationState, PieceAnimator};
pub use move_history::MoveHistory;
pub use selection::{first_pressed, KeyInput, Selection};
pub use session::Session;
