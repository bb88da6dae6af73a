//! Gates: timed hazards that overlay a square, whether or not a piece stands
//! on it, and expire after a fixed number of turns.

pub mod actions;
pub mod gate_type;
pub mod logic;

pub use actions::{remove_gate, set_gate};
pub use gate_type::GateType;
pub use logic::{update_gate_animation, update_gates};
