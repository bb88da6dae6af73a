//! Placing and clearing a gate on one square.

use crate::board::Square;
use crate::gates::GateType;
use vstd::prelude::*;

verus! {

/// Lays `gate` over `square` and starts its animation: frame 0, stepping
/// upwards. The piece on the square is not touched.
pub fn set_gate(square: &mut Square, gate: GateType)
    ensures
        *final(square) == (Square {
            piece: old(square).piece,
            gate: Some(gate),
            animation_frame: Some(0usize),
            animation_direction: Some(1i8),
        }),
{
    square.gate = Some(gate);
    square.animation_frame = Some(0);
    square.animation_direction = Some(1);
}

/// Takes any gate off `square`, together with its animation state. The piece
/// on the square is not touched.
pub fn remove_gate(square: &mut Square)
    ensures
        *final(square) == (Square {
            piece: old(square).piece,
            gate: None,
            animation_frame: None,
            animation_direction: None,
        }),
{
    square.gate = None;
    square.animation_frame = None;
    square.animation_direction = None;
}

} // verus!
