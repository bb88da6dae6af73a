//! The kinds of gate.

use vstd::prelude::*;

verus! {

/// A gate and the number of turn switches it still lasts. Both kinds count
/// down in the same way; the tag tells them apart for display.
#[derive(Copy, Clone, Debug, PartialEq, Eq, Structural)]
pub enum GateType {
    Standard { duration: u8 },
    Decay { duration: u8 },
}

impl GateType {
    /// Turn switches that this gate still lasts.
    pub open spec fn remaining(self) -> u8 {
        match self {
            GateType::Standard { duration } => duration,
            GateType::Decay { duration } => duration,
        }
    }

    /// A gate of the same kind that lasts `duration` turn switches.
    pub open spec fn with_remaining(self, duration: u8) -> GateType {
        match self {
            GateType::Standard { .. } => GateType::Standard { duration },
            GateType::Decay { .. } => GateType::Decay { duration },
        }
    }

    /// What one turn switch leaves of this gate: nothing once the count
    /// reaches zero, else the same kind with one turn less. A gate that was
    /// placed with no duration at all never counts down and stays.
    pub open spec fn after_turn(self) -> Option<GateType> {
        if self.remaining() == 0 {
            Some(self)
        } else if self.remaining() == 1 {
            None
        } else {
            Some(self.with_remaining((self.remaining() - 1) as u8))
        }
    }
}

/// What `n` turn switches leave of `gate`.
pub open spec fn after_turns(gate: Option<GateType>, n: nat) -> Option<GateType>
    decreases n,
{
    if n == 0 {
        gate
    } else {
        match after_turns(gate, (n - 1) as nat) {
            Some(left) => left.after_turn(),
            None => None,
        }
    }
}

/// One turn switch takes exactly one turn off a gate that still lasts, and
/// removes it when that was its last.
pub proof fn lemma_turn_counts_down(gate: GateType)
    requires
        gate.remaining() >= 1,
    ensures
        gate.remaining() == 1 <==> gate.after_turn() is None,
        gate.remaining() > 1 ==> gate.after_turn() == Some(
            gate.with_remaining((gate.remaining() - 1) as u8),
        ),
        gate.after_turn() matches Some(left) ==> left.remaining() == gate.remaining() - 1
            && left.remaining() >= 1,
{
}

/// A gate placed to last `d >= 1` turn switches lasts `d - n` after `n < d` of
/// them, is gone after the `d`-th, and stays gone. Its count never passes
/// below zero.
pub proof fn lemma_gate_expires(gate: GateType, n: nat)
    requires
        gate.remaining() >= 1,
    ensures
        after_turns(Some(gate), n) == (if n < gate.remaining() {
            Some(gate.with_remaining((gate.remaining() - n) as u8))
        } else {
            None
        }),
    decreases n,
{
    if n > 0 {
        lemma_gate_expires(gate, (n - 1) as nat);
    }
}

} // verus!
