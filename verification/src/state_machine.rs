//! Typed state holder: one discrete state value per entity.
//!
//! Transitions overwrite the state unconditionally; policy about which
//! transitions are legal belongs to the caller. No history is kept and no
//! operation can fail.

use vstd::prelude::*;

verus! {

/// Holds exactly one value of a caller-defined discrete-state type.
/// The holder is never without a state: it is created with an initial
/// state and only ever replaced whole by `transition_to`.
pub struct StateMachine<S> {
    pub current_state: S,
}

/// The state a machine is left in after an unconditional transition:
/// the requested state, whatever the machine held before.
pub open spec fn spec_transitioned<S>(machine: StateMachine<S>, next_state: S) -> StateMachine<S> {
    StateMachine { current_state: next_state }
}

impl<S> StateMachine<S> {
    /// Attach a holder with its initial state.
    pub fn new(initial_state: S) -> (machine: Self)
        ensures
            machine.current_state == initial_state,
    {
        Self { current_state: initial_state }
    }

    /// Unconditionally overwrite the current state. No validation against a
    /// transition table, no exit/enter hooks, and no way to fail.
    pub fn transition_to(&mut self, next_state: S)
        ensures
            *final(self) == spec_transitioned(*old(self), next_state),
    {
        self.current_state = next_state;
    }
}

impl<S: Copy> StateMachine<S> {
    /// The state currently held, as a copy.
    pub fn current(&self) -> (state: S)
        ensures
            state == self.current_state,
    {
        self.current_state
    }
}

/// After `transition_to(next_state)`, the observed current state is exactly
/// the requested one — no coercion and no rejection — whatever sequence of
/// transitions came before.
pub proof fn lemma_transition_then_current<S>(machine: StateMachine<S>, next_state: S)
    ensures
        spec_transitioned(machine, next_state).current_state == next_state,
{
}

} // verus!
