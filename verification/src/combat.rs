//! Turn-based combat flow: the discrete combat phases and the transition
//! policy the host applies once per tick.

use vstd::prelude::*;

verus! {

/// Phases of the combat flow.
#[derive(Clone, Copy, Debug, PartialEq, Eq, Hash, Structural)]
pub enum CombatState {
    Inactive,
    Starting,
    PlayerTurn,
    EnemyTurn,
    Processing,
    Victory,
    Defeat,
}

impl Default for CombatState {
    /// Combat starts inactive until the host begins a battle.
    fn default() -> (state: Self)
        ensures
            state == CombatState::Inactive,
    {
        CombatState::Inactive
    }
}

/// Tracks the current round and whose turn it is.
#[derive(Clone, Copy, Debug, PartialEq, Eq, Structural)]
pub struct CombatManager {
    pub round: u32,
    pub current_turn_entity: Option<u64>,
}

impl Default for CombatManager {
    /// A fresh manager: round zero, nobody's turn yet.
    fn default() -> (manager: Self)
        ensures
            manager.round == 0,
            manager.current_turn_entity is None,
    {
        CombatManager { round: 0, current_turn_entity: None }
    }
}

/// The transition the combat flow requests for a tick: once a battle is
/// starting, hand the first turn to the player; every other phase waits
/// for its own systems and requests nothing.
pub open spec fn spec_next_combat_state(state: CombatState) -> Option<CombatState> {
    if state == CombatState::Starting {
        Some(CombatState::PlayerTurn)
    } else {
        None
    }
}

/// Decide the combat-state transition for one tick. Returns the state to
/// switch to, or `None` to stay where the flow is.
pub fn manage_combat_state(state: CombatState) -> (next: Option<CombatState>)
    ensures
        next == spec_next_combat_state(state),
{
    match state {
        CombatState::Starting => Some(CombatState::PlayerTurn),
        _ => None,
    }
}

} // verus!
