use ai_toolkit::state_machine::StateMachine;

#[derive(Clone, Copy, Debug, PartialEq, Eq)]
enum GuardState {
    Patrolling,
    Chasing,
    Attacking,
}

#[test]
fn new_holds_initial_state() {
    let machine = StateMachine::new(GuardState::Patrolling);
    assert_eq!(machine.current(), GuardState::Patrolling);
}

#[test]
fn transition_overwrites_unconditionally() {
    let mut machine = StateMachine::new(GuardState::Patrolling);
    machine.transition_to(GuardState::Attacking);
    assert_eq!(machine.current(), GuardState::Attacking);
    // No transition table: any state may follow any other.
    machine.transition_to(GuardState::Patrolling);
    assert_eq!(machine.current(), GuardState::Patrolling);
}

#[test]
fn current_equals_last_transition_after_any_sequence() {
    let mut machine = StateMachine::new(GuardState::Patrolling);
    let steps = [
        GuardState::Chasing,
        GuardState::Attacking,
        GuardState::Chasing,
        GuardState::Patrolling,
        GuardState::Attacking,
    ];
    for s in steps {
        machine.transition_to(s);
        assert_eq!(machine.current(), s);
    }
}

#[test]
fn works_for_integer_states() {
    let mut machine = StateMachine::new(7u32);
    machine.transition_to(42);
    assert_eq!(machine.current(), 42);
}
