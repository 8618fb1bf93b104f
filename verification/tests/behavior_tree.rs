use ai_toolkit::behavior_tree::{BehaviorNode, BehaviorTree, NodeStatus};

fn leaves(n: usize) -> Vec<BehaviorNode> {
    (0..n).map(BehaviorNode::Leaf).collect()
}

#[test]
fn selector_returns_first_non_failure_and_stops_there() {
    // Children reporting [Failure, Failure, Success]: the selector succeeds
    // and evaluates exactly the first three children, in order.
    let node = BehaviorNode::Selector(leaves(3));
    let env = vec![NodeStatus::Failure, NodeStatus::Failure, NodeStatus::Success];
    let (status, visited) = node.tick_trace(&env);
    assert_eq!(status, NodeStatus::Success);
    assert_eq!(visited, vec![0, 1, 2]);
}

#[test]
fn selector_never_evaluates_children_after_its_stopping_point() {
    let node = BehaviorNode::Selector(leaves(5));
    let env = vec![
        NodeStatus::Failure,
        NodeStatus::Failure,
        NodeStatus::Success,
        NodeStatus::Failure,
        NodeStatus::Success,
    ];
    let (status, visited) = node.tick_trace(&env);
    assert_eq!(status, NodeStatus::Success);
    assert_eq!(visited, vec![0, 1, 2]);
}

#[test]
fn selector_fails_when_all_children_fail() {
    let node = BehaviorNode::Selector(leaves(3));
    let env = vec![NodeStatus::Failure; 3];
    let (status, visited) = node.tick_trace(&env);
    assert_eq!(status, NodeStatus::Failure);
    assert_eq!(visited, vec![0, 1, 2]);
}

#[test]
fn sequence_returns_first_non_success_and_stops_there() {
    // Children reporting [Success, Success, Failure]: the sequence fails
    // and stops at the third child.
    let node = BehaviorNode::Sequence(leaves(3));
    let env = vec![NodeStatus::Success, NodeStatus::Success, NodeStatus::Failure];
    let (status, visited) = node.tick_trace(&env);
    assert_eq!(status, NodeStatus::Failure);
    assert_eq!(visited, vec![0, 1, 2]);
}

#[test]
fn sequence_never_evaluates_children_after_its_stopping_point() {
    let node = BehaviorNode::Sequence(leaves(5));
    let env = vec![
        NodeStatus::Success,
        NodeStatus::Success,
        NodeStatus::Failure,
        NodeStatus::Success,
        NodeStatus::Success,
    ];
    let (status, visited) = node.tick_trace(&env);
    assert_eq!(status, NodeStatus::Failure);
    assert_eq!(visited, vec![0, 1, 2]);
}

#[test]
fn sequence_succeeds_when_all_children_succeed() {
    let node = BehaviorNode::Sequence(leaves(3));
    let env = vec![NodeStatus::Success; 3];
    let (status, visited) = node.tick_trace(&env);
    assert_eq!(status, NodeStatus::Success);
    assert_eq!(visited, vec![0, 1, 2]);
}

#[test]
fn selector_with_all_children_running_returns_running() {
    let node = BehaviorNode::Selector(leaves(3));
    let env = vec![NodeStatus::Running; 3];
    assert_eq!(node.tick(&env), NodeStatus::Running);
}

#[test]
fn sequence_with_all_children_running_returns_running() {
    let node = BehaviorNode::Sequence(leaves(3));
    let env = vec![NodeStatus::Running; 3];
    assert_eq!(node.tick(&env), NodeStatus::Running);
}

#[test]
fn empty_selector_fails_and_empty_sequence_succeeds() {
    let env: Vec<NodeStatus> = Vec::new();
    assert_eq!(BehaviorNode::Selector(Vec::new()).tick(&env), NodeStatus::Failure);
    assert_eq!(BehaviorNode::Sequence(Vec::new()).tick(&env), NodeStatus::Success);
}

#[test]
fn leaf_outside_reported_outcomes_fails() {
    let env = vec![NodeStatus::Success];
    assert_eq!(BehaviorNode::Leaf(5).tick(&env), NodeStatus::Failure);
}

#[test]
fn composition_is_recursive() {
    // Selector [ Sequence [leaf0, leaf1], leaf2 ]: the sequence fails at
    // leaf1, so the selector moves on and returns leaf2's outcome.
    let tree = BehaviorTree {
        root: BehaviorNode::Selector(vec![
            BehaviorNode::Sequence(vec![BehaviorNode::Leaf(0), BehaviorNode::Leaf(1)]),
            BehaviorNode::Leaf(2),
        ]),
    };
    let env = vec![NodeStatus::Success, NodeStatus::Failure, NodeStatus::Running];
    assert_eq!(tree.tick(&env), NodeStatus::Running);
    let (status, visited) = tree.root.tick_trace(&env);
    assert_eq!(status, NodeStatus::Running);
    assert_eq!(visited, vec![0, 1, 2]);
}
