//! Behavior tree evaluator: selectors, sequences and leaf actions composed
//! into one tree per entity, ticked once per invocation.
//!
//! Leaf behaviors belong to the host; the tree sees each leaf as an index
//! into a slice of leaf outcomes for the current tick. A leaf index outside
//! that slice reports `Failure`, so a tick is total and can never fail in
//! the error sense — `Failure` is a normal outcome, not an exception.

use vstd::prelude::*;

verus! {

/// Tri-state outcome of ticking a node. Nodes are stateless between ticks;
/// this is a result, not a persistent node state.
#[derive(Clone, Copy, Debug, PartialEq, Eq, Structural)]
pub enum NodeStatus {
    Success,
    Failure,
    Running,
}

/// A node of a behavior tree. Composite nodes exclusively own their ordered
/// children, so a tree is acyclic by construction. A leaf carries the index
/// under which the host reports that leaf's outcome for the current tick.
pub enum BehaviorNode {
    Selector(Vec<BehaviorNode>),
    Sequence(Vec<BehaviorNode>),
    Leaf(usize),
}

/// Entity component owning exactly one root node.
pub struct BehaviorTree {
    pub root: BehaviorNode,
}

/// Outcome of a leaf: the host-reported status at its index, or `Failure`
/// for an index the host did not report.
pub open spec fn leaf_status(index: int, env: Seq<NodeStatus>) -> NodeStatus {
    if 0 <= index < env.len() {
        env[index]
    } else {
        NodeStatus::Failure
    }
}

/// Result of ticking a node against the leaf outcomes `env`.
pub open spec fn tick_spec(node: BehaviorNode, env: Seq<NodeStatus>) -> NodeStatus
    decreases node,
{
    match node {
        BehaviorNode::Leaf(index) => leaf_status(index as int, env),
        BehaviorNode::Selector(children) => selector_spec(children@, env),
        BehaviorNode::Sequence(children) => sequence_spec(children@, env),
    }
}

/// A selector ticks its children in order; the first child not returning
/// `Failure` short-circuits and its result stands. If all children fail,
/// the selector fails ("try alternatives until one works").
pub open spec fn selector_spec(children: Seq<BehaviorNode>, env: Seq<NodeStatus>) -> NodeStatus
    decreases children,
{
    if children.len() == 0 {
        NodeStatus::Failure
    } else if tick_spec(children[0], env) == NodeStatus::Failure {
        selector_spec(children.subrange(1, children.len() as int), env)
    } else {
        tick_spec(children[0], env)
    }
}

/// A sequence ticks its children in order; the first child not returning
/// `Success` short-circuits and its result stands. If all children succeed,
/// the sequence succeeds ("do all steps, abort on first non-success").
pub open spec fn sequence_spec(children: Seq<BehaviorNode>, env: Seq<NodeStatus>) -> NodeStatus
    decreases children,
{
    if children.len() == 0 {
        NodeStatus::Success
    } else if tick_spec(children[0], env) == NodeStatus::Success {
        sequence_spec(children.subrange(1, children.len() as int), env)
    } else {
        tick_spec(children[0], env)
    }
}

/// The leaf indices a tick evaluates, in evaluation order. Children after a
/// short-circuit point never appear.
pub open spec fn trace_spec(node: BehaviorNode, env: Seq<NodeStatus>) -> Seq<usize>
    decreases node,
{
    match node {
        BehaviorNode::Leaf(index) => seq![index],
        BehaviorNode::Selector(children) => selector_trace_spec(children@, env),
        BehaviorNode::Sequence(children) => sequence_trace_spec(children@, env),
    }
}

/// Leaves evaluated by a selector over `children`, in order.
pub open spec fn selector_trace_spec(children: Seq<BehaviorNode>, env: Seq<NodeStatus>) -> Seq<
    usize,
>
    decreases children,
{
    if children.len() == 0 {
        Seq::empty()
    } else if tick_spec(children[0], env) == NodeStatus::Failure {
        trace_spec(children[0], env) + selector_trace_spec(
            children.subrange(1, children.len() as int),
            env,
        )
    } else {
        trace_spec(children[0], env)
    }
}

/// Leaves evaluated by a sequence over `children`, in order.
pub open spec fn sequence_trace_spec(children: Seq<BehaviorNode>, env: Seq<NodeStatus>) -> Seq<
    usize,
>
    decreases children,
{
    if children.len() == 0 {
        Seq::empty()
    } else if tick_spec(children[0], env) == NodeStatus::Success {
        trace_spec(children[0], env) + sequence_trace_spec(
            children.subrange(1, children.len() as int),
            env,
        )
    } else {
        trace_spec(children[0], env)
    }
}

impl BehaviorNode {
    /// Tick this node once against the leaf outcomes the host reports for
    /// the current tick.
    pub fn tick(&self, env: &Vec<NodeStatus>) -> (result: NodeStatus)
        ensures
            result == tick_spec(*self, env@),
        decreases *self, 0int,
    {
        match self {
            BehaviorNode::Leaf(index) => {
                if *index < env.len() {
                    env[*index]
                } else {
                    NodeStatus::Failure
                }
            },
            BehaviorNode::Selector(children) => {
                let result = Self::tick_selector(children, 0, env);
                assert(children@.subrange(0, children@.len() as int) =~= children@);
                result
            },
            BehaviorNode::Sequence(children) => {
                let result = Self::tick_sequence(children, 0, env);
                assert(children@.subrange(0, children@.len() as int) =~= children@);
                result
            },
        }
    }

    /// Tick the selector children from position `from` on.
    fn tick_selector(children: &Vec<BehaviorNode>, from: usize, env: &Vec<NodeStatus>) -> (result:
        NodeStatus)
        requires
            from <= children@.len(),
        ensures
            result == selector_spec(children@.subrange(from as int, children@.len() as int), env@),
        decreases children@, children@.len() - from,
    {
        let ghost rest = children@.subrange(from as int, children@.len() as int);
        if from == children.len() {
            NodeStatus::Failure
        } else {
            assert(rest[0] == children@[from as int]);
            let first = children[from].tick(env);
            if first == NodeStatus::Failure {
                let result = Self::tick_selector(children, from + 1, env);
                assert(rest.subrange(1, rest.len() as int) =~= children@.subrange(
                    from + 1,
                    children@.len() as int,
                ));
                result
            } else {
                first
            }
        }
    }

    /// Tick the sequence children from position `from` on.
    fn tick_sequence(children: &Vec<BehaviorNode>, from: usize, env: &Vec<NodeStatus>) -> (result:
        NodeStatus)
        requires
            from <= children@.len(),
        ensures
            result == sequence_spec(children@.subrange(from as int, children@.len() as int), env@),
        decreases children@, children@.len() - from,
    {
        let ghost rest = children@.subrange(from as int, children@.len() as int);
        if from == children.len() {
            NodeStatus::Success
        } else {
            assert(rest[0] == children@[from as int]);
            let first = children[from].tick(env);
            if first == NodeStatus::Success {
                let result = Self::tick_sequence(children, from + 1, env);
                assert(rest.subrange(1, rest.len() as int) =~= children@.subrange(
                    from + 1,
                    children@.len() as int,
                ));
                result
            } else {
                first
            }
        }
    }

    /// Tick this node and also report which leaves were evaluated, in
    /// order: the tree's short-circuiting made observable.
    pub fn tick_trace(&self, env: &Vec<NodeStatus>) -> (result: (NodeStatus, Vec<usize>))
        ensures
            result.0 == tick_spec(*self, env@),
            result.1@ == trace_spec(*self, env@),
    {
        let mut visited: Vec<usize> = Vec::new();
        let status = self.tick_trace_into(env, &mut visited);
        (status, visited)
    }

    /// Tick this node, appending each evaluated leaf index to `visited`.
    fn tick_trace_into(&self, env: &Vec<NodeStatus>, visited: &mut Vec<usize>) -> (result:
        NodeStatus)
        ensures
            result == tick_spec(*self, env@),
            final(visited)@ == old(visited)@ + trace_spec(*self, env@),
        decreases *self, 0int,
    {
        match self {
            BehaviorNode::Leaf(index) => {
                visited.push(*index);
                if *index < env.len() {
                    env[*index]
                } else {
                    NodeStatus::Failure
                }
            },
            BehaviorNode::Selector(children) => {
                let result = Self::trace_selector(children, 0, env, visited);
                assert(children@.subrange(0, children@.len() as int) =~= children@);
                result
            },
            BehaviorNode::Sequence(children) => {
                let result = Self::trace_sequence(children, 0, env, visited);
                assert(children@.subrange(0, children@.len() as int) =~= children@);
                result
            },
        }
    }

    /// Trace the selector children from position `from` on.
    fn trace_selector(
        children: &Vec<BehaviorNode>,
        from: usize,
        env: &Vec<NodeStatus>,
        visited: &mut Vec<usize>,
    ) -> (result: NodeStatus)
        requires
            from <= children@.len(),
        ensures
            result == selector_spec(children@.subrange(from as int, children@.len() as int), env@),
            final(visited)@ == old(visited)@ + selector_trace_spec(
                children@.subrange(from as int, children@.len() as int),
                env@,
            ),
        decreases children@, children@.len() - from,
    {
        let ghost rest = children@.subrange(from as int, children@.len() as int);
        if from == children.len() {
            assert(visited@ =~= visited@ + selector_trace_spec(rest, env@));
            NodeStatus::Failure
        } else {
            assert(rest[0] == children@[from as int]);
            let first = children[from].tick_trace_into(env, visited);
            if first == NodeStatus::Failure {
                let result = Self::trace_selector(children, from + 1, env, visited);
                assert(rest.subrange(1, rest.len() as int) =~= children@.subrange(
                    from + 1,
                    children@.len() as int,
                ));
                result
            } else {
                first
            }
        }
    }

    /// Trace the sequence children from position `from` on.
    fn trace_sequence(
        children: &Vec<BehaviorNode>,
        from: usize,
        env: &Vec<NodeStatus>,
        visited: &mut Vec<usize>,
    ) -> (result: NodeStatus)
        requires
            from <= children@.len(),
        ensures
            result == sequence_spec(children@.subrange(from as int, children@.len() as int), env@),
            final(visited)@ == old(visited)@ + sequence_trace_spec(
                children@.subrange(from as int, children@.len() as int),
                env@,
            ),
        decreases children@, children@.len() - from,
    {
        let ghost rest = children@.subrange(from as int, children@.len() as int);
        if from == children.len() {
            assert(visited@ =~= visited@ + sequence_trace_spec(rest, env@));
            NodeStatus::Success
        } else {
            assert(rest[0] == children@[from as int]);
            let first = children[from].tick_trace_into(env, visited);
            if first == NodeStatus::Success {
                let result = Self::trace_sequence(children, from + 1, env, visited);
                assert(rest.subrange(1, rest.len() as int) =~= children@.subrange(
                    from + 1,
                    children@.len() as int,
                ));
                result
            } else {
                first
            }
        }
    }
}

impl BehaviorTree {
    /// Tick the whole tree once for this simulation tick.
    pub fn tick(&self, env: &Vec<NodeStatus>) -> (result: NodeStatus)
        ensures
            result == tick_spec(self.root, env@),
    {
        self.root.tick(env)
    }
}

/// The first child not reporting `Failure` decides a selector: its result
/// becomes the selector's result, whatever the later children would say.
pub proof fn lemma_selector_first_non_failure_decides(
    children: Seq<BehaviorNode>,
    env: Seq<NodeStatus>,
    i: int,
)
    requires
        0 <= i < children.len(),
        forall|j: int| 0 <= j < i ==> tick_spec(#[trigger] children[j], env) == NodeStatus::Failure,
        tick_spec(children[i], env) != NodeStatus::Failure,
    ensures
        selector_spec(children, env) == tick_spec(children[i], env),
    decreases children.len(),
{
    if i > 0 {
        let rest = children.subrange(1, children.len() as int);
        assert(forall|j: int| 0 <= j < rest.len() ==> #[trigger] rest[j] == children[j + 1]);
        lemma_selector_first_non_failure_decides(rest, env, i - 1);
    }
}

/// A selector whose children all report `Failure` reports `Failure`: no
/// alternative worked.
pub proof fn lemma_selector_all_fail(children: Seq<BehaviorNode>, env: Seq<NodeStatus>)
    requires
        forall|j: int|
            0 <= j < children.len() ==> tick_spec(#[trigger] children[j], env)
                == NodeStatus::Failure,
    ensures
        selector_spec(children, env) == NodeStatus::Failure,
    decreases children.len(),
{
    if children.len() > 0 {
        let rest = children.subrange(1, children.len() as int);
        assert(forall|j: int| 0 <= j < rest.len() ==> #[trigger] rest[j] == children[j + 1]);
        lemma_selector_all_fail(rest, env);
    }
}

/// The first child not reporting `Success` decides a sequence: its result
/// becomes the sequence's result, whatever the later children would say.
pub proof fn lemma_sequence_first_non_success_decides(
    children: Seq<BehaviorNode>,
    env: Seq<NodeStatus>,
    i: int,
)
    requires
        0 <= i < children.len(),
        forall|j: int| 0 <= j < i ==> tick_spec(#[trigger] children[j], env) == NodeStatus::Success,
        tick_spec(children[i], env) != NodeStatus::Success,
    ensures
        sequence_spec(children, env) == tick_spec(children[i], env),
    decreases children.len(),
{
    if i > 0 {
        let rest = children.subrange(1, children.len() as int);
        assert(forall|j: int| 0 <= j < rest.len() ==> #[trigger] rest[j] == children[j + 1]);
        lemma_sequence_first_non_success_decides(rest, env, i - 1);
    }
}

/// A sequence whose children all report `Success` reports `Success`: every
/// step was done.
pub proof fn lemma_sequence_all_succeed(children: Seq<BehaviorNode>, env: Seq<NodeStatus>)
    requires
        forall|j: int|
            0 <= j < children.len() ==> tick_spec(#[trigger] children[j], env)
                == NodeStatus::Success,
    ensures
        sequence_spec(children, env) == NodeStatus::Success,
    decreases children.len(),
{
    if children.len() > 0 {
        let rest = children.subrange(1, children.len() as int);
        assert(forall|j: int| 0 <= j < rest.len() ==> #[trigger] rest[j] == children[j + 1]);
        lemma_sequence_all_succeed(rest, env);
    }
}

/// A selector whose children all report `Running` reports `Running`: the
/// first child already short-circuits, since `Running` is not `Failure`.
pub proof fn lemma_selector_all_running(children: Vec<BehaviorNode>, env: Seq<NodeStatus>)
    requires
        children@.len() > 0,
        forall|i: int|
            0 <= i < children@.len() ==> tick_spec(#[trigger] children@[i], env)
                == NodeStatus::Running,
    ensures
        tick_spec(BehaviorNode::Selector(children), env) == NodeStatus::Running,
{
    assert(tick_spec(children@[0], env) == NodeStatus::Running);
}

/// A sequence whose children all report `Running` reports `Running`: the
/// first child already short-circuits, since `Running` is not `Success`.
pub proof fn lemma_sequence_all_running(children: Vec<BehaviorNode>, env: Seq<NodeStatus>)
    requires
        children@.len() > 0,
        forall|i: int|
            0 <= i < children@.len() ==> tick_spec(#[trigger] children@[i], env)
                == NodeStatus::Running,
    ensures
        tick_spec(BehaviorNode::Sequence(children), env) == NodeStatus::Running,
{
    assert(tick_spec(children@[0], env) == NodeStatus::Running);
}

} // verus!
