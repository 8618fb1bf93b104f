//! Targeting resolver: for every entity with vision, scan the targetable
//! candidates and pick the nearest one strictly within vision range.
//!
//! Coordinates and ranges are fixed-point integers in a unit of the host's
//! choosing. All comparisons are made on squared Euclidean distances, which
//! orders candidates exactly as the distances themselves do, so "strictly
//! nearer" and "strictly within range" keep their meaning. A candidate at
//! exactly the vision range, or beyond, is excluded; an entity never
//! targets itself; and when nothing qualifies the target is cleared.

use vstd::prelude::*;

verus! {

/// Largest coordinate magnitude and vision range the resolver accepts;
/// keeps every squared distance within `i64`.
pub const COORD_LIMIT: i64 = 500_000_000;

/// A point in the host's world, in fixed-point world units.
#[derive(Clone, Copy, Debug, PartialEq, Eq, Structural)]
pub struct Position {
    pub x: i64,
    pub y: i64,
    pub z: i64,
}

/// Per-entity perception parameters. The field of view is stored for the
/// host but does not gate the scan: targeting is omni-directional, which
/// deliberately preserves the established behavior.
#[derive(Clone, Copy, Debug, PartialEq, Eq, Structural)]
pub struct Vision {
    pub range: i64,
    pub field_of_view: i64,
}

/// Optional reference to another entity, recomputed each resolution pass.
/// Never an owner: the referenced entity may be gone next tick, and the
/// next pass then clears or replaces the reference.
#[derive(Clone, Copy, Debug, PartialEq, Eq, Structural)]
pub struct Target {
    pub entity: Option<u64>,
}

/// Marker: an entity carrying this capability may be selected as a target.
#[derive(Clone, Copy, Debug, PartialEq, Eq, Structural)]
pub struct Targetable;

/// A targetable entity as the resolver sees it: its id and position.
#[derive(Clone, Copy, Debug, PartialEq, Eq, Structural)]
pub struct Candidate {
    pub entity: u64,
    pub position: Position,
}

/// An entity with vision, as the resolver sees it: id, position, vision
/// parameters, and the target slot the pass overwrites.
#[derive(Clone, Copy, Debug, PartialEq, Eq, Structural)]
pub struct Viewer {
    pub entity: u64,
    pub position: Position,
    pub vision: Vision,
    pub target: Target,
}

/// The position lies within the coordinate limit on every axis.
pub open spec fn bounded(p: Position) -> bool {
    &&& -COORD_LIMIT <= p.x <= COORD_LIMIT
    &&& -COORD_LIMIT <= p.y <= COORD_LIMIT
    &&& -COORD_LIMIT <= p.z <= COORD_LIMIT
}

/// Squared Euclidean distance between two points, as an unbounded integer.
pub open spec fn dist_sq(a: Position, b: Position) -> int {
    (a.x - b.x) * (a.x - b.x) + (a.y - b.y) * (a.y - b.y) + (a.z - b.z) * (a.z - b.z)
}

/// A candidate qualifies for a viewer when it is another entity and lies
/// strictly within the viewer's vision range. Distance exactly equal to
/// the range is out; a non-positive range admits nothing.
pub open spec fn qualifies(viewer_entity: u64, viewer_pos: Position, vision: Vision, c: Candidate) -> bool {
    &&& c.entity != viewer_entity
    &&& vision.range > 0
    &&& dist_sq(viewer_pos, c.position) < vision.range * vision.range
}

/// The index of the candidate the scan selects: the qualifying candidate
/// at strictly minimal distance, the earliest among equally near ones,
/// or `None` when no candidate qualifies. Defined by the same
/// left-to-right pass the implementation makes, where only a strictly
/// nearer candidate replaces the running best.
pub open spec fn nearest_index(
    viewer_entity: u64,
    viewer_pos: Position,
    vision: Vision,
    cs: Seq<Candidate>,
) -> Option<int>
    decreases cs.len(),
{
    if cs.len() == 0 {
        None
    } else {
        let prev = nearest_index(viewer_entity, viewer_pos, vision, cs.drop_last());
        let last = cs.len() - 1;
        if qualifies(viewer_entity, viewer_pos, vision, cs[last]) && (prev is None || dist_sq(
            viewer_pos,
            cs[last].position,
        ) < dist_sq(viewer_pos, cs[prev->0].position)) {
            Some(last)
        } else {
            prev
        }
    }
}

/// What one resolution pass writes into a viewer's target slot: the entity
/// of the selected candidate, or no target.
pub open spec fn spec_select_target(
    viewer_entity: u64,
    viewer_pos: Position,
    vision: Vision,
    cs: Seq<Candidate>,
) -> Option<u64> {
    match nearest_index(viewer_entity, viewer_pos, vision, cs) {
        None => None,
        Some(i) => Some(cs[i].entity),
    }
}

/// A viewer after one resolution pass: only the target slot changes, and
/// it is overwritten whatever it held before.
pub open spec fn spec_retargeted(viewer: Viewer, cs: Seq<Candidate>) -> Viewer {
    Viewer {
        target: Target {
            entity: spec_select_target(viewer.entity, viewer.position, viewer.vision, cs),
        },
        ..viewer
    }
}

/// What `nearest_index` names: a selected index is in range, qualifies, no
/// qualifying candidate is strictly nearer, and every earlier qualifying
/// candidate is strictly farther; when no index is selected, no candidate
/// qualifies at all.
pub proof fn lemma_nearest_index_props(
    viewer_entity: u64,
    viewer_pos: Position,
    vision: Vision,
    cs: Seq<Candidate>,
)
    ensures
        match nearest_index(viewer_entity, viewer_pos, vision, cs) {
            Some(i) => {
                &&& 0 <= i < cs.len()
                &&& qualifies(viewer_entity, viewer_pos, vision, cs[i])
                &&& forall|j: int|
                    0 <= j < cs.len() && qualifies(viewer_entity, viewer_pos, vision, #[trigger] cs[j])
                        ==> dist_sq(viewer_pos, cs[i].position) <= dist_sq(viewer_pos, cs[j].position)
                &&& forall|j: int|
                    0 <= j < i && qualifies(viewer_entity, viewer_pos, vision, #[trigger] cs[j])
                        ==> dist_sq(viewer_pos, cs[i].position) < dist_sq(viewer_pos, cs[j].position)
            },
            None => forall|j: int|
                0 <= j < cs.len() ==> !qualifies(viewer_entity, viewer_pos, vision, #[trigger] cs[j]),
        },
    decreases cs.len(),
{
    if cs.len() > 0 {
        lemma_nearest_index_props(viewer_entity, viewer_pos, vision, cs.drop_last());
        assert(forall|j: int| 0 <= j < cs.len() - 1 ==> #[trigger] cs[j] == cs.drop_last()[j]);
    }
}

/// Self-targeting never happens: whatever the candidates hold — the viewer
/// itself included, at any distance — the resolver never selects the
/// viewer's own entity.
pub proof fn lemma_never_self_target(
    viewer_entity: u64,
    viewer_pos: Position,
    vision: Vision,
    cs: Seq<Candidate>,
)
    ensures
        spec_select_target(viewer_entity, viewer_pos, vision, cs) != Some(viewer_entity),
{
    lemma_nearest_index_props(viewer_entity, viewer_pos, vision, cs);
}

/// Squared distance, executable. Bounded coordinates keep the arithmetic
/// within `i64`.
fn dist_sq_exec(a: Position, b: Position) -> (d: i64)
    requires
        bounded(a),
        bounded(b),
    ensures
        d == dist_sq(a, b),
{
    let dx = a.x - b.x;
    let dy = a.y - b.y;
    let dz = a.z - b.z;
    assert(0 <= dx * dx <= 1_000_000_000_000_000_000 && 0 <= dy * dy
        <= 1_000_000_000_000_000_000 && 0 <= dz * dz <= 1_000_000_000_000_000_000)
        by (nonlinear_arith)
        requires
            -1_000_000_000 <= dx <= 1_000_000_000,
            -1_000_000_000 <= dy <= 1_000_000_000,
            -1_000_000_000 <= dz <= 1_000_000_000,
    ;
    dx * dx + dy * dy + dz * dz
}

/// Scan the candidates once for one viewer and return the entity of the
/// nearest candidate strictly within vision range, skipping the viewer
/// itself, or `None` when no candidate qualifies. Among equally near
/// candidates the earliest in the list wins.
pub fn select_target(
    viewer_entity: u64,
    viewer_pos: Position,
    vision: Vision,
    candidates: &Vec<Candidate>,
) -> (target: Option<u64>)
    requires
        bounded(viewer_pos),
        vision.range <= COORD_LIMIT,
        forall|i: int| 0 <= i < candidates@.len() ==> bounded(#[trigger] candidates@[i].position),
    ensures
        target == spec_select_target(viewer_entity, viewer_pos, vision, candidates@),
{
    let ghost cs = candidates@;
    if vision.range <= 0 {
        proof {
            lemma_nearest_index_props(viewer_entity, viewer_pos, vision, cs);
        }
        return None;
    }
    assert(0 < vision.range * vision.range <= 250_000_000_000_000_000) by (nonlinear_arith)
        requires
            0 < vision.range <= 500_000_000,
    ;
    let range_sq = vision.range * vision.range;
    let mut best: Option<u64> = None;
    let mut best_dist: i64 = 0;
    let mut k: usize = 0;
    while k < candidates.len()
        invariant
            k <= cs.len(),
            cs == candidates@,
            bounded(viewer_pos),
            0 < vision.range <= COORD_LIMIT,
            range_sq == vision.range * vision.range,
            forall|i: int| 0 <= i < cs.len() ==> bounded(#[trigger] cs[i].position),
            match nearest_index(viewer_entity, viewer_pos, vision, cs.subrange(0, k as int)) {
                None => best is None,
                Some(i) => {
                    &&& best == Some(cs[i].entity)
                    &&& 0 <= i < k
                    &&& best_dist == dist_sq(viewer_pos, cs[i].position)
                },
            },
        decreases cs.len() - k,
    {
        let ghost prefix = cs.subrange(0, k as int);
        let ghost extended = cs.subrange(0, k + 1int);
        proof {
            assert(extended.drop_last() =~= prefix);
            assert(extended[extended.len() - 1] == cs[k as int]);
        }
        let c = candidates[k];
        let d = dist_sq_exec(viewer_pos, c.position);
        let nearer = match best {
            Option::None => true,
            Option::Some(_) => d < best_dist,
        };
        if c.entity != viewer_entity && d < range_sq && nearer {
            best = Some(c.entity);
            best_dist = d;
        }
        k = k + 1;
    }
    proof {
        assert(cs.subrange(0, cs.len() as int) =~= cs);
    }
    best
}

/// One resolution pass: overwrite every viewer's target slot with the
/// nearest qualifying candidate, or clear it to no target — a previously
/// held, now stale reference never persists. Nothing else about a viewer
/// changes.
pub fn update_targets(viewers: &mut Vec<Viewer>, candidates: &Vec<Candidate>)
    requires
        forall|i: int|
            0 <= i < old(viewers)@.len() ==> bounded(#[trigger] old(viewers)@[i].position)
                && old(viewers)@[i].vision.range <= COORD_LIMIT,
        forall|i: int| 0 <= i < candidates@.len() ==> bounded(#[trigger] candidates@[i].position),
    ensures
        final(viewers)@.len() == old(viewers)@.len(),
        forall|i: int|
            0 <= i < old(viewers)@.len() ==> final(viewers)@[i] == spec_retargeted(
                #[trigger] old(viewers)@[i],
                candidates@,
            ),
{
    let mut k: usize = 0;
    while k < viewers.len()
        invariant
            k <= viewers@.len(),
            viewers@.len() == old(viewers)@.len(),
            forall|i: int|
                0 <= i < old(viewers)@.len() ==> bounded(#[trigger] old(viewers)@[i].position)
                    && old(viewers)@[i].vision.range <= COORD_LIMIT,
            forall|i: int| 0 <= i < candidates@.len() ==> bounded(#[trigger] candidates@[i].position),
            forall|i: int| k <= i < viewers@.len() ==> #[trigger] viewers@[i] == old(viewers)@[i],
            forall|i: int|
                0 <= i < k ==> #[trigger] viewers@[i] == spec_retargeted(
                    old(viewers)@[i],
                    candidates@,
                ),
        decreases viewers@.len() - k,
    {
        let viewer = viewers[k];
        let selected = select_target(viewer.entity, viewer.position, viewer.vision, candidates);
        let updated = Viewer { target: Target { entity: selected }, ..viewer };
        viewers.set(k, updated);
        k = k + 1;
    }
}

} // verus!
