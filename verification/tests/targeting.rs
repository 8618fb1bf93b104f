use ai_toolkit::targeting::{
    select_target, update_targets, Candidate, Position, Target, Viewer, Vision,
};

// Fixed-point convention for these tests: 1000 units per world meter.
fn at(x: i64) -> Position {
    Position { x, y: 0, z: 0 }
}

fn viewer(entity: u64, range: i64) -> Viewer {
    Viewer {
        entity,
        position: at(0),
        vision: Vision { range, field_of_view: 90_000 },
        target: Target { entity: None },
    }
}

#[test]
fn nearest_candidate_strictly_within_range_wins() {
    // Vision range 10.0; candidates at distances 12.0, 9.999 and 5.0:
    // the distance-5 candidate is selected.
    let candidates = vec![
        Candidate { entity: 2, position: at(12_000) },
        Candidate { entity: 3, position: at(9_999) },
        Candidate { entity: 4, position: at(5_000) },
    ];
    let v = viewer(1, 10_000);
    assert_eq!(select_target(v.entity, v.position, v.vision, &candidates), Some(4));
}

#[test]
fn candidate_exactly_at_range_is_excluded() {
    let candidates = vec![Candidate { entity: 2, position: at(10_000) }];
    let v = viewer(1, 10_000);
    assert_eq!(select_target(v.entity, v.position, v.vision, &candidates), None);
}

#[test]
fn candidate_just_inside_range_is_selected() {
    let candidates = vec![Candidate { entity: 2, position: at(9_999) }];
    let v = viewer(1, 10_000);
    assert_eq!(select_target(v.entity, v.position, v.vision, &candidates), Some(2));
}

#[test]
fn equally_near_candidates_tie_break_to_the_earlier() {
    let candidates = vec![
        Candidate { entity: 2, position: at(4_000) },
        Candidate { entity: 3, position: Position { x: 0, y: 4_000, z: 0 } },
    ];
    let v = viewer(1, 10_000);
    assert_eq!(select_target(v.entity, v.position, v.vision, &candidates), Some(2));
}

#[test]
fn never_selects_itself_even_at_distance_zero() {
    // The viewer is itself targetable and stands at its own position.
    let candidates = vec![Candidate { entity: 1, position: at(0) }];
    let v = viewer(1, 10_000);
    assert_eq!(select_target(v.entity, v.position, v.vision, &candidates), None);

    // With another qualifying candidate present, that one is selected.
    let candidates = vec![
        Candidate { entity: 1, position: at(0) },
        Candidate { entity: 2, position: at(3_000) },
    ];
    assert_eq!(select_target(v.entity, v.position, v.vision, &candidates), Some(2));
}

#[test]
fn stale_target_is_cleared_when_nothing_qualifies() {
    let mut viewers = vec![Viewer { target: Target { entity: Some(99) }, ..viewer(1, 10_000) }];
    let candidates = vec![Candidate { entity: 2, position: at(50_000) }];
    update_targets(&mut viewers, &candidates);
    assert_eq!(viewers[0].target.entity, None);
}

#[test]
fn update_overwrites_every_viewer_target() {
    let mut viewers = vec![
        Viewer { target: Target { entity: Some(77) }, ..viewer(1, 10_000) },
        Viewer { position: at(100_000), ..viewer(5, 4_000) },
    ];
    let candidates = vec![
        Candidate { entity: 2, position: at(8_000) },
        Candidate { entity: 3, position: at(98_000) },
    ];
    update_targets(&mut viewers, &candidates);
    // Viewer 1 sees entity 2 at 8.0 (entity 3 is far away).
    assert_eq!(viewers[0].target.entity, Some(2));
    // Viewer 5 sees entity 3 at 2.0 (entity 2 is 92.0 away).
    assert_eq!(viewers[1].target.entity, Some(3));
    // Nothing else about a viewer changes.
    assert_eq!(viewers[0].entity, 1);
    assert_eq!(viewers[1].position, at(100_000));
    assert_eq!(viewers[1].vision.range, 4_000);
}

#[test]
fn non_positive_range_admits_no_target() {
    let candidates = vec![Candidate { entity: 2, position: at(1) }];
    let v = viewer(1, 0);
    assert_eq!(select_target(v.entity, v.position, v.vision, &candidates), None);
    let v = viewer(1, -5_000);
    assert_eq!(select_target(v.entity, v.position, v.vision, &candidates), None);
}
