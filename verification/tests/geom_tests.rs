use breakout_core::geom::{hit_side, overlaps, resolve_direction, Axis, HitSide, Rect};

fn rect(x: i64, y: i64, w: i64, h: i64) -> Rect {
    Rect { x, y, w, h }
}

#[test]
fn overlaps_when_clearly_intersecting() {
    let a = rect(0, 0, 20, 20);
    let b = rect(5, 5, 20, 20);
    assert!(overlaps(&a, &b));
    assert!(overlaps(&b, &a));
}

#[test]
fn overlaps_is_inclusive_at_touching_edges() {
    // Centers 20 apart, half-widths 10 + 10: the edges exactly touch.
    let a = rect(0, 0, 20, 20);
    let b = rect(20, 0, 20, 20);
    assert!(overlaps(&a, &b));
    // One milli-unit further and they are apart.
    let c = rect(21, 0, 20, 20);
    assert!(!overlaps(&a, &c));
}

#[test]
fn overlaps_requires_both_axes() {
    let a = rect(0, 0, 20, 20);
    let apart_y = rect(0, 50, 20, 20);
    let apart_x = rect(50, 0, 20, 20);
    assert!(!overlaps(&a, &apart_y));
    assert!(!overlaps(&a, &apart_x));
}

#[test]
fn overlaps_handles_odd_extents_exactly() {
    // Widths 3 and 4: half extents would round; the doubled-scale test
    // must still see these touching (distance 3.5 == (3 + 4) / 2).
    let a = rect(0, 0, 3, 10);
    let b = rect(4, 0, 4, 10);
    assert!(!overlaps(&a, &b));
    let c = rect(3, 0, 4, 10);
    assert!(overlaps(&a, &c));
}

#[test]
fn hit_side_picks_smaller_penetration_axis() {
    let obstacle = rect(0, 0, 20, 20);
    // Deep x-overlap, shallow y-overlap from above: a top hit.
    assert_eq!(hit_side(&rect(0, 15, 20, 20), &obstacle), HitSide::Top);
    assert_eq!(hit_side(&rect(0, -15, 20, 20), &obstacle), HitSide::Bottom);
    // Deep y-overlap, shallow x-overlap from the right: a right hit.
    assert_eq!(hit_side(&rect(15, 0, 20, 20), &obstacle), HitSide::Right);
    assert_eq!(hit_side(&rect(-15, 0, 20, 20), &obstacle), HitSide::Left);
}

#[test]
fn resolve_direction_maps_sides_to_axes() {
    let obstacle = rect(0, 0, 20, 20);
    assert_eq!(resolve_direction(&rect(0, 15, 20, 20), &obstacle), Axis::Y);
    assert_eq!(resolve_direction(&rect(15, 0, 20, 20), &obstacle), Axis::X);
}

#[test]
fn resolve_direction_tie_goes_vertical() {
    let obstacle = rect(0, 0, 20, 20);
    // Equal penetration on both axes: the vertical bounce wins.
    assert_eq!(resolve_direction(&rect(15, 15, 20, 20), &obstacle), Axis::Y);
}
