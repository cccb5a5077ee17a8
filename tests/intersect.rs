use bun::geometry::{is_intersecting, Vec2};

#[test]
fn test_is_intersecting() {
    assert!(is_intersecting(
        Vec2::new(1, 0),
        Vec2::new(4, 4),
        Vec2::new(2, 2),
        Vec2::new(2, 2),
    ));

    assert!(is_intersecting(
        Vec2::new(3, 0),
        Vec2::new(0, 4),
        Vec2::new(2, 2),
        Vec2::new(2, 2),
    ));

    assert!(is_intersecting(
        Vec2::new(3, 4),
        Vec2::new(1, 0),
        Vec2::new(2, 2),
        Vec2::new(2, 2),
    ));

    assert!(is_intersecting(
        Vec2::new(1, 4),
        Vec2::new(3, 0),
        Vec2::new(2, 2),
        Vec2::new(2, 2),
    ));
}

#[test]
fn test_is_not_intersecting() {
    assert!(!is_intersecting(
        Vec2::new(0, 0),
        Vec2::new(1, 4),
        Vec2::new(2, 2),
        Vec2::new(2, 2),
    ));

    assert!(!is_intersecting(
        Vec2::new(4, 0),
        Vec2::new(3, 4),
        Vec2::new(2, 2),
        Vec2::new(2, 2),
    ));

    assert!(!is_intersecting(
        Vec2::new(4, 4),
        Vec2::new(0, 4),
        Vec2::new(2, 2),
        Vec2::new(2, 2),
    ));

    assert!(!is_intersecting(
        Vec2::new(4, 4),
        Vec2::new(0, 4),
        Vec2::new(2, 2),
        Vec2::new(2, 2),
    ));
}

#[test]
fn endpoint_inside_box_intersects() {
    assert!(is_intersecting(Vec2::new(2, 2), Vec2::new(10, 10), Vec2::new(2, 2), Vec2::new(2, 2)));
    assert!(is_intersecting(Vec2::new(10, 10), Vec2::new(3, 3), Vec2::new(2, 2), Vec2::new(2, 2)));
}

#[test]
fn degenerate_segment_is_a_point() {
    assert!(is_intersecting(Vec2::new(2, 3), Vec2::new(2, 3), Vec2::new(2, 2), Vec2::new(2, 2)));
    assert!(!is_intersecting(Vec2::new(5, 5), Vec2::new(5, 5), Vec2::new(2, 2), Vec2::new(2, 2)));
}

#[test]
fn touching_a_corner_counts() {
    // The box spans [1, 3] on both axes; the segment passes through the corner (3, 3).
    assert!(is_intersecting(Vec2::new(4, 2), Vec2::new(2, 4), Vec2::new(2, 2), Vec2::new(2, 2)));
    assert!(!is_intersecting(Vec2::new(5, 2), Vec2::new(2, 5), Vec2::new(2, 2), Vec2::new(2, 2)));
}

#[test]
fn odd_sized_box() {
    // Centre (0, 0), extent 3: the box spans [-1.5, 1.5].
    assert!(is_intersecting(Vec2::new(-5, 1), Vec2::new(5, 1), Vec2::new(0, 0), Vec2::new(3, 3)));
    assert!(!is_intersecting(Vec2::new(-5, 2), Vec2::new(5, 2), Vec2::new(0, 0), Vec2::new(3, 3)));
}
