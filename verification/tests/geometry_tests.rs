use survivors_core::geometry::{clamped, manhattan, overlaps, scale_dir, step_toward, Pos, WORLD_BOUND};

fn pos(x: i64, y: i64) -> Pos {
    Pos { x, y }
}

#[test]
fn overlapping_squares_at_40_collide() {
    // Half-sizes 25 and 25 sum to 50, and the centers are 40 apart.
    assert!(overlaps(pos(0, 0), 25, pos(40, 0), 25));
}

#[test]
fn separated_squares_at_60_do_not_collide() {
    assert!(!overlaps(pos(0, 0), 25, pos(60, 0), 25));
}

#[test]
fn touching_squares_do_not_collide() {
    // Strict inequality: centers exactly 50 apart with half-size sum 50.
    assert!(!overlaps(pos(0, 0), 25, pos(50, 0), 25));
}

#[test]
fn diagonal_overlap_requires_both_axes() {
    assert!(overlaps(pos(0, 0), 25, pos(40, 40), 25));
    assert!(!overlaps(pos(0, 0), 25, pos(40, 60), 25));
}

#[test]
fn overlap_is_symmetric_on_samples() {
    let cases = [
        (pos(0, 0), 25, pos(40, 0), 25),
        (pos(0, 0), 25, pos(60, 0), 25),
        (pos(-10, 7), 3, pos(5, -2), 12),
        (pos(100, 50), 0, pos(100, 50), 0),
        (pos(-40, -40), 41, pos(0, 0), 1),
    ];
    for (a, ha, b, hb) in cases {
        assert_eq!(overlaps(a, ha, b, hb), overlaps(b, hb, a, ha));
    }
}

#[test]
fn manhattan_distance_is_axis_sum() {
    assert_eq!(manhattan(pos(0, 0), pos(3, 4)), 7);
    assert_eq!(manhattan(pos(-3, 4), pos(3, -4)), 14);
    assert_eq!(manhattan(pos(5, 5), pos(5, 5)), 0);
}

#[test]
fn clamped_holds_coordinates_at_the_world_bound() {
    assert_eq!(clamped(0), 0);
    assert_eq!(clamped(WORLD_BOUND + 1), WORLD_BOUND);
    assert_eq!(clamped(-WORLD_BOUND - 5), -WORLD_BOUND);
}

#[test]
fn step_toward_moves_by_manhattan_speed() {
    // Straight along one axis: the full step lands on that axis.
    let r = step_toward(pos(10_000, 0), pos(0, 0), 200);
    assert_eq!((r.x, r.y), (9_800, 0));
    // A diagonal splits the step between the axes.
    let r = step_toward(pos(0, 0), pos(1_000, 1_000), 200);
    assert_eq!((r.x, r.y), (100, 100));
    // Already at the target: stays put.
    let r = step_toward(pos(7, 7), pos(7, 7), 200);
    assert_eq!((r.x, r.y), (7, 7));
}

#[test]
fn scale_dir_normalizes_to_the_given_magnitude() {
    assert_eq!(scale_dir(10_000, 0, 1_000), (1_000, 0));
    assert_eq!(scale_dir(0, -10_000, 1_000), (0, -1_000));
    assert_eq!(scale_dir(500, 500, 1_000), (500, 500));
    // The degenerate zero direction falls back to the positive x axis.
    assert_eq!(scale_dir(0, 0, 1_000), (1_000, 0));
}
