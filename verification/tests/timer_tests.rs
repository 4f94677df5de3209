use survivors_core::timer::{AnimationTimer, RepeatTimer};

#[test]
fn timer_fires_once_when_deltas_cross_the_interval() {
    // Interval 1.0 time units (1000 ms), ticked with 0.4, 0.4, 0.3: only the
    // third tick crosses the boundary, and the overshoot carries over.
    let mut t = RepeatTimer::new(1_000);
    assert!(!t.tick(400));
    assert!(!t.tick(400));
    assert!(t.tick(300));
    assert_eq!(t.elapsed, 100);
}

#[test]
fn timer_never_bursts_on_a_large_delta() {
    // A delta spanning several intervals still fires exactly once.
    let mut t = RepeatTimer::new(1_000);
    assert!(t.tick(3_500));
    assert_eq!(t.elapsed, 500);
    assert!(!t.tick(400));
    assert!(t.tick(100));
}

#[test]
fn timer_fires_exactly_on_the_boundary() {
    let mut t = RepeatTimer::new(1_000);
    assert!(!t.tick(999));
    assert!(t.tick(1));
    assert_eq!(t.elapsed, 0);
}

#[test]
fn animation_frame_wraps_around_the_frame_count() {
    let mut a = AnimationTimer::new(100, 4);
    for expected in [1usize, 2, 3, 0, 1] {
        let fired = a.advance(100);
        assert!(fired);
        assert_eq!(a.frame, expected);
    }
}

#[test]
fn animation_frame_stays_until_the_interval_crosses() {
    let mut a = AnimationTimer::new(100, 4);
    assert!(!a.advance(60));
    assert_eq!(a.frame, 0);
    assert!(a.advance(60));
    assert_eq!(a.frame, 1);
}
