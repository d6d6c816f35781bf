use cursor_overlay::effects::{
    ClickRipple, Effects, TrailPoint, RIPPLE_DURATION_US, RIPPLE_MAX_RADIUS, TRAIL_LIFETIME_US,
};

fn times(e: &Effects) -> Vec<u64> {
    e.trail.iter().map(|p| p.time_us).collect()
}

#[test]
fn constants() {
    assert_eq!(TRAIL_LIFETIME_US, 300_000);
    assert_eq!(RIPPLE_DURATION_US, 500_000);
    assert_eq!(RIPPLE_MAX_RADIUS, 120);
}

#[test]
fn trail_keeps_the_last_300_ms() {
    let mut e = Effects::new();
    e.record_pointer(1, 1, 0);
    e.record_pointer(2, 2, 100_000);
    e.record_pointer(3, 3, 300_000);
    assert_eq!(times(&e), vec![0, 100_000, 300_000]); // exactly 0.3 s old: kept
    e.record_pointer(4, 4, 300_001);
    assert_eq!(times(&e), vec![100_000, 300_000, 300_001]);
    e.record_pointer(5, 5, 1_000_000);
    assert_eq!(times(&e), vec![1_000_000]);
    assert_eq!(*e.trail.back().unwrap(), TrailPoint { x: 5, y: 5, time_us: 1_000_000 });
    assert_eq!(e.now_us, 1_000_000);
}

#[test]
fn clicks_start_ripples_at_frame_time() {
    let mut e = Effects::new();
    e.record_pointer(0, 0, 42);
    e.add_clicks(&[(10, 20), (-5, 7)], -100, 10);
    assert_eq!(
        e.ripples,
        vec![
            ClickRipple { x: 110, y: 10, start_us: 42, max_radius: 120, duration_us: 500_000 },
            ClickRipple { x: 95, y: -3, start_us: 42, max_radius: 120, duration_us: 500_000 },
        ]
    );
}

#[test]
fn ripples_expire_after_half_a_second() {
    let mut e = Effects::new();
    e.advance(0, 0, 0, &[(1, 1)], 0, 0);
    e.advance(200_000, 0, 0, &[(2, 2)], 0, 0);
    assert_eq!(e.ripples.len(), 2);
    e.advance(499_999, 0, 0, &[], 0, 0);
    assert_eq!(e.ripples.len(), 2);
    e.advance(500_000, 0, 0, &[], 0, 0); // exactly 0.5 s: gone
    assert_eq!(e.ripples.iter().map(|r| r.x).collect::<Vec<_>>(), vec![2]);
    e.advance(700_000, 0, 0, &[], 0, 0);
    assert!(e.ripples.is_empty());
}

#[test]
fn advance_orders_trail_then_ripples() {
    let mut e = Effects::new();
    e.advance(10, 3, 4, &[(7, 8)], 1, 1);
    assert_eq!(times(&e), vec![10]);
    assert_eq!(e.ripples[0].x, 6);
    assert_eq!(e.ripples[0].start_us, 10);
}

#[test]
fn drawn_trail_skips_points_at_the_limit() {
    let mut e = Effects::new();
    e.record_pointer(1, 0, 0);
    e.record_pointer(2, 0, 150_000);
    e.record_pointer(3, 0, 300_000);
    let drawn = e.drawn_trail();
    // the point exactly 0.3 s old is kept but not drawn; indices are trail positions
    assert_eq!(drawn.iter().map(|(i, p)| (*i, p.x)).collect::<Vec<_>>(), vec![(1, 2), (2, 3)]);
}
