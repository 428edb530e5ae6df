use cj2k26::timing::{DiveTimer, FireCooldown, FrameClock, FIRE_COOLDOWN, MAX_FRAME_NS, TICK_NS};

#[test]
fn clock_hands_out_whole_ticks() {
    let mut c = FrameClock::new();
    assert_eq!(c.advance(0), 0);
    assert_eq!(c.advance(10_000_000), 0);
    assert_eq!(c.pending_ns(), 10_000_000);
    assert_eq!(c.advance(10_000_000), 1);
    assert_eq!(c.pending_ns(), 20_000_000 - TICK_NS);
}

#[test]
fn clock_caps_long_frames() {
    let mut c = FrameClock::new();
    assert_eq!(c.advance(5_000_000_000), 5);
    assert_eq!(c.pending_ns(), MAX_FRAME_NS - 5 * TICK_NS);
    assert_eq!(c.advance(u64::MAX), 6);
    assert_eq!(c.pending_ns(), 2 * MAX_FRAME_NS - 11 * TICK_NS);
}

#[test]
fn dive_every_interval() {
    let mut t = DiveTimer::new();
    for _ in 0..179 {
        assert!(!t.tick(8));
    }
    assert!(t.tick(8));
    assert_eq!(t.ticks(), 0);
}

#[test]
fn no_dive_without_enemies() {
    let mut t = DiveTimer::new();
    for _ in 0..400 {
        assert!(!t.tick(0));
    }
    assert_eq!(t.ticks(), 400);
    assert!(t.tick(1));
}

#[test]
fn gun_cooldown() {
    let mut g = FireCooldown::new();
    assert!(g.try_fire());
    assert!(!g.try_fire());
    for _ in 0..FIRE_COOLDOWN - 1 {
        g.tick();
        assert!(!g.try_fire());
    }
    g.tick();
    assert!(g.try_fire());
    for _ in 0..100 {
        g.tick();
    }
    assert!(g.try_fire());
}
