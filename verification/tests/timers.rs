use survival_core::timer::{Countdown, Timer};

#[test]
fn repeating_timer_waits_full_period() {
    let mut t = Timer::new(1000);
    assert!(!t.tick(400));
    assert_eq!(t.elapsed_ms, 400);
    assert!(!t.tick(400));
    assert_eq!(t.elapsed_ms, 800);
    assert!(t.tick(400));
}

#[test]
fn repeating_timer_wraps_overshoot() {
    let mut t = Timer { elapsed_ms: 500, period_ms: 1000 };
    assert!(t.tick(700));
    assert_eq!(t.elapsed_ms, 200);
    assert_eq!(t.period_ms, 1000);
}

#[test]
fn repeating_timer_exact_boundary() {
    let mut t = Timer::new(3000);
    assert!(t.tick(3000));
    assert_eq!(t.elapsed_ms, 0);
}

#[test]
fn countdown_runs_out_once() {
    let mut c = Countdown::new(1000);
    assert!(!c.tick(999));
    assert_eq!(c.remaining_ms, 1);
    assert!(c.tick(1));
    assert_eq!(c.remaining_ms, 0);
    assert!(c.tick(50));
}

#[test]
fn countdown_clamp_never_lengthens() {
    let mut c = Countdown::new(700);
    c.clamp_to(100);
    assert_eq!(c.remaining_ms, 100);
    c.clamp_to(500);
    assert_eq!(c.remaining_ms, 100);
}
