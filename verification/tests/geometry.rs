use survival_core::geom::{
    clamp_coord, clamp_point, dist, dist2, isqrt, move_toward, scaled_div, wave_offset, Vec2i,
    COORD_LIMIT,
};

#[test]
fn isqrt_small_values() {
    assert_eq!(isqrt(0), 0);
    assert_eq!(isqrt(1), 1);
    assert_eq!(isqrt(3), 1);
    assert_eq!(isqrt(4), 2);
    assert_eq!(isqrt(99), 9);
    assert_eq!(isqrt(100), 10);
}

#[test]
fn isqrt_exact_squares() {
    assert_eq!(isqrt(4900), 70);
    assert_eq!(isqrt(4899), 69);
    assert_eq!(isqrt(260100), 510);
    assert_eq!(isqrt(250000), 500);
}

#[test]
fn dist_is_euclidean_floor() {
    let a = Vec2i { x: 0, y: 0 };
    let b = Vec2i { x: 3, y: 4 };
    assert_eq!(dist2(a, b), 25);
    assert_eq!(dist(a, b), 5);
    let c = Vec2i { x: 1, y: 1 };
    assert_eq!(dist(a, c), 1); // floor of sqrt(2)
    assert_eq!(dist(a, a), 0);
}

#[test]
fn scaled_div_rounds_toward_zero() {
    assert_eq!(scaled_div(7, 3, 2), 10); // 21/2 rounded down
    assert_eq!(scaled_div(-7, 3, 2), -10); // magnitude rounded down, sign kept
    assert_eq!(scaled_div(0, 5, 3), 0);
    assert_eq!(scaled_div(-500, 400, 500), -400);
}

#[test]
fn wave_offset_cardinal_points() {
    assert_eq!(wave_offset(0, 4, 800), Vec2i { x: 800, y: 0 });
    assert_eq!(wave_offset(1, 4, 800), Vec2i { x: 0, y: 800 });
    assert_eq!(wave_offset(2, 4, 800), Vec2i { x: -800, y: 0 });
    assert_eq!(wave_offset(3, 4, 800), Vec2i { x: 0, y: -800 });
}

#[test]
fn wave_offset_stays_on_disc() {
    for n in 0..7u32 {
        let o = wave_offset(n, 7, 100);
        assert!(o.x.abs() <= 100 && o.y.abs() <= 100);
        // evenly distributed: every slot is close to the circle itself
        let d2 = o.x * o.x + o.y * o.y;
        assert!(d2 > 90 * 90, "slot {} fell inside the circle: {:?}", n, o);
    }
}

#[test]
fn wave_offset_first_slot_faces_east() {
    assert_eq!(wave_offset(0, 3, 100), Vec2i { x: 100, y: 0 });
    assert_eq!(wave_offset(0, 5, 250), Vec2i { x: 250, y: 0 });
}

#[test]
fn move_toward_partial_step() {
    let r = move_toward(Vec2i { x: 0, y: 0 }, Vec2i { x: 10, y: 0 }, 3);
    assert_eq!(r, Vec2i { x: 3, y: 0 });
}

#[test]
fn move_toward_snaps_onto_target() {
    let r = move_toward(Vec2i { x: 0, y: 0 }, Vec2i { x: 10, y: 0 }, 10);
    assert_eq!(r, Vec2i { x: 10, y: 0 });
    let r = move_toward(Vec2i { x: 4, y: 4 }, Vec2i { x: 0, y: 0 }, 1000);
    assert_eq!(r, Vec2i { x: 0, y: 0 });
}

#[test]
fn move_toward_zero_distance_stays() {
    let p = Vec2i { x: 7, y: -7 };
    assert_eq!(move_toward(p, p, 50), p);
}

#[test]
fn move_toward_never_overshoots_diagonal() {
    let mut p = Vec2i { x: 500, y: 10 };
    let target = Vec2i { x: 0, y: 10 };
    let mut last = dist(p, target);
    for _ in 0..10 {
        p = move_toward(p, target, 80);
        let d = dist(p, target);
        assert!(d <= last);
        last = d;
    }
    assert_eq!(p, target);
}

#[test]
fn clamp_keeps_world_bounds() {
    assert_eq!(clamp_coord(COORD_LIMIT + 5), COORD_LIMIT);
    assert_eq!(clamp_coord(-COORD_LIMIT - 5), -COORD_LIMIT);
    assert_eq!(clamp_coord(123), 123);
    let p = clamp_point(Vec2i { x: i64::MAX, y: i64::MIN });
    assert_eq!(p, Vec2i { x: COORD_LIMIT, y: -COORD_LIMIT });
}
