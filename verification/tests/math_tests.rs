use torus_flock::components::{Ship, Velocity, limit_rotation, limit_velocity};
use torus_flock::config::SimConfig;
use torus_flock::fixed::{isqrt, length, normalize, scale};
use torus_flock::move_system::render_pose;
use torus_flock::torus::{distance_squared, distance_xy};
use torus_flock::trig::{atan2_fp, cos_fp, sin_fp};

fn test_cfg() -> SimConfig {
    SimConfig {
        width: 100_000,
        height: 100_000,
        max_speed: 100_000,
        turn_rate: 100,
        accel_forward: 2100,
        accel_reverse: 200,
        alignment_range: 15_000,
        cohesion_range: 20_000,
        separation_range: 14_000,
        alignment_weight: 1000,
        cohesion_weight: 0,
        separation_weight: 1000,
        dt: 16,
    }
}

fn ship_at(id: i32, x: i64, y: i64) -> Ship {
    Ship { id, rotation: 0, x, y }
}

#[test]
fn isqrt_exact_values() {
    assert_eq!(isqrt(0), 0);
    assert_eq!(isqrt(1), 1);
    assert_eq!(isqrt(2), 1);
    assert_eq!(isqrt(3), 1);
    assert_eq!(isqrt(4), 2);
    assert_eq!(isqrt(999_999), 999);
    assert_eq!(isqrt(1_000_000_000_000), 1_000_000);
    assert_eq!(isqrt(250_000_000_000), 500_000);
}

#[test]
fn scale_rounds_toward_zero() {
    assert_eq!(scale(7, 3, 2), 10);
    assert_eq!(scale(-7, 3, 2), -10);
    assert_eq!(scale(1000, 100, 1000), 100);
    assert_eq!(scale(-1000, 100, 1000), -100);
}

#[test]
fn normalize_zero_vector_is_zero() {
    assert_eq!(normalize(0, 0), (0, 0));
}

#[test]
fn normalize_exact_values() {
    assert_eq!(normalize(3000, 4000), (600, 800));
    assert_eq!(normalize(-2000, 0), (-1000, 0));
    assert_eq!(normalize(0, 5), (0, 1000));
}

#[test]
fn length_of_three_four_five() {
    assert_eq!(length(3000, 4000), 5000);
    assert_eq!(length(0, 0), 0);
}

#[test]
fn velocity_lenght_and_normalize() {
    let v = Velocity { dx: 3000, dy: 4000 };
    assert_eq!(v.lenght(), 5000);
    let mut w = Velocity { dx: 3000, dy: 4000 };
    w.normalize();
    assert_eq!(w, Velocity { dx: 600, dy: 800 });
    let mut z = Velocity { dx: 0, dy: 0 };
    z.normalize();
    assert_eq!(z, Velocity { dx: 0, dy: 0 });
}

#[test]
fn sine_cosine_quarter_points() {
    assert_eq!(sin_fp(0), 0);
    assert_eq!(sin_fp(1572), 1000);
    assert_eq!(sin_fp(3144), 0);
    assert_eq!(sin_fp(4716), -1000);
    assert_eq!(cos_fp(0), 1000);
    assert_eq!(cos_fp(1572), 0);
    assert_eq!(cos_fp(3144), -1000);
    assert_eq!(cos_fp(4716), 0);
}

#[test]
fn sine_eighth_turn_close_to_root_half() {
    assert_eq!(sin_fp(786), 705);
}

#[test]
fn atan2_axes_and_diagonal() {
    assert_eq!(atan2_fp(0, 5), 0);
    assert_eq!(atan2_fp(5, 0), 1572);
    assert_eq!(atan2_fp(0, -5), 3144);
    assert_eq!(atan2_fp(-5, 0), 4716);
    assert_eq!(atan2_fp(1000, 1000), 786);
    assert_eq!(atan2_fp(-3, -3), 3930);
    assert_eq!(atan2_fp(0, 0), 0);
}

#[test]
fn limit_velocity_within_ceiling_is_untouched() {
    let mut v = Velocity { dx: 100, dy: -250 };
    limit_velocity(&mut v, 100_000);
    assert_eq!(v, Velocity { dx: 100, dy: -250 });
}

#[test]
fn limit_velocity_clamps_to_ceiling() {
    let mut v = Velocity { dx: 300_000, dy: 400_000 };
    limit_velocity(&mut v, 100_000);
    assert_eq!(v, Velocity { dx: 60_000, dy: 80_000 });
    let max: i64 = 100_000;
    assert!(v.dx * v.dx + v.dy * v.dy <= max * max + 2 * max);
}

#[test]
fn limit_rotation_wraps_one_step() {
    let mut s = Ship { id: 0, rotation: -10, x: 0, y: 0 };
    limit_rotation(&mut s);
    assert_eq!(s.rotation, 6278);
    let mut s = Ship { id: 0, rotation: 6290, x: 0, y: 0 };
    limit_rotation(&mut s);
    assert_eq!(s.rotation, 2);
    let mut s = Ship { id: 0, rotation: 3000, x: 0, y: 0 };
    limit_rotation(&mut s);
    assert_eq!(s.rotation, 3000);
}

#[test]
fn toroidal_offset_direct_and_wrapped() {
    let cfg = test_cfg();
    let a = ship_at(1, 10_000, 10_000);
    let b = ship_at(2, 12_000, 10_000);
    assert_eq!(distance_xy(&a, &b, &cfg), (2000, 0));
    // Across the edge: from x = 1 to x = 99 the short way is -2 units.
    let c = ship_at(3, 1_000, 50_000);
    let d = ship_at(4, 99_000, 50_000);
    assert_eq!(distance_xy(&c, &d, &cfg), (-2000, 0));
    assert_eq!(distance_xy(&d, &c, &cfg), (2000, 0));
}

#[test]
fn toroidal_distance_symmetry_concrete() {
    let cfg = test_cfg();
    let a = ship_at(1, 10_000, 30_000);
    let b = ship_at(2, 97_000, 4_000);
    assert_eq!(distance_squared(&a, &b, &cfg), distance_squared(&b, &a, &cfg));
    assert_eq!(distance_squared(&a, &b, &cfg), 13_000i64 * 13_000 + 26_000i64 * 26_000);
}

#[test]
fn toroidal_distance_bound_at_antipode() {
    let cfg = test_cfg();
    let a = ship_at(1, 0, 0);
    let b = ship_at(2, 50_000, 50_000);
    let d2 = distance_squared(&a, &b, &cfg);
    let half_w = cfg.width / 2;
    let half_h = cfg.height / 2;
    assert_eq!(d2, half_w * half_w + half_h * half_h);
    assert!(d2 <= half_w * half_w + half_h * half_h);
}

#[test]
fn ship_translate_and_set() {
    let mut s = ship_at(7, 1000, 2000);
    s.translate_x(500);
    assert_eq!((s.x, s.y), (1500, 2000));
    s.translate_y(-500);
    assert_eq!((s.x, s.y), (1500, 1500));
    s.translate_xy(100, 200);
    assert_eq!((s.x, s.y), (1600, 1700));
    s.set_xy(5, 6);
    assert_eq!((s.x, s.y), (5, 6));
    s.set_rotation(321);
    assert_eq!(s.rotation, 321);
    assert_eq!(s.id, 7);
}

#[test]
fn render_pose_offsets_a_quarter_turn() {
    let s = Ship { id: 1, rotation: 0, x: 11, y: 22 };
    assert_eq!(render_pose(&s), (11, 22, 1572));
    let s = Ship { id: 1, rotation: 5000, x: 0, y: 0 };
    assert_eq!(render_pose(&s), (0, 0, 284));
}

#[test]
fn standard_config_values() {
    let cfg = SimConfig::standard();
    assert_eq!(cfg.width, 200_000);
    assert_eq!(cfg.height, 200_000);
    assert_eq!(cfg.max_speed, 100_000);
    assert_eq!(cfg.cohesion_weight, 0);
    assert_eq!(cfg.alignment_weight, 1000);
    assert_eq!(cfg.separation_weight, 1000);
}
