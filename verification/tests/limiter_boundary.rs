use boids::boid::Boid;
use boids::boundary::wrap_edges;
use boids::speed::clamp_speed;
use boids::vec2::Vec2I;

fn agent(id: u64, x: i64, y: i64, vx: i64, vy: i64) -> Boid {
    Boid {
        id,
        pos: Vec2I { x, y },
        vel: Vec2I { x: vx, y: vy },
        size: 16_000,
        flock: 0,
        goal: None,
        max_speed: 4_000,
        min_speed: 1_000,
        separation_strength: 10,
        cohesion_strength: 1,
        alignment_strength: 100,
        goal_strength: 1,
    }
}

#[test]
fn clamp_scales_fast_velocity_down_to_max() {
    // |v| = 50 units, max = 4 units: scaled along its own direction.
    let r = clamp_speed(Vec2I { x: 30_000, y: 40_000 }, 1_000, 4_000);
    assert_eq!((r.x, r.y), (2_400, 3_200));
    let s2 = r.x * r.x + r.y * r.y;
    assert!(1_000 * 1_000 <= s2 && s2 <= 4_000 * 4_000);
}

#[test]
fn clamp_scales_slow_velocity_up_past_min() {
    // |v| = 0.5 units, min = 1 unit: raised just above the minimum.
    let r = clamp_speed(Vec2I { x: 300, y: 400 }, 1_000, 4_000);
    assert_eq!((r.x, r.y), (602, 803));
    let s2 = r.x * r.x + r.y * r.y;
    assert!(1_000 * 1_000 <= s2 && s2 <= 4_000 * 4_000);
}

#[test]
fn clamp_keeps_velocity_inside_band() {
    let r = clamp_speed(Vec2I { x: 2_000, y: 0 }, 1_000, 4_000);
    assert_eq!((r.x, r.y), (2_000, 0));
    let r = clamp_speed(Vec2I { x: -999, y: -1_200 }, 1_000, 4_000);
    assert_eq!((r.x, r.y), (-999, -1_200));
}

#[test]
fn clamp_leaves_zero_velocity_alone() {
    let r = clamp_speed(Vec2I { x: 0, y: 0 }, 1_000, 4_000);
    assert_eq!((r.x, r.y), (0, 0));
}

#[test]
fn clamp_speed_band_holds_on_many_magnitudes() {
    // The speed bound on a sweep of directions and magnitudes.
    let min = 1_000i64;
    let max = 4_000i64;
    for vx in [-900_000i64, -5_000, -700, -1, 1, 250, 3_999, 64_000, 2_000_000] {
        for vy in [-800_000i64, -3_000, -2, 0, 9, 1_500, 88_000] {
            let r = clamp_speed(Vec2I { x: vx, y: vy }, min, max);
            let s2 = r.x * r.x + r.y * r.y;
            if vx == 0 && vy == 0 {
                assert_eq!(s2, 0);
            } else {
                assert!(min * min <= s2, "({vx},{vy}) gave {s2}");
                assert!(s2 <= max * max, "({vx},{vy}) gave {s2}");
            }
        }
    }
}

#[test]
fn limit_speed_acts_on_the_agent_in_place() {
    let mut a = agent(1, 0, 0, 30_000, 40_000);
    a.limit_speed();
    assert_eq!((a.vel.x, a.vel.y), (2_400, 3_200));
    assert_eq!((a.pos.x, a.pos.y), (0, 0));
    assert_eq!(a.id, 1);
}

#[test]
fn wrap_carries_the_overshoot_to_the_opposite_edge() {
    let mut v = Vec2I { x: 101_500, y: -500 };
    wrap_edges(&mut v, 100_000, 100_000);
    assert_eq!((v.x, v.y), (1_500, 99_500));
}

#[test]
fn wrap_keeps_positions_inside_the_arena() {
    for x in [-250_000i64, -100_000, -1, 0, 1, 99_999, 100_000, 100_001, 399_999] {
        for y in [-70_001i64, 0, 69_999, 70_000, 140_000] {
            let mut v = Vec2I { x, y };
            wrap_edges(&mut v, 100_000, 70_000);
            assert!(0 <= v.x && v.x < 100_000);
            assert!(0 <= v.y && v.y < 70_000);
        }
    }
}

#[test]
fn wrapping_twice_is_wrapping_once() {
    let mut v = Vec2I { x: 123_456, y: -77_777 };
    wrap_edges(&mut v, 100_000, 100_000);
    let once = (v.x, v.y);
    wrap_edges(&mut v, 100_000, 100_000);
    assert_eq!((v.x, v.y), once);
}

#[test]
fn wrap_on_an_exact_multiple_lands_on_zero() {
    let mut v = Vec2I { x: -100_000, y: 200_000 };
    wrap_edges(&mut v, 100_000, 100_000);
    assert_eq!((v.x, v.y), (0, 0));
}
