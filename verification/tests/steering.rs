use boids::boid::Boid;
use boids::params::{BoundaryMode, Params};
use boids::systems::{CollisionSystem, MovementSystem};
use boids::vec2::Vec2I;

fn arena() -> Params {
    Params {
        width: 100_000,
        height: 100_000,
        dt: 1_000,
        sight_radius: 80_000,
        fov_gated: false,
        boundary: BoundaryMode::Wrap,
        edge_push: 0,
    }
}

fn separation_only(id: u64, x: i64, y: i64) -> Boid {
    Boid {
        id,
        pos: Vec2I { x, y },
        vel: Vec2I { x: 0, y: 0 },
        size: 16_000,
        flock: 0,
        goal: None,
        max_speed: 4_000,
        min_speed: 1_000,
        separation_strength: 10,
        cohesion_strength: 0,
        alignment_strength: 0,
        goal_strength: 0,
    }
}

#[test]
fn separation_pushes_two_close_agents_apart() {
    // Agents five units apart with a sixteen-unit radius and a strength
    // of 0.01: each contribution is 0.01 times the offset, pointing away
    // from the other.
    let a = separation_only(0, 0, 0);
    let b = separation_only(1, 5_000, 0);
    let flock = vec![a, b];
    let p = arena();
    let ca = a.calculate_new_velocity(&flock, &p);
    let cb = b.calculate_new_velocity(&flock, &p);
    assert_eq!((ca.x, ca.y), (-50, 0));
    assert_eq!((cb.x, cb.y), (50, 0));
}

#[test]
fn separation_contributions_mirror_each_other() {
    let a = separation_only(3, 10_000, 22_000);
    let b = separation_only(7, 12_500, 18_000);
    let flock = vec![a, b];
    let p = arena();
    let ca = a.calculate_new_velocity(&flock, &p);
    let cb = b.calculate_new_velocity(&flock, &p);
    assert_eq!(ca.x, -cb.x);
    assert_eq!(ca.y, -cb.y);
}

#[test]
fn lone_agent_keeps_its_velocity() {
    let mut a = separation_only(0, 50_000, 50_000);
    a.vel = Vec2I { x: 2_000, y: -1_500 };
    let flock = vec![a];
    let c = a.calculate_new_velocity(&flock, &arena());
    assert_eq!((c.x, c.y), (2_000, -1_500));
}

#[test]
fn far_agents_do_not_interact() {
    let mut a = separation_only(0, 1_000, 1_000);
    a.vel = Vec2I { x: 1_200, y: 0 };
    let mut b = separation_only(1, 99_000, 99_000);
    b.vel = Vec2I { x: 0, y: 1_200 };
    let mut p = arena();
    p.sight_radius = 10_000;
    let flock = vec![a, b];
    let ca = a.calculate_new_velocity(&flock, &p);
    assert_eq!((ca.x, ca.y), (1_200, 0));
}

#[test]
fn coincident_agents_are_a_defined_case() {
    // Two agents on one point: the separation offset is zero, nothing
    // divides by the zero distance.
    let a = separation_only(0, 40_000, 40_000);
    let b = separation_only(1, 40_000, 40_000);
    let flock = vec![a, b];
    let ca = a.calculate_new_velocity(&flock, &arena());
    assert_eq!((ca.x, ca.y), (0, 0));
}

#[test]
fn goal_repels_the_agent() {
    let mut a = separation_only(0, 60_000, 50_000);
    a.goal = Some(Vec2I { x: 50_000, y: 50_000 });
    a.goal_strength = 100;
    let flock = vec![a];
    let c = a.calculate_new_velocity(&flock, &arena());
    // (pos - goal) * 0.1: pushed further from the goal.
    assert_eq!((c.x, c.y), (1_000, 0));
}

#[test]
fn fov_gate_hides_agents_behind() {
    let mut a = separation_only(0, 50_000, 50_000);
    a.vel = Vec2I { x: 1_000, y: 0 };
    let behind = separation_only(1, 45_000, 50_000);
    let ahead = separation_only(2, 55_000, 50_000);
    let mut p = arena();
    p.fov_gated = true;
    let flock = vec![a, behind, ahead];
    let c = a.calculate_new_velocity(&flock, &p);
    // Only the agent ahead separates: its offset is (-5, 0) scaled by
    // 0.01 on top of the old velocity.
    assert_eq!((c.x, c.y), (1_000 - 50, 0));
}

#[test]
fn fov_gate_excludes_the_exact_perpendicular() {
    let mut a = separation_only(0, 50_000, 50_000);
    a.vel = Vec2I { x: 1_000, y: 0 };
    let above = separation_only(1, 50_000, 55_000);
    let mut p = arena();
    p.fov_gated = true;
    let flock = vec![a, above];
    let c = a.calculate_new_velocity(&flock, &p);
    assert_eq!((c.x, c.y), (1_000, 0));
}

#[test]
fn alignment_steers_toward_the_neighbor_velocity() {
    let mut a = separation_only(0, 20_000, 20_000);
    a.separation_strength = 0;
    a.alignment_strength = 100;
    let mut b = separation_only(1, 60_000, 20_000);
    b.vel = Vec2I { x: 0, y: 3_000 };
    let flock = vec![a, b];
    let c = a.calculate_new_velocity(&flock, &arena());
    // (avg neighbor velocity - own velocity) * 0.1 = (0, 300).
    assert_eq!((c.x, c.y), (0, 300));
}

#[test]
fn cohesion_steers_toward_the_neighborhood_centroid() {
    let mut a = separation_only(0, 20_000, 20_000);
    a.separation_strength = 0;
    a.cohesion_strength = 1_000;
    let b = separation_only(1, 60_000, 20_000);
    let flock = vec![a, b];
    let p = arena();
    let c = a.calculate_new_velocity(&flock, &p);
    // Toward the centroid of in-sight neighbors: (40, 0) scaled by 1.
    assert_eq!((c.x, c.y), (40_000, 0));
}

#[test]
fn in_sight_threshold_is_inclusive() {
    let a = separation_only(0, 0, 0);
    let b = separation_only(1, 30_000, 40_000);
    assert!(a.in_sight(&b, 50_000));
    assert!(!a.in_sight(&b, 49_999));
}

#[test]
fn too_close_threshold_is_the_own_radius() {
    let a = separation_only(0, 0, 0);
    let b = separation_only(1, 16_000, 0);
    assert!(a.too_close(&b));
    let c = separation_only(2, 16_001, 0);
    assert!(!a.too_close(&c));
}

#[test]
fn turning_boundary_pushes_inward_near_an_edge() {
    // Two units from the left edge with a push strength of one: the
    // impulse is strength * SCALE / distance = 500 inward; the two
    // vertical edges are equally near and cancel.
    let mut a = separation_only(0, 2_000, 50_000);
    a.vel = Vec2I { x: 2_000, y: 0 };
    a.separation_strength = 0;
    let mut p = arena();
    p.boundary = BoundaryMode::Turn;
    p.edge_push = 1_000;
    let flock = vec![a];
    let c = a.calculate_new_velocity(&flock, &p);
    assert_eq!((c.x, c.y), (2_500, 0));
}

#[test]
fn compute_phase_reads_only_the_frozen_snapshot() {
    // The collision system hands back one candidate per agent, computed
    // against the unmodified snapshot; committing through the movement
    // system then matches computing each candidate by hand first.
    let a = separation_only(0, 10_000, 10_000);
    let b = separation_only(1, 13_000, 10_000);
    let flock = vec![a, b];
    let p = arena();
    let cs = CollisionSystem;
    let cands = cs.run(&flock, &p);
    let by_hand_a = a.calculate_new_velocity(&flock, &p);
    let by_hand_b = b.calculate_new_velocity(&flock, &p);
    assert_eq!((cands[0].x, cands[0].y), (by_hand_a.x, by_hand_a.y));
    assert_eq!((cands[1].x, cands[1].y), (by_hand_b.x, by_hand_b.y));

    let ms = MovementSystem;
    let mut committed = flock.clone();
    ms.run(&mut committed, &cands, &p);
    assert_eq!(committed.len(), 2);
    assert_eq!(committed[0].id, 0);
    assert_eq!(committed[1].id, 1);
}
