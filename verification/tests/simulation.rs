use boids::boid::Boid;
use boids::params::{BoundaryMode, Params, MAX_AGENTS};
use boids::rng::{rand_below, random_spawn_event, rng_from_seed};
use boids::sim::{Boids, Event};
use boids::vec2::Vec2I;

fn arena() -> Params {
    Params {
        width: 100_000,
        height: 100_000,
        dt: 1_000,
        sight_radius: 80_000,
        fov_gated: false,
        boundary: BoundaryMode::Wrap,
        edge_push: 0,
    }
}

fn plain_agent(id: u64, x: i64, y: i64, vx: i64, vy: i64) -> Boid {
    Boid {
        id,
        pos: Vec2I { x, y },
        vel: Vec2I { x: vx, y: vy },
        size: 16_000,
        flock: 0,
        goal: None,
        max_speed: 4_000,
        min_speed: 1_000,
        separation_strength: 10,
        cohesion_strength: 1,
        alignment_strength: 100,
        goal_strength: 1,
    }
}

#[test]
fn wrap_scenario_crosses_the_right_edge() {
    // Arena 100 by 100, dt one, agent at (99.5, 50) moving (2, 0): after
    // one tick the x coordinate has wrapped to 99.5 + 2 - 100 = 1.5.
    let a = plain_agent(0, 99_500, 50_000, 2_000, 0);
    let mut sim = Boids::from_agents(vec![a]).unwrap();
    sim.tick(&arena());
    let agents = sim.agents();
    assert_eq!(agents.len(), 1);
    assert_eq!((agents[0].pos.x, agents[0].pos.y), (1_500, 50_000));
    assert_eq!((agents[0].vel.x, agents[0].vel.y), (2_000, 0));
}

#[test]
fn isolated_agent_velocity_is_stable() {
    // No neighbor in sight and no goal: steering contributes nothing and
    // the in-band velocity passes the limiter unchanged, tick after tick.
    let a = plain_agent(0, 50_000, 50_000, 2_000, -1_500);
    let mut sim = Boids::from_agents(vec![a]).unwrap();
    for _ in 0..5 {
        sim.tick(&arena());
        let agents = sim.agents();
        assert_eq!((agents[0].vel.x, agents[0].vel.y), (2_000, -1_500));
    }
}

#[test]
fn identical_states_tick_identically() {
    let build = || {
        let mut sim = Boids::new();
        assert!(sim.queue_event(Event::Spawn { x: 10_000, y: 20_000, seed: 1234 }));
        assert!(sim.queue_event(Event::Spawn { x: 12_000, y: 20_500, seed: 99 }));
        assert!(sim.queue_event(Event::Spawn { x: 80_000, y: 70_000, seed: 7 }));
        sim
    };
    let p = arena();
    let mut s1 = build();
    let mut s2 = build();
    for _ in 0..4 {
        s1.tick(&p);
        s2.tick(&p);
        assert_eq!(s1.agents(), s2.agents());
        assert_eq!(s1.population(), s2.population());
        assert_eq!(s1.tick_count(), s2.tick_count());
    }
}

#[test]
fn spawns_beyond_the_ceiling_are_rejected() {
    let p = Params {
        // A small sight radius keeps this big flock cheap to step.
        sight_radius: 0,
        ..arena()
    };
    let mut sim = Boids::new();
    for i in 0..(MAX_AGENTS + 30) {
        assert!(sim.queue_event(Event::Spawn {
            x: (i as i64 * 997) % 100_000,
            y: (i as i64 * 641) % 100_000,
            seed: i as u64,
        }));
    }
    sim.tick(&p);
    assert_eq!(sim.population(), MAX_AGENTS);
    // Continuous spawn attempts never push the population past the
    // ceiling.
    for t in 0..1_000 {
        assert!(sim.queue_event(Event::Spawn { x: 1_000, y: 2_000, seed: t }));
        if t % 50 == 0 {
            sim.tick(&p);
            assert_eq!(sim.population(), MAX_AGENTS);
        }
    }
    sim.tick(&p);
    assert_eq!(sim.population(), MAX_AGENTS);
}

#[test]
fn spawn_takes_velocity_and_tag_from_the_seed() {
    let mut sim = Boids::new();
    let seed = 5_u64 + 1001 * 700;
    assert!(sim.queue_event(Event::Spawn { x: 30_000, y: 40_000, seed }));
    sim.tick(&arena());
    let agents = sim.agents();
    assert_eq!(agents.len(), 1);
    let a = agents[0];
    assert_eq!(a.flock, seed);
    assert_eq!(a.id, 0);
    // Spawn velocity components are seed % 1001 - 500 and
    // seed / 1001 % 1001 - 500: here (-495, 200), which the limiter then
    // raises into the band during the same tick.
    let (vx, vy) = (-495.0f64, 200.0f64);
    let speed = (a.vel.x * a.vel.x + a.vel.y * a.vel.y) as f64;
    assert!(speed >= 1_000.0 * 1_000.0 && speed <= 4_000.0 * 4_000.0);
    // Direction is kept: the committed velocity is parallel to the seed
    // velocity, up to truncation.
    assert!((a.vel.x as f64 * vy - a.vel.y as f64 * vx).abs() < 2_500.0);
    assert!(a.vel.x < 0 && a.vel.y > 0);
}

#[test]
fn ids_ascend_and_are_never_reused() {
    let mut sim = Boids::new();
    for i in 0..4u64 {
        assert!(sim.queue_event(Event::Spawn { x: 10_000 + 20_000 * i as i64, y: 50_000, seed: i }));
    }
    sim.tick(&arena());
    let ids: Vec<u64> = sim.agents().iter().map(|a| a.id).collect();
    assert_eq!(ids, vec![0, 1, 2, 3]);
    assert!(sim.queue_event(Event::Spawn { x: 90_000, y: 90_000, seed: 9 }));
    sim.tick(&arena());
    assert_eq!(sim.agents()[4].id, 4);
}

#[test]
fn goal_events_address_one_agent_or_all() {
    let mut sim = Boids::new();
    assert!(sim.queue_event(Event::Spawn { x: 10_000, y: 10_000, seed: 1 }));
    assert!(sim.queue_event(Event::Spawn { x: 90_000, y: 90_000, seed: 2 }));
    sim.tick(&arena());
    assert!(sim.queue_event(Event::SetGoal { target: None, x: 50_000, y: 50_000 }));
    sim.tick(&arena());
    assert!(sim.agents().iter().all(|a| a.goal == Some(Vec2I { x: 50_000, y: 50_000 })));
    assert!(sim.queue_event(Event::ClearGoal { target: Some(0) }));
    sim.tick(&arena());
    assert_eq!(sim.agents()[0].goal, None);
    assert_eq!(sim.agents()[1].goal, Some(Vec2I { x: 50_000, y: 50_000 }));
    assert!(sim.queue_event(Event::ClearGoal { target: None }));
    sim.tick(&arena());
    assert!(sim.agents().iter().all(|a| a.goal.is_none()));
}

#[test]
fn unacceptable_events_are_rejected() {
    let mut sim = Boids::new();
    assert!(!sim.queue_event(Event::Spawn { x: 3_000_000_000, y: 0, seed: 0 }));
    assert!(!sim.queue_event(Event::SetGoal { target: None, x: 0, y: -1_000_000_001 }));
    sim.tick(&arena());
    assert_eq!(sim.population(), 0);
}

#[test]
fn handed_over_snapshots_are_validated() {
    let good = vec![plain_agent(0, 1_000, 1_000, 2_000, 0), plain_agent(5, 2_000, 2_000, 0, 2_000)];
    assert!(Boids::from_agents(good).is_some());

    let duplicate_ids = vec![
        plain_agent(3, 1_000, 1_000, 2_000, 0),
        plain_agent(3, 2_000, 2_000, 0, 2_000),
    ];
    assert!(Boids::from_agents(duplicate_ids).is_none());

    let descending = vec![
        plain_agent(8, 1_000, 1_000, 2_000, 0),
        plain_agent(2, 2_000, 2_000, 0, 2_000),
    ];
    assert!(Boids::from_agents(descending).is_none());

    let mut bad_radius = plain_agent(0, 1_000, 1_000, 2_000, 0);
    bad_radius.size = 0;
    assert!(Boids::from_agents(vec![bad_radius]).is_none());

    let too_many: Vec<Boid> =
        (0..(MAX_AGENTS as u64 + 1)).map(|i| plain_agent(i, 1_000, 1_000, 2_000, 0)).collect();
    assert!(Boids::from_agents(too_many).is_none());
}

#[test]
fn turning_boundary_never_teleports() {
    let p = Params { boundary: BoundaryMode::Turn, edge_push: 1_000, ..arena() };
    // Heading straight at the left edge from just inside it.
    let a = plain_agent(0, 2_000, 50_000, -2_000, 0);
    let mut sim = Boids::from_agents(vec![a]).unwrap();
    let mut last_x = 2_000;
    for _ in 0..4 {
        sim.tick(&p);
        let x = sim.agents()[0].pos.x;
        // Steps stay continuous: no jump to the opposite edge.
        assert!((x - last_x).abs() <= 4_000);
        last_x = x;
    }
    // The inward impulse turned the agent around eventually.
    let vx: Vec<i64> = vec![sim.agents()[0].vel.x];
    assert!(vx[0] > -2_000);
}

#[test]
fn random_spawns_stay_inside_the_arena() {
    let p = arena();
    let mut rng = rng_from_seed(42);
    let mut sim = Boids::new();
    for _ in 0..64 {
        let e = random_spawn_event(&mut rng, &p);
        match e {
            Event::Spawn { x, y, seed: _ } => {
                assert!(0 <= x && x < p.width);
                assert!(0 <= y && y < p.height);
            }
            _ => panic!("a spawn request was expected"),
        }
        assert!(sim.queue_event(e));
    }
    sim.tick(&p);
    assert_eq!(sim.population(), 64);
}

#[test]
fn seeded_generators_repeat_their_stream() {
    let p = arena();
    let mut r1 = rng_from_seed(7);
    let mut r2 = rng_from_seed(7);
    for _ in 0..16 {
        assert_eq!(random_spawn_event(&mut r1, &p), random_spawn_event(&mut r2, &p));
    }
}

#[test]
fn a_draw_below_one_is_zero() {
    let mut rng = rng_from_seed(3);
    for _ in 0..8 {
        assert_eq!(rand_below(&mut rng, 1), 0);
    }
}

#[test]
fn empty_simulation_ticks() {
    let mut sim = Boids::new();
    sim.tick(&arena());
    assert_eq!(sim.population(), 0);
    assert_eq!(sim.tick_count(), 1);
}
