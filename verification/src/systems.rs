//! The two phases of a tick, as separate systems.
//!
//! The compute phase reads the frozen snapshot only and produces one
//! candidate velocity per agent; the commit phase limits each candidate,
//! moves the agent, and applies the boundary policy. No agent's fresh
//! state is visible to another agent within the same tick: the compute
//! phase finishes over the whole snapshot before anything is written.

use vstd::prelude::*;
use crate::boid::Boid;
use crate::boundary::{apply_boundary, boundary_spec};
use crate::params::{Params, CAND_LIMIT, MAX_AGENTS, MAX_DT};
use crate::speed::{clamp_spec, clamp_speed};
use crate::steer::steer_spec;
use crate::vec2::{lemma_mul_bound, lemma_tdiv_bound, tdiv, tdiv_i64, Vec2I, SCALE};

verus! {

/// The commit of one agent, given the candidate velocity its compute
/// phase produced: the candidate is speed-limited, the position advances
/// by `velocity * dt / SCALE`, and the boundary policy resolves the fresh
/// position. Everything else is carried over.
pub open spec fn commit_spec(a: Boid, cand: (int, int), p: Params) -> Boid {
    let v = clamp_spec(cand.0, cand.1, a.min_speed as int, a.max_speed as int);
    let rawx = a.pos.x + tdiv(v.0 * p.dt, SCALE as int);
    let rawy = a.pos.y + tdiv(v.1 * p.dt, SCALE as int);
    let np = boundary_spec(rawx, rawy, p);
    Boid {
        pos: Vec2I { x: np.0 as i64, y: np.1 as i64 },
        vel: Vec2I { x: v.0 as i64, y: v.1 as i64 },
        ..a
    }
}

/// One whole agent step against a frozen snapshot: steer, then commit.
pub open spec fn step_agent_spec(a: Boid, s: Seq<Boid>, p: Params) -> Boid {
    commit_spec(a, steer_spec(a, s, p), p)
}

/// The compute phase: for every agent, the steering rules against the
/// entire unmodified snapshot.
pub struct CollisionSystem;

impl CollisionSystem {
    /// One candidate velocity per agent, in snapshot order, each equal to
    /// `steer_spec` of that agent against the whole snapshot.
    pub fn run(&self, boids: &Vec<Boid>, p: &Params) -> (r: Vec<Vec2I>)
        requires
            p.wf(),
            boids@.len() <= MAX_AGENTS,
            forall|i: int| 0 <= i < boids@.len() ==> (#[trigger] boids@[i]).wf(),
        ensures
            r@.len() == boids@.len(),
            forall|i: int|
                0 <= i < boids@.len() ==> ((#[trigger] r@[i]).x as int, r@[i].y as int)
                    == steer_spec(boids@[i], boids@, *p),
            forall|i: int|
                0 <= i < boids@.len() ==> -CAND_LIMIT <= (#[trigger] r@[i]).x <= CAND_LIMIT
                    && -CAND_LIMIT <= r@[i].y <= CAND_LIMIT,
    {
        let mut out: Vec<Vec2I> = Vec::new();
        let mut i: usize = 0;
        while i < boids.len()
            invariant
                i <= boids@.len(),
                boids@.len() <= MAX_AGENTS,
                p.wf(),
                forall|j: int| 0 <= j < boids@.len() ==> (#[trigger] boids@[j]).wf(),
                out@.len() == i,
                forall|j: int|
                    0 <= j < i ==> ((#[trigger] out@[j]).x as int, out@[j].y as int) == steer_spec(
                        boids@[j],
                        boids@,
                        *p,
                    ),
                forall|j: int|
                    0 <= j < i ==> -CAND_LIMIT <= (#[trigger] out@[j]).x <= CAND_LIMIT
                        && -CAND_LIMIT <= out@[j].y <= CAND_LIMIT,
            decreases boids@.len() - i,
        {
            let b = boids[i];
            let c = b.calculate_new_velocity(boids, p);
            out.push(c);
            i = i + 1;
        }
        out
    }
}

/// The commit phase: speed limiting, movement and the boundary policy,
/// writing each agent's new state from its own candidate alone.
pub struct MovementSystem;

impl MovementSystem {
    /// Replaces every agent with its committed step. Each new agent is a
    /// pure function of its old state and its candidate; ids, radii, tags
    /// and tunables are untouched, and every result is well-formed.
    pub fn run(&self, boids: &mut Vec<Boid>, cands: &Vec<Vec2I>, p: &Params)
        requires
            p.wf(),
            old(boids)@.len() == cands@.len(),
            forall|i: int| 0 <= i < old(boids)@.len() ==> (#[trigger] old(boids)@[i]).wf(),
            forall|i: int|
                0 <= i < cands@.len() ==> -CAND_LIMIT <= (#[trigger] cands@[i]).x <= CAND_LIMIT
                    && -CAND_LIMIT <= cands@[i].y <= CAND_LIMIT,
        ensures
            final(boids)@.len() == old(boids)@.len(),
            forall|i: int|
                0 <= i < old(boids)@.len() ==> #[trigger] final(boids)@[i] == commit_spec(
                    old(boids)@[i],
                    (cands@[i].x as int, cands@[i].y as int),
                    *p,
                ),
            forall|i: int| 0 <= i < final(boids)@.len() ==> (#[trigger] final(boids)@[i]).wf(),
            p.boundary is Wrap ==> forall|i: int|
                0 <= i < final(boids)@.len() ==> 0 <= (#[trigger] final(boids)@[i]).pos.x < p.width
                    && 0 <= final(boids)@[i].pos.y < p.height,
    {
        let ghost orig = boids@;
        let mut i: usize = 0;
        while i < boids.len()
            invariant
                i <= orig.len(),
                boids@.len() == orig.len(),
                orig.len() == cands@.len(),
                p.wf(),
                forall|j: int| 0 <= j < orig.len() ==> (#[trigger] orig[j]).wf(),
                forall|j: int|
                    0 <= j < cands@.len() ==> -CAND_LIMIT <= (#[trigger] cands@[j]).x <= CAND_LIMIT
                        && -CAND_LIMIT <= cands@[j].y <= CAND_LIMIT,
                forall|j: int| i <= j < orig.len() ==> #[trigger] boids@[j] == orig[j],
                forall|j: int|
                    0 <= j < i ==> #[trigger] boids@[j] == commit_spec(
                        orig[j],
                        (cands@[j].x as int, cands@[j].y as int),
                        *p,
                    ),
                forall|j: int| 0 <= j < i ==> (#[trigger] boids@[j]).wf(),
                p.boundary is Wrap ==> forall|j: int|
                    0 <= j < i ==> 0 <= (#[trigger] boids@[j]).pos.x < p.width && 0 <= boids@[j].pos.y
                        < p.height,
            decreases orig.len() - i,
        {
            let a = boids[i];
            let v = clamp_speed(cands[i], a.min_speed, a.max_speed);
            proof {
                lemma_mul_bound(v.x as int, p.dt as int, 1_000_000, MAX_DT as int);
                lemma_mul_bound(v.y as int, p.dt as int, 1_000_000, MAX_DT as int);
                lemma_tdiv_bound(v.x as int * p.dt, SCALE as int, 1_000_000_000_000);
                lemma_tdiv_bound(v.y as int * p.dt, SCALE as int, 1_000_000_000_000);
            }
            let mut np = Vec2I {
                x: a.pos.x + tdiv_i64(v.x * p.dt, SCALE),
                y: a.pos.y + tdiv_i64(v.y * p.dt, SCALE),
            };
            apply_boundary(&mut np, p);
            let stepped = Boid { pos: np, vel: v, ..a };
            boids[i] = stepped;
            i = i + 1;
        }
    }
}

} // verus!
