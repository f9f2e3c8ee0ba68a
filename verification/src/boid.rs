//! One flocking agent and its neighborhood predicates.

use vstd::prelude::*;
use crate::vec2::{dist_sq, dot, Vec2I, SCALE};
use crate::vec2::lemma_mul_bound;
use crate::params::{Params, MAX_DIM, MAX_SPEED_LIMIT, MAX_STRENGTH, POS_LIMIT};

verus! {

/// One agent. Every field is a plain fixed-point value; `id` is unique in
/// a flock and never reused, `flock` is an opaque tag for visual grouping
/// with no behavioral effect.
#[derive(Clone, Copy, Debug, PartialEq)]
pub struct Boid {
    pub id: u64,
    pub pos: Vec2I,
    pub vel: Vec2I,
    /// Collision radius: another agent within it is too close.
    pub size: i64,
    /// Opaque grouping tag used only for coloring.
    pub flock: u64,
    /// Optional point this agent is repelled from.
    pub goal: Option<Vec2I>,
    pub max_speed: i64,
    pub min_speed: i64,
    pub separation_strength: i64,
    pub cohesion_strength: i64,
    pub alignment_strength: i64,
    pub goal_strength: i64,
}

/// Velocity drawn from a spawn seed: both components are uniform over
/// `[-500, 500]`, half a world unit each way.
pub open spec fn vel_from_seed(seed: u64) -> (int, int) {
    ((seed % 1001) - 500, ((seed / 1001) % 1001) - 500)
}

/// `o` lies strictly in the forward half-plane of `a`: the offset to `o`
/// makes an acute angle with `a`'s velocity, which is its heading. With a
/// zero velocity the heading is undefined and nothing is forward.
pub open spec fn forward_of(a: Boid, o: Boid) -> bool {
    dot(a.vel, Vec2I { x: (o.pos.x - a.pos.x) as i64, y: (o.pos.y - a.pos.y) as i64 }) > 0
}

/// The field-of-view gate: passes everything when gating is off, and only
/// the forward half-plane when it is on.
pub open spec fn fov_ok(a: Boid, o: Boid, p: Params) -> bool {
    !p.fov_gated || forward_of(a, o)
}

impl Boid {
    /// Structural validity: position within the saturation guard, velocity
    /// within the speed machine bound, radius positive, speed band ordered,
    /// strengths non-negative, goal (if any) within the coordinate bound.
    pub open spec fn wf(self) -> bool {
        &&& -POS_LIMIT <= self.pos.x <= POS_LIMIT
        &&& -POS_LIMIT <= self.pos.y <= POS_LIMIT
        &&& -MAX_SPEED_LIMIT <= self.vel.x <= MAX_SPEED_LIMIT
        &&& -MAX_SPEED_LIMIT <= self.vel.y <= MAX_SPEED_LIMIT
        &&& 0 < self.size <= MAX_DIM
        &&& 0 <= self.min_speed <= self.max_speed <= MAX_SPEED_LIMIT
        &&& 0 <= self.separation_strength <= MAX_STRENGTH
        &&& 0 <= self.cohesion_strength <= MAX_STRENGTH
        &&& 0 <= self.alignment_strength <= MAX_STRENGTH
        &&& 0 <= self.goal_strength <= MAX_STRENGTH
        &&& match self.goal {
            Some(g) => -MAX_DIM <= g.x <= MAX_DIM && -MAX_DIM <= g.y <= MAX_DIM,
            None => true,
        }
    }

    /// Runtime check of `wf`, for a host that assembles an agent from
    /// outside input.
    pub fn check(&self) -> (r: bool)
        ensures
            r == self.wf(),
    {
        let goal_ok = match self.goal {
            Some(g) => -MAX_DIM <= g.x && g.x <= MAX_DIM && -MAX_DIM <= g.y && g.y <= MAX_DIM,
            None => true,
        };
        goal_ok && -POS_LIMIT <= self.pos.x && self.pos.x <= POS_LIMIT && -POS_LIMIT <= self.pos.y
            && self.pos.y <= POS_LIMIT && -MAX_SPEED_LIMIT <= self.vel.x && self.vel.x
            <= MAX_SPEED_LIMIT && -MAX_SPEED_LIMIT <= self.vel.y && self.vel.y <= MAX_SPEED_LIMIT
            && 0 < self.size && self.size <= MAX_DIM && 0 <= self.min_speed && self.min_speed
            <= self.max_speed && self.max_speed <= MAX_SPEED_LIMIT && 0 <= self.separation_strength
            && self.separation_strength <= MAX_STRENGTH && 0 <= self.cohesion_strength
            && self.cohesion_strength <= MAX_STRENGTH && 0 <= self.alignment_strength
            && self.alignment_strength <= MAX_STRENGTH && 0 <= self.goal_strength
            && self.goal_strength <= MAX_STRENGTH
    }

    /// A new agent at `(x, y)` with the default tunables: a sixteen-unit
    /// radius, speeds clamped into `[1, 4]` world units per unit time, and
    /// an initial velocity drawn from `seed` (see `vel_from_seed`). The
    /// seed doubles as the opaque flock tag, so one draw covers both.
    pub fn new(id: u64, x: i64, y: i64, seed: u64) -> (r: Boid)
        requires
            -POS_LIMIT <= x <= POS_LIMIT,
            -POS_LIMIT <= y <= POS_LIMIT,
        ensures
            r.wf(),
            r.id == id,
            r.pos.x == x,
            r.pos.y == y,
            (r.vel.x as int, r.vel.y as int) == vel_from_seed(seed),
            r.flock == seed,
            r.goal is None,
            r.size == 16 * SCALE,
            r.max_speed == 4 * SCALE,
            r.min_speed == 1 * SCALE,
            r.separation_strength == 10,
            r.cohesion_strength == 1,
            r.alignment_strength == 100,
            r.goal_strength == 1,
    {
        let vx = (seed % 1001) as i64 - 500;
        let vy = ((seed / 1001) % 1001) as i64 - 500;
        Boid {
            id,
            pos: Vec2I { x, y },
            vel: Vec2I { x: vx, y: vy },
            size: 16 * SCALE,
            flock: seed,
            goal: None,
            max_speed: 4 * SCALE,
            min_speed: 1 * SCALE,
            separation_strength: 10,
            cohesion_strength: 1,
            alignment_strength: 100,
            goal_strength: 1,
        }
    }

    pub fn x(&self) -> (r: i64)
        ensures
            r == self.pos.x,
    {
        self.pos.x
    }

    pub fn y(&self) -> (r: i64)
        ensures
            r == self.pos.y,
    {
        self.pos.y
    }

    pub fn dx(&self) -> (r: i64)
        ensures
            r == self.vel.x,
    {
        self.vel.x
    }

    pub fn dy(&self) -> (r: i64)
        ensures
            r == self.vel.y,
    {
        self.vel.y
    }

    pub fn size(&self) -> (r: i64)
        ensures
            r == self.size,
    {
        self.size
    }

    /// The default sight radius of this agent: five times its size.
    pub fn fov(&self) -> (r: i64)
        requires
            self.wf(),
        ensures
            r == 5 * self.size,
    {
        5 * self.size
    }

    /// Whether `other` is too close: within this agent's own radius.
    /// Compared on squared distances; self-exclusion by id is the caller's
    /// concern.
    pub fn too_close(&self, other: &Boid) -> (r: bool)
        requires
            self.wf(),
            other.wf(),
        ensures
            r == (dist_sq(self.pos, other.pos) <= self.size * self.size),
    {
        proof {
            lemma_mul_bound(self.size as int, self.size as int, MAX_DIM as int, MAX_DIM as int);
        }
        let d2 = self.pos.dist_sq_to(other.pos);
        d2 <= (self.size as i128) * (self.size as i128)
    }

    /// Whether `other` is in sight: within `sight_radius`. Compared on
    /// squared distances; self-exclusion by id is the caller's concern.
    pub fn in_sight(&self, other: &Boid, sight_radius: i64) -> (r: bool)
        requires
            self.wf(),
            other.wf(),
            0 <= sight_radius <= MAX_DIM,
        ensures
            r == (dist_sq(self.pos, other.pos) <= sight_radius * sight_radius),
    {
        proof {
            lemma_mul_bound(sight_radius as int, sight_radius as int, MAX_DIM as int, MAX_DIM as int);
        }
        let d2 = self.pos.dist_sq_to(other.pos);
        d2 <= (sight_radius as i128) * (sight_radius as i128)
    }

    /// The field-of-view test of `fov_ok`: true outright when gating is
    /// off, otherwise exactly when `other` lies strictly forward of this
    /// agent's heading.
    pub fn in_fov(&self, other: &Boid, p: &Params) -> (r: bool)
        requires
            self.wf(),
            other.wf(),
        ensures
            r == fov_ok(*self, *other, *p),
    {
        if !p.fov_gated {
            true
        } else {
            let delta = other.pos.sub(self.pos);
            self.vel.dot_with(delta) > 0
        }
    }
}

} // verus!
