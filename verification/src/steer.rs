//! The steering rules: separation, cohesion, alignment, goal seeking, and
//! the turning boundary impulse.
//!
//! One agent's candidate velocity is computed from the frozen snapshot of
//! the whole flock; no agent ever reads another agent's freshly updated
//! state. Averages use truncating division and never divide by a zero
//! neighbor count: a category with no neighbors contributes nothing.

use vstd::prelude::*;
use crate::boid::{fov_ok, Boid};
use crate::params::{BoundaryMode, Params, CAND_LIMIT, MAX_AGENTS, MAX_DIM, MAX_SPEED_LIMIT,
    MAX_STRENGTH, POS_LIMIT};
use crate::vec2::{dist_sq, lemma_mul_bound, lemma_tdiv_avg_bound, lemma_tdiv_bound, tdiv,
    tdiv_i64, Vec2I, SCALE};

verus! {

/// `o` counts toward `a`'s separation: another agent, within `a`'s own
/// radius, passing the field-of-view gate.
pub open spec fn sep_cond(a: Boid, o: Boid, p: Params) -> bool {
    o.id != a.id && dist_sq(a.pos, o.pos) <= a.size * a.size && fov_ok(a, o, p)
}

/// `o` counts toward `a`'s cohesion and alignment: another agent, within
/// the global sight radius, passing the field-of-view gate.
pub open spec fn vis_cond(a: Boid, o: Boid, p: Params) -> bool {
    o.id != a.id && dist_sq(a.pos, o.pos) <= p.sight_radius * p.sight_radius && fov_ok(a, o, p)
}

/// Separation accumulator over a snapshot: the summed offsets
/// `a.pos - o.pos` of too-close neighbors, and their count.
pub open spec fn sep_acc(a: Boid, s: Seq<Boid>, p: Params) -> (int, int, int)
    decreases s.len(),
{
    if s.len() == 0 {
        (0, 0, 0)
    } else {
        let t = sep_acc(a, s.drop_last(), p);
        let o = s.last();
        if sep_cond(a, o, p) {
            (t.0 + (a.pos.x - o.pos.x), t.1 + (a.pos.y - o.pos.y), t.2 + 1)
        } else {
            t
        }
    }
}

/// Visibility accumulator over a snapshot: the summed positions and summed
/// velocities of in-sight neighbors, and their count.
pub open spec fn vis_acc(a: Boid, s: Seq<Boid>, p: Params) -> (int, int, int, int, int)
    decreases s.len(),
{
    if s.len() == 0 {
        (0, 0, 0, 0, 0)
    } else {
        let t = vis_acc(a, s.drop_last(), p);
        let o = s.last();
        if vis_cond(a, o, p) {
            (t.0 + o.pos.x, t.1 + o.pos.y, t.2 + o.vel.x, t.3 + o.vel.y, t.4 + 1)
        } else {
            t
        }
    }
}

/// The separation contribution before scaling: the average too-close
/// offset, or zero with no such neighbor.
pub open spec fn sep_term(a: Boid, s: Seq<Boid>, p: Params) -> (int, int) {
    let t = sep_acc(a, s, p);
    if t.2 > 0 {
        (tdiv(t.0, t.2), tdiv(t.1, t.2))
    } else {
        (0, 0)
    }
}

/// The cohesion contribution before scaling: the vector from `a` to the
/// centroid of in-sight neighbors, or zero with none.
pub open spec fn coh_term(a: Boid, s: Seq<Boid>, p: Params) -> (int, int) {
    let t = vis_acc(a, s, p);
    if t.4 > 0 {
        (tdiv(t.0, t.4) - a.pos.x, tdiv(t.1, t.4) - a.pos.y)
    } else {
        (0, 0)
    }
}

/// The alignment contribution before scaling: the velocity-matching delta
/// toward the average in-sight velocity, or zero with no such neighbor.
pub open spec fn ali_term(a: Boid, s: Seq<Boid>, p: Params) -> (int, int) {
    let t = vis_acc(a, s, p);
    if t.4 > 0 {
        (tdiv(t.2, t.4) - a.vel.x, tdiv(t.3, t.4) - a.vel.y)
    } else {
        (0, 0)
    }
}

/// The goal contribution before scaling: the offset away from the goal
/// (repulsion), or zero without a goal.
pub open spec fn goal_term(a: Boid) -> (int, int) {
    match a.goal {
        Some(g) => (a.pos.x - g.x, a.pos.y - g.y),
        None => (0, 0),
    }
}

/// The turning-boundary impulse along one axis, for a coordinate `c` in an
/// arena of size `dim`: within the sight radius of either edge, an inward
/// push inversely proportional to the distance to it (clipped below one
/// fixed-point step).
pub open spec fn edge_axis(c: int, dim: int, p: Params) -> int {
    let near = if c >= 1 { c } else { 1 };
    let far = if dim - c >= 1 { dim - c } else { 1 };
    let push_up = if c < p.sight_radius { tdiv(p.edge_push * SCALE, near) } else { 0 };
    let push_down = if dim - c < p.sight_radius { tdiv(p.edge_push * SCALE, far) } else { 0 };
    push_up - push_down
}

/// The boundary contribution: the per-axis turning impulse under
/// `BoundaryMode::Turn`, zero under `BoundaryMode::Wrap` (which never
/// steers).
pub open spec fn edge_term(a: Boid, p: Params) -> (int, int) {
    if p.boundary is Turn {
        (edge_axis(a.pos.x as int, p.width as int, p), edge_axis(a.pos.y as int, p.height as int, p))
    } else {
        (0, 0)
    }
}

/// Scaling by a strength: multiply by `k`, divide by `SCALE`, truncating.
pub open spec fn scaled(v: int, k: int) -> int {
    tdiv(v * k, SCALE as int)
}

/// The candidate velocity of `a` against the frozen snapshot `s`: its old
/// velocity plus the four scaled steering contributions plus the boundary
/// impulse. This is an additive impulse on the old velocity, not a
/// replacement.
pub open spec fn steer_spec(a: Boid, s: Seq<Boid>, p: Params) -> (int, int) {
    let sep = sep_term(a, s, p);
    let coh = coh_term(a, s, p);
    let ali = ali_term(a, s, p);
    let gl = goal_term(a);
    let ed = edge_term(a, p);
    (
        a.vel.x + scaled(sep.0, a.separation_strength as int) + scaled(
            coh.0,
            a.cohesion_strength as int,
        ) + scaled(ali.0, a.alignment_strength as int) + scaled(gl.0, a.goal_strength as int)
            + ed.0,
        a.vel.y + scaled(sep.1, a.separation_strength as int) + scaled(
            coh.1,
            a.cohesion_strength as int,
        ) + scaled(ali.1, a.alignment_strength as int) + scaled(gl.1, a.goal_strength as int)
            + ed.1,
    )
}

/// The separation accumulator of a snapshot of well-formed agents counts
/// at most the snapshot's length, and its sums stay within the count times
/// the largest possible offset.
pub proof fn lemma_sep_acc_bounds(a: Boid, s: Seq<Boid>, p: Params)
    requires
        forall|i: int| 0 <= i < s.len() ==> (#[trigger] s[i]).wf(),
        a.wf(),
    ensures
        0 <= sep_acc(a, s, p).2 <= s.len(),
        -(sep_acc(a, s, p).2 * 4_000_000_000) <= sep_acc(a, s, p).0 <= sep_acc(a, s, p).2
            * 4_000_000_000,
        -(sep_acc(a, s, p).2 * 4_000_000_000) <= sep_acc(a, s, p).1 <= sep_acc(a, s, p).2
            * 4_000_000_000,
    decreases s.len(),
{
    if s.len() > 0 {
        lemma_sep_acc_bounds(a, s.drop_last(), p);
    }
}

/// The visibility accumulator of a snapshot of well-formed agents counts
/// at most the snapshot's length; its position sums stay within the count
/// times the position guard and its velocity sums within the count times
/// the speed bound.
pub proof fn lemma_vis_acc_bounds(a: Boid, s: Seq<Boid>, p: Params)
    requires
        forall|i: int| 0 <= i < s.len() ==> (#[trigger] s[i]).wf(),
        a.wf(),
    ensures
        0 <= vis_acc(a, s, p).4 <= s.len(),
        -(vis_acc(a, s, p).4 * (POS_LIMIT as int)) <= vis_acc(a, s, p).0 <= vis_acc(a, s, p).4 * (
        POS_LIMIT as int),
        -(vis_acc(a, s, p).4 * (POS_LIMIT as int)) <= vis_acc(a, s, p).1 <= vis_acc(a, s, p).4 * (
        POS_LIMIT as int),
        -(vis_acc(a, s, p).4 * (MAX_SPEED_LIMIT as int)) <= vis_acc(a, s, p).2 <= vis_acc(
            a,
            s,
            p,
        ).4 * (MAX_SPEED_LIMIT as int),
        -(vis_acc(a, s, p).4 * (MAX_SPEED_LIMIT as int)) <= vis_acc(a, s, p).3 <= vis_acc(
            a,
            s,
            p,
        ).4 * (MAX_SPEED_LIMIT as int),
    decreases s.len(),
{
    if s.len() > 0 {
        lemma_vis_acc_bounds(a, s.drop_last(), p);
    }
}

/// An agent that counts no neighbor accumulates nothing.
proof fn lemma_no_neighbors(a: Boid, s: Seq<Boid>, p: Params)
    requires
        forall|i: int|
            0 <= i < s.len() ==> (#[trigger] s[i]).id == a.id || (dist_sq(a.pos, s[i].pos) > a.size
                * a.size && dist_sq(a.pos, s[i].pos) > p.sight_radius * p.sight_radius),
    ensures
        sep_acc(a, s, p) == (0int, 0int, 0int),
        vis_acc(a, s, p) == (0int, 0int, 0int, 0int, 0int),
    decreases s.len(),
{
    if s.len() > 0 {
        lemma_no_neighbors(a, s.drop_last(), p);
    }
}

/// No-neighbor stability: an isolated agent, with every other agent
/// beyond both its own radius and the sight radius, and without a goal,
/// receives zero separation, cohesion, alignment and goal contributions;
/// under the wrapping boundary (which never steers) its candidate
/// velocity is its old velocity unchanged.
pub proof fn lemma_isolated_agent(a: Boid, s: Seq<Boid>, p: Params)
    requires
        a.goal is None,
        forall|i: int|
            0 <= i < s.len() ==> (#[trigger] s[i]).id == a.id || (dist_sq(a.pos, s[i].pos) > a.size
                * a.size && dist_sq(a.pos, s[i].pos) > p.sight_radius * p.sight_radius),
    ensures
        sep_term(a, s, p) == (0int, 0int),
        coh_term(a, s, p) == (0int, 0int),
        ali_term(a, s, p) == (0int, 0int),
        goal_term(a) == (0int, 0int),
        p.boundary is Wrap ==> steer_spec(a, s, p) == (a.vel.x as int, a.vel.y as int),
{
    lemma_no_neighbors(a, s, p);
    lemma_scaled_zero(a.separation_strength as int);
    lemma_scaled_zero(a.cohesion_strength as int);
    lemma_scaled_zero(a.alignment_strength as int);
    lemma_scaled_zero(a.goal_strength as int);
}

/// A zero contribution scales to zero, whatever the strength.
proof fn lemma_scaled_zero(k: int)
    ensures
        scaled(0, k) == 0,
{
    assert(0int * k == 0) by (nonlinear_arith);
    vstd::arithmetic::div_mod::lemma_div_pos_is_pos(0, SCALE as int);
    vstd::arithmetic::div_mod::lemma_div_nonincreasing(0, SCALE as int);
}

/// Separation symmetry: two agents of one radius and one separation
/// strength, each within the other's radius and with vision ungated,
/// receive separation contributions of equal magnitude and opposite sign
/// along their axis: the one is exactly the negation of the other.
pub proof fn lemma_separation_symmetry(a: Boid, b: Boid, p: Params)
    requires
        a.id != b.id,
        !p.fov_gated,
        a.size == b.size,
        dist_sq(a.pos, b.pos) <= a.size * a.size,
        a.separation_strength == b.separation_strength,
    ensures
        ({
            let s = seq![a, b];
            let sa = sep_term(a, s, p);
            let sb = sep_term(b, s, p);
            &&& scaled(sa.0, a.separation_strength as int) == -scaled(
                sb.0,
                b.separation_strength as int,
            )
            &&& scaled(sa.1, a.separation_strength as int) == -scaled(
                sb.1,
                b.separation_strength as int,
            )
        }),
{
    let s = seq![a, b];
    let k = a.separation_strength as int;
    assert(s.drop_last() =~= seq![a]);
    assert((seq![a]).drop_last() =~= Seq::<Boid>::empty());
    assert(s.last() == b);
    assert((seq![a]).last() == a);
    assert(dist_sq(b.pos, a.pos) == dist_sq(a.pos, b.pos)) by (nonlinear_arith);
    assert(sep_cond(a, b, p) && sep_cond(b, a, p));
    assert(!sep_cond(a, a, p) && !sep_cond(b, b, p));
    let dx = a.pos.x - b.pos.x;
    let dy = a.pos.y - b.pos.y;
    reveal_with_fuel(sep_acc, 3);
    assert(sep_acc(a, s, p) == (dx, dy, 1int));
    assert(sep_acc(b, s, p) == (-dx, -dy, 1int));
    lemma_tdiv_one(dx);
    lemma_tdiv_one(dy);
    lemma_tdiv_one(-dx);
    lemma_tdiv_one(-dy);
    assert(sep_term(a, s, p) == (dx, dy));
    assert(sep_term(b, s, p) == (-dx, -dy));
    assert((-dx) * k == -(dx * k) && (-dy) * k == -(dy * k)) by (nonlinear_arith);
    crate::vec2::lemma_tdiv_neg(dx * k, SCALE as int);
    crate::vec2::lemma_tdiv_neg(dy * k, SCALE as int);
}

/// Truncating division by one changes nothing.
proof fn lemma_tdiv_one(d: int)
    ensures
        tdiv(d, 1) == d,
{
    if d >= 0 {
        vstd::arithmetic::div_mod::lemma_div_multiples_vanish(d, 1);
    } else {
        vstd::arithmetic::div_mod::lemma_div_multiples_vanish(-d, 1);
    }
}

impl Boid {
    /// The compute half of one agent's tick: the candidate velocity from
    /// the steering rules, read purely from the frozen snapshot `boids`.
    /// The result equals `steer_spec` of this agent against the snapshot,
    /// and stays within the candidate guard that the speed limiter
    /// accepts.
    pub fn calculate_new_velocity(&self, boids: &Vec<Boid>, p: &Params) -> (r: Vec2I)
        requires
            self.wf(),
            p.wf(),
            boids@.len() <= MAX_AGENTS,
            forall|i: int| 0 <= i < boids@.len() ==> (#[trigger] boids@[i]).wf(),
        ensures
            (r.x as int, r.y as int) == steer_spec(*self, boids@, *p),
            -CAND_LIMIT <= r.x <= CAND_LIMIT,
            -CAND_LIMIT <= r.y <= CAND_LIMIT,
    {
        let ghost s = boids@;
        let mut sep_x: i64 = 0;
        let mut sep_y: i64 = 0;
        let mut n_close: i64 = 0;
        let mut coh_x: i64 = 0;
        let mut coh_y: i64 = 0;
        let mut ali_x: i64 = 0;
        let mut ali_y: i64 = 0;
        let mut n_vis: i64 = 0;
        let mut i: usize = 0;
        while i < boids.len()
            invariant
                i <= s.len(),
                s == boids@,
                s.len() <= MAX_AGENTS,
                self.wf(),
                p.wf(),
                forall|j: int| 0 <= j < s.len() ==> (#[trigger] s[j]).wf(),
                (sep_x as int, sep_y as int, n_close as int) == sep_acc(*self, s.take(i as int), *p),
                (coh_x as int, coh_y as int, ali_x as int, ali_y as int, n_vis as int) == vis_acc(
                    *self,
                    s.take(i as int),
                    *p,
                ),
            decreases s.len() - i,
        {
            let o = boids[i];
            proof {
                assert(s.take(i + 1).drop_last() =~= s.take(i as int));
                assert(s.take(i + 1).last() == s[i as int]);
                lemma_sep_acc_bounds(*self, s.take(i as int), *p);
                lemma_vis_acc_bounds(*self, s.take(i as int), *p);
                assert(s.take(i as int).len() == i);
            }
            if self.id != o.id {
                if self.too_close(&o) && self.in_fov(&o, p) {
                    sep_x = sep_x + (self.pos.x - o.pos.x);
                    sep_y = sep_y + (self.pos.y - o.pos.y);
                    n_close = n_close + 1;
                }
                if self.in_sight(&o, p.sight_radius) && self.in_fov(&o, p) {
                    coh_x = coh_x + o.pos.x;
                    coh_y = coh_y + o.pos.y;
                    ali_x = ali_x + o.vel.x;
                    ali_y = ali_y + o.vel.y;
                    n_vis = n_vis + 1;
                }
            }
            i = i + 1;
        }
        proof {
            assert(s.take(s.len() as int) =~= s);
            lemma_sep_acc_bounds(*self, s, *p);
            lemma_vis_acc_bounds(*self, s, *p);
        }

        let sep_avg_x = if n_close > 0 {
            proof {
                lemma_tdiv_avg_bound(sep_x as int, n_close as int, 4_000_000_000);
            }
            tdiv_i64(sep_x, n_close)
        } else {
            0
        };
        let sep_avg_y = if n_close > 0 {
            proof {
                lemma_tdiv_avg_bound(sep_y as int, n_close as int, 4_000_000_000);
            }
            tdiv_i64(sep_y, n_close)
        } else {
            0
        };
        let coh_vx = if n_vis > 0 {
            proof {
                lemma_tdiv_avg_bound(coh_x as int, n_vis as int, POS_LIMIT as int);
            }
            tdiv_i64(coh_x, n_vis) - self.pos.x
        } else {
            0
        };
        let coh_vy = if n_vis > 0 {
            proof {
                lemma_tdiv_avg_bound(coh_y as int, n_vis as int, POS_LIMIT as int);
            }
            tdiv_i64(coh_y, n_vis) - self.pos.y
        } else {
            0
        };
        let ali_vx = if n_vis > 0 {
            proof {
                lemma_tdiv_avg_bound(ali_x as int, n_vis as int, MAX_SPEED_LIMIT as int);
            }
            tdiv_i64(ali_x, n_vis) - self.vel.x
        } else {
            0
        };
        let ali_vy = if n_vis > 0 {
            proof {
                lemma_tdiv_avg_bound(ali_y as int, n_vis as int, MAX_SPEED_LIMIT as int);
            }
            tdiv_i64(ali_y, n_vis) - self.vel.y
        } else {
            0
        };
        let (goal_vx, goal_vy) = match self.goal {
            Some(g) => (self.pos.x - g.x, self.pos.y - g.y),
            None => (0, 0),
        };
        let (edge_vx, edge_vy) = if matches!(p.boundary, BoundaryMode::Turn) {
            (edge_axis_i64(self.pos.x, p.width, p), edge_axis_i64(self.pos.y, p.height, p))
        } else {
            (0, 0)
        };

        let cx = self.vel.x + scale_strength(sep_avg_x, self.separation_strength)
            + scale_strength(coh_vx, self.cohesion_strength)
            + scale_strength(ali_vx, self.alignment_strength)
            + scale_strength(goal_vx, self.goal_strength) + edge_vx;
        let cy = self.vel.y + scale_strength(sep_avg_y, self.separation_strength)
            + scale_strength(coh_vy, self.cohesion_strength)
            + scale_strength(ali_vy, self.alignment_strength)
            + scale_strength(goal_vy, self.goal_strength) + edge_vy;
        Vec2I { x: cx, y: cy }
    }
}

/// One scaled steering contribution: `v * k / SCALE`, truncating. The
/// bounds admit any contribution the rules above can produce.
pub fn scale_strength(v: i64, k: i64) -> (r: i64)
    requires
        -4_000_000_000 <= v <= 4_000_000_000,
        0 <= k <= MAX_STRENGTH,
    ensures
        r == scaled(v as int, k as int),
        -400_000_000_000 <= r <= 400_000_000_000,
{
    proof {
        lemma_mul_bound(v as int, k as int, 4_000_000_000, MAX_STRENGTH as int);
        lemma_tdiv_bound(v as int * k as int, SCALE as int, 400_000_000_000_000);
    }
    tdiv_i64(v * k, SCALE)
}

/// The turning-boundary impulse along one axis, matching `edge_axis`.
pub fn edge_axis_i64(c: i64, dim: i64, p: &Params) -> (r: i64)
    requires
        p.wf(),
        -POS_LIMIT <= c <= POS_LIMIT,
        0 < dim <= MAX_DIM,
    ensures
        r == edge_axis(c as int, dim as int, *p),
        -100_000_000 <= r <= 100_000_000,
{
    let near = if c >= 1 {
        c
    } else {
        1
    };
    let rest = dim - c;
    let far = if rest >= 1 {
        rest
    } else {
        1
    };
    let push = p.edge_push * SCALE;
    proof {
        lemma_tdiv_bound(push as int, near as int, 100_000_000);
        lemma_tdiv_bound(push as int, far as int, 100_000_000);
    }
    let push_up = if c < p.sight_radius {
        tdiv_i64(push, near)
    } else {
        0
    };
    let push_down = if rest < p.sight_radius {
        tdiv_i64(push, far)
    } else {
        0
    };
    push_up - push_down
}

} // verus!
