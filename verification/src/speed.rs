//! The speed limiter.
//!
//! A candidate velocity with squared magnitude inside the configured band
//! (or zero) passes unchanged. One outside the band is rescaled along its
//! own direction toward a target speed: the maximum when too fast, a
//! whisker above the minimum when too slow, so that truncation in the
//! rescaling cannot drop the result back out of the band. The rescaling
//! divides by the square root of the squared magnitude, taken at
//! `SQRT_PREC` extra precision and rounded up, which caps the rescaled
//! magnitude by the target.

use vstd::prelude::*;
use crate::params::{CAND_LIMIT, MAX_SPEED_LIMIT};
use crate::sqrt::{csqrt, csqrt_u128, lemma_csqrt_bounds};
use crate::vec2::{lemma_mul_bound, tdiv, Vec2I};

verus! {

/// Fixed-point precision of the square root in the rescaling step.
pub const SQRT_PREC: i64 = 1_048_576;

/// How far above the minimum speed the limiter aims when scaling a slow
/// velocity up, to absorb truncation.
pub const UP_MARGIN: i64 = 4;

/// The target speed the limiter rescales to: the maximum for a fast
/// velocity, the minimum plus `UP_MARGIN` (capped by the maximum) for a
/// slow one.
pub open spec fn clamp_target(s2: int, min_speed: int, max_speed: int) -> int {
    if s2 > max_speed * max_speed {
        max_speed
    } else if min_speed + UP_MARGIN <= max_speed {
        min_speed + UP_MARGIN
    } else {
        max_speed
    }
}

/// The limited velocity: unchanged when zero or inside the band, else
/// each component scaled by target over the rounded-up root of the squared
/// magnitude, truncating toward zero.
pub open spec fn clamp_spec(vx: int, vy: int, min_speed: int, max_speed: int) -> (int, int) {
    let s2 = vx * vx + vy * vy;
    if s2 == 0 || (min_speed * min_speed <= s2 && s2 <= max_speed * max_speed) {
        (vx, vy)
    } else {
        let m = clamp_target(s2, min_speed, max_speed);
        let su = csqrt((s2 * (SQRT_PREC * SQRT_PREC)) as nat) as int;
        (tdiv(vx * (m * SQRT_PREC), su), tdiv(vy * (m * SQRT_PREC), su))
    }
}

/// The speed limiter on a candidate velocity, matching `clamp_spec`
/// exactly; each result component stays within the machine speed bound.
pub fn clamp_speed(cand: Vec2I, min_speed: i64, max_speed: i64) -> (r: Vec2I)
    requires
        -CAND_LIMIT <= cand.x <= CAND_LIMIT,
        -CAND_LIMIT <= cand.y <= CAND_LIMIT,
        0 <= min_speed <= max_speed <= MAX_SPEED_LIMIT,
    ensures
        (r.x as int, r.y as int) == clamp_spec(cand.x as int, cand.y as int, min_speed as int, max_speed as int),
        -MAX_SPEED_LIMIT <= r.x <= MAX_SPEED_LIMIT,
        -MAX_SPEED_LIMIT <= r.y <= MAX_SPEED_LIMIT,
{
    let vx = cand.x;
    let vy = cand.y;
    proof {
        lemma_mul_bound(vx as int, vx as int, CAND_LIMIT as int, CAND_LIMIT as int);
        lemma_mul_bound(vy as int, vy as int, CAND_LIMIT as int, CAND_LIMIT as int);
        assert(vx as int * vx >= 0 && vy as int * vy >= 0) by (nonlinear_arith);
        lemma_mul_bound(min_speed as int, min_speed as int, MAX_SPEED_LIMIT as int, MAX_SPEED_LIMIT as int);
        lemma_mul_bound(max_speed as int, max_speed as int, MAX_SPEED_LIMIT as int, MAX_SPEED_LIMIT as int);
    }
    let s2: i128 = (vx as i128) * (vx as i128) + (vy as i128) * (vy as i128);
    let min2: i128 = (min_speed as i128) * (min_speed as i128);
    let max2: i128 = (max_speed as i128) * (max_speed as i128);
    if s2 == 0 || (min2 <= s2 && s2 <= max2) {
        proof {
            if s2 == 0 {
                assert(vx == 0 && vy == 0) by (nonlinear_arith)
                    requires
                        vx as int * vx + vy as int * vy == 0,
                ;
            }
            if s2 != 0 {
                assert(-max_speed <= vx <= max_speed && -max_speed <= vy <= max_speed)
                    by (nonlinear_arith)
                    requires
                        vx as int * vx + vy as int * vy <= max_speed as int * max_speed,
                        max_speed >= 0,
                ;
            }
        }
        cand
    } else {
        let m: i64 = if s2 > max2 {
            max_speed
        } else if min_speed + UP_MARGIN <= max_speed {
            min_speed + UP_MARGIN
        } else {
            max_speed
        };
        proof {
            assert((SQRT_PREC as u128) * (SQRT_PREC as u128) == 1_099_511_627_776)
                by (nonlinear_arith)
                requires
                    SQRT_PREC == 1_048_576,
            ;
        }
        let prec2: u128 = (SQRT_PREC as u128) * (SQRT_PREC as u128);
        proof {
            lemma_mul_bound(s2 as int, prec2 as int, 8_000_000_000_000_000_000_000_000, 1_099_511_627_776);
        }
        let arg: u128 = (s2 as u128) * prec2;
        let su: u128 = csqrt_u128(arg);
        proof {
            lemma_csqrt_bounds(arg as nat);
            assert(su >= 1) by (nonlinear_arith)
                requires
                    arg as int <= su as int * su,
                    arg >= 1,
                    su >= 0,
            ;
        }
        let mk: u128 = (m as u128) * (SQRT_PREC as u128);
        let avx: u128 = if vx >= 0 {
            vx as u128
        } else {
            (-vx) as u128
        };
        let avy: u128 = if vy >= 0 {
            vy as u128
        } else {
            (-vy) as u128
        };
        proof {
            lemma_mul_bound(avx as int, mk as int, CAND_LIMIT as int, 1_100_000_000_000_000_000);
            lemma_mul_bound(avy as int, mk as int, CAND_LIMIT as int, 1_100_000_000_000_000_000);
        }
        let nx: u128 = avx * mk;
        let ny: u128 = avy * mk;
        let qx: u128 = nx / su;
        let qy: u128 = ny / su;
        proof {
            lemma_component_within_target(vx as int, vy as int, m as int, su as int, arg as int);
            lemma_component_within_target(vy as int, vx as int, m as int, su as int, arg as int);
            assert(qx as int == (avx as int * mk) / (su as int));
            assert(avx as int * mk == abs_of(vx as int) * (m * SQRT_PREC)) by (nonlinear_arith)
                requires
                    avx == abs_of(vx as int),
                    mk == m as int * SQRT_PREC,
            ;
            assert(avy as int * mk == abs_of(vy as int) * (m * SQRT_PREC)) by (nonlinear_arith)
                requires
                    avy == abs_of(vy as int),
                    mk == m as int * SQRT_PREC,
            ;
            lemma_tdiv_by_abs(vx as int, m as int * SQRT_PREC, su as int);
            lemma_tdiv_by_abs(vy as int, m as int * SQRT_PREC, su as int);
        }
        let rx: i64 = if vx >= 0 {
            qx as i64
        } else {
            -(qx as i64)
        };
        let ry: i64 = if vy >= 0 {
            qy as i64
        } else {
            -(qy as i64)
        };
        Vec2I { x: rx, y: ry }
    }
}

/// The speed bound law: once the limiter has run on a nonzero velocity,
/// the squared magnitude lies within the configured band, provided the
/// band leaves the limiter room to aim inside it: a minimum of at least
/// eight fixed-point steps (eight thousandths of a world unit) and a gap
/// of at least eight steps between minimum and maximum, which every
/// sensible configuration has. Inside those margins truncation in the
/// rescaling cannot push the result back out of the band.
pub proof fn lemma_speed_bound(vx: int, vy: int, min_speed: int, max_speed: int)
    requires
        8 <= min_speed,
        min_speed + 8 <= max_speed,
        max_speed <= MAX_SPEED_LIMIT,
        vx * vx + vy * vy != 0,
    ensures
        ({
            let r = clamp_spec(vx, vy, min_speed, max_speed);
            min_speed * min_speed <= r.0 * r.0 + r.1 * r.1 <= max_speed * max_speed
        }),
{
    let s2 = vx * vx + vy * vy;
    assert(vx * vx >= 0 && vy * vy >= 0) by (nonlinear_arith);
    assert(s2 >= 1);
    if min_speed * min_speed <= s2 && s2 <= max_speed * max_speed {
        // In band: the velocity passes unchanged.
    } else {
        let kk = SQRT_PREC as int;
        let m = clamp_target(s2, min_speed, max_speed);
        assert(min_speed + UP_MARGIN <= max_speed);
        assert(8 <= m <= max_speed);
        let arg = (s2 * (kk * kk)) as nat;
        assert(s2 * (kk * kk) >= 1 * (kk * kk)) by (nonlinear_arith)
            requires
                s2 >= 1,
        ;
        lemma_csqrt_bounds(arg);
        let su = csqrt(arg) as int;
        assert(su >= 1) by (nonlinear_arith)
            requires
                arg as int <= su * su,
                arg >= 1,
                su >= 0,
        ;
        assert(su >= kk) by (nonlinear_arith)
            requires
                arg as int <= su * su,
                arg >= kk * kk,
                su >= 1,
                kk >= 1,
        ;
        assert(su > m);

        let mk = m * kk;
        let nx = abs_of(vx) * mk;
        let ny = abs_of(vy) * mk;
        let qxa = nx / su;
        let qya = ny / su;
        lemma_component_within_target(vx, vy, m, su, arg as int);
        lemma_component_within_target(vy, vx, m, su, arg as int);
        lemma_tdiv_by_abs(vx, m * kk, su);
        lemma_tdiv_by_abs(vy, m * kk, su);
        let r = clamp_spec(vx, vy, min_speed, max_speed);
        assert(r.0 == qxa || r.0 == -qxa);
        assert(r.1 == qya || r.1 == -qya);
        let q2 = qxa * qxa + qya * qya;
        assert(r.0 * r.0 + r.1 * r.1 == q2) by (nonlinear_arith)
            requires
                r.0 == qxa || r.0 == -qxa,
                r.1 == qya || r.1 == -qya,
                q2 == qxa * qxa + qya * qya,
        ;

        // The squared magnitudes of the unscaled components sum to
        // m * m * arg exactly.
        assert(nx * nx == (vx * vx) * (mk * mk)) by (nonlinear_arith)
            requires
                nx == abs_of(vx) * mk,
                abs_of(vx) == vx || abs_of(vx) == -vx,
        ;
        assert(ny * ny == (vy * vy) * (mk * mk)) by (nonlinear_arith)
            requires
                ny == abs_of(vy) * mk,
                abs_of(vy) == vy || abs_of(vy) == -vy,
        ;
        assert((vx * vx) * (mk * mk) + (vy * vy) * (mk * mk) == s2 * (mk * mk))
            by (nonlinear_arith)
            requires
                s2 == vx * vx + vy * vy,
        ;
        assert(s2 * (mk * mk) == m * m * (arg as int)) by (nonlinear_arith)
            requires
                mk == m * kk,
                arg as int == s2 * (kk * kk),
        ;
        assert(nx * nx + ny * ny == m * m * (arg as int));

        // Division facts for both components.
        vstd::arithmetic::div_mod::lemma_fundamental_div_mod(nx, su);
        vstd::arithmetic::div_mod::lemma_mod_bound(nx, su);
        vstd::arithmetic::div_mod::lemma_fundamental_div_mod(ny, su);
        vstd::arithmetic::div_mod::lemma_mod_bound(ny, su);
        assert(qxa * su <= nx < (qxa + 1) * su) by (nonlinear_arith)
            requires
                nx == su * qxa + nx % su,
                0 <= nx % su < su,
        ;
        assert(qya * su <= ny < (qya + 1) * su) by (nonlinear_arith)
            requires
                ny == su * qya + ny % su,
                0 <= ny % su < su,
        ;

        // Upper bound: q2 * su * su <= m * m * su * su, so q2 <= m * m.
        assert(qxa * qxa * (su * su) <= nx * nx) by (nonlinear_arith)
            requires
                0 <= qxa,
                0 <= su,
                qxa * su <= nx,
        ;
        assert(qya * qya * (su * su) <= ny * ny) by (nonlinear_arith)
            requires
                0 <= qya,
                0 <= su,
                qya * su <= ny,
        ;
        assert(m * m * (arg as int) <= (m * m) * (su * su)) by (nonlinear_arith)
            requires
                arg as int <= su * su,
        ;
        assert(q2 * (su * su) == qxa * qxa * (su * su) + qya * qya * (su * su))
            by (nonlinear_arith)
            requires
                q2 == qxa * qxa + qya * qya,
        ;
        assert(q2 * (su * su) <= (m * m) * (su * su));
        assert(q2 <= m * m) by (nonlinear_arith)
            requires
                q2 * (su * su) <= (m * m) * (su * su),
                su >= 1,
        ;
        assert(m * m <= max_speed * max_speed) by (nonlinear_arith)
            requires
                0 <= m <= max_speed,
        ;

        // Lower bound. The division remainders are strictly below su, so
        // the true squared magnitude m * m * arg is strictly below the
        // squared magnitude of the rounded-up components.
        assert(nx * nx < ((qxa + 1) * (qxa + 1)) * (su * su)) by (nonlinear_arith)
            requires
                0 <= nx,
                nx < (qxa + 1) * su,
                0 <= qxa,
                0 <= su,
        ;
        assert(ny * ny < ((qya + 1) * (qya + 1)) * (su * su)) by (nonlinear_arith)
            requires
                0 <= ny,
                ny < (qya + 1) * su,
                0 <= qya,
                0 <= su,
        ;
        assert(m * m * ((su - 1) * (su - 1)) < m * m * (arg as int)) by (nonlinear_arith)
            requires
                (su - 1) * (su - 1) < arg as int,
                m >= 1,
        ;
        assert((qxa + 1) * (qxa + 1) + (qya + 1) * (qya + 1) == q2 + 2 * qxa + 2 * qya + 2)
            by (nonlinear_arith)
            requires
                q2 == qxa * qxa + qya * qya,
        ;
        assert(((qxa + 1) * (qxa + 1) + (qya + 1) * (qya + 1)) * (su * su) <= (q2 + 4 * m + 2) * (
        su * su)) by (nonlinear_arith)
            requires
                (qxa + 1) * (qxa + 1) + (qya + 1) * (qya + 1) == q2 + 2 * qxa + 2 * qya + 2,
                qxa <= m,
                qya <= m,
        ;
        assert(((qxa + 1) * (qxa + 1)) * (su * su) + ((qya + 1) * (qya + 1)) * (su * su) == ((qxa
            + 1) * (qxa + 1) + (qya + 1) * (qya + 1)) * (su * su)) by (nonlinear_arith);
        assert(m * m * ((su - 1) * (su - 1)) < (q2 + 4 * m + 2) * (su * su));

        // Were q2 more than 6 * m + 2 short of m * m, that strict
        // inequality would fail: the root overshoots the true magnitude by
        // less than one part in su, and su is far above m.
        assert((m * m - 2 * m - 1) * (su * su) <= m * m * ((su - 1) * (su - 1)))
            by (nonlinear_arith)
            requires
                su > m,
                m >= 1,
        ;
        assert((m * m - 2 * m - 1) * (su * su) < (q2 + 4 * m + 2) * (su * su));
        assert(m * m - 2 * m - 1 < q2 + 4 * m + 2) by (nonlinear_arith)
            requires
                (m * m - 2 * m - 1) * (su * su) < (q2 + 4 * m + 2) * (su * su),
                su >= 1,
        ;
        assert(q2 >= m * m - 6 * m - 2);
        if s2 > max_speed * max_speed {
            assert(m == max_speed);
            assert(q2 >= min_speed * min_speed) by (nonlinear_arith)
                requires
                    q2 >= m * m - 6 * m - 2,
                    m == max_speed,
                    max_speed >= min_speed + 8,
                    min_speed >= 8,
            ;
        } else {
            assert(m == min_speed + UP_MARGIN);
            assert(q2 >= min_speed * min_speed) by (nonlinear_arith)
                requires
                    q2 >= m * m - 6 * m - 2,
                    m == min_speed + 4,
                    min_speed >= 8,
            ;
        }
    }
}

impl crate::boid::Boid {
    /// The speed limiter applied to this agent's own velocity, in place:
    /// `clamp_speed` against its configured band. Everything else stays.
    pub fn limit_speed(&mut self)
        requires
            old(self).wf(),
        ensures
            ((final(self).vel.x as int, final(self).vel.y as int) == clamp_spec(
                old(self).vel.x as int,
                old(self).vel.y as int,
                old(self).min_speed as int,
                old(self).max_speed as int,
            )),
            (*final(self) == (crate::boid::Boid { vel: final(self).vel, ..*old(self) })),
            final(self).wf(),
    {
        let v = clamp_speed(self.vel, self.min_speed, self.max_speed);
        self.vel = v;
    }
}

/// The absolute value, as the rescaling computes with it.
pub open spec fn abs_of(a: int) -> int {
    if a >= 0 {
        a
    } else {
        -a
    }
}

/// Truncating division distributes over the sign of its dividend:
/// `tdiv(a * k, b)` is the sign of `a` times `(|a| * k) / b`.
proof fn lemma_tdiv_by_abs(a: int, k: int, b: int)
    requires
        b > 0,
        k >= 0,
    ensures
        a >= 0 ==> tdiv(a * k, b) == (abs_of(a) * k) / b,
        a < 0 ==> tdiv(a * k, b) == -((abs_of(a) * k) / b),
{
    if a >= 0 {
        assert(a * k >= 0) by (nonlinear_arith)
            requires
                a >= 0,
                k >= 0,
        ;
    } else {
        assert(a * k <= 0 && -(a * k) == (-a) * k) by (nonlinear_arith)
            requires
                a < 0,
                k >= 0,
        ;
        if a * k == 0 {
            assert((-a) * k == 0);
            assert(tdiv(0, b) == 0) by {
                vstd::arithmetic::div_mod::lemma_div_pos_is_pos(0, b);
                vstd::arithmetic::div_mod::lemma_div_nonincreasing(0, b);
            }
            assert((abs_of(a) * k) / b == 0) by {
                vstd::arithmetic::div_mod::lemma_div_pos_is_pos(0, b);
                vstd::arithmetic::div_mod::lemma_div_nonincreasing(0, b);
            }
        }
    }
}

/// Within the rescaling branch, each scaled component stays within the
/// target speed: `(|v| * m * SQRT_PREC) / su <= m` whenever `v * v` is
/// part of a squared magnitude whose root-at-precision is `su`.
proof fn lemma_component_within_target(v: int, w: int, m: int, su: int, arg: int)
    requires
        su >= 1,
        m >= 0,
        arg <= su * su,
        v * v + w * w >= 0,
        arg == (v * v + w * w) * (SQRT_PREC * SQRT_PREC),
    ensures
        (abs_of(v) * (m * SQRT_PREC)) / su <= m,
        (abs_of(v) * (m * SQRT_PREC)) / su >= 0,
{
    let av = abs_of(v);
    assert(v * v >= 0 && w * w >= 0) by (nonlinear_arith);
    assert(av * SQRT_PREC <= su) by (nonlinear_arith)
        requires
            av == abs_of(v),
            arg == (v * v + w * w) * (SQRT_PREC * SQRT_PREC),
            arg <= su * su,
            su >= 0,
            w * w >= 0,
    ;
    assert(av * (m * SQRT_PREC) <= su * m) by (nonlinear_arith)
        requires
            av >= 0,
            m >= 0,
            av * SQRT_PREC <= su,
    ;
    assert((su * m) / su == m) by {
        vstd::arithmetic::div_mod::lemma_div_multiples_vanish(m, su);
    }
    assert(av * (m * SQRT_PREC) >= 0) by (nonlinear_arith)
        requires
            av >= 0,
            m >= 0,
    ;
    vstd::arithmetic::div_mod::lemma_div_is_ordered(av * (m * SQRT_PREC), su * m, su);
    vstd::arithmetic::div_mod::lemma_div_pos_is_pos(av * (m * SQRT_PREC), su);
}

} // verus!
