//! The boundary policy applied to a freshly moved position.
//!
//! Under `BoundaryMode::Wrap` each coordinate is reduced into the arena by
//! the Euclidean remainder: an agent leaving one edge reappears at the
//! opposite one, the distance it overshot carried over. Under
//! `BoundaryMode::Turn` the position is left alone (the inward impulse
//! acts during steering instead) and only saturated at the distant
//! `POS_LIMIT` guard that keeps the arithmetic in bounds.

use vstd::prelude::*;
use crate::params::{BoundaryMode, Params, MAX_DIM, POS_LIMIT};
use crate::vec2::{emod_i64, Vec2I};

verus! {

/// A coordinate wrapped into `[0, dim)`: its Euclidean remainder.
pub open spec fn wrap_coord(c: int, dim: int) -> int {
    c % dim
}

/// A coordinate saturated at the distant position guard.
pub open spec fn sat_coord(c: int) -> int {
    if c > POS_LIMIT {
        POS_LIMIT as int
    } else if c < -POS_LIMIT {
        -POS_LIMIT as int
    } else {
        c
    }
}

/// The boundary policy on a position, by mode.
pub open spec fn boundary_spec(px: int, py: int, p: Params) -> (int, int) {
    if p.boundary is Wrap {
        (wrap_coord(px, p.width as int), wrap_coord(py, p.height as int))
    } else {
        (sat_coord(px), sat_coord(py))
    }
}

/// Wrapping is idempotent: a coordinate already wrapped into the arena
/// wraps to itself, so applying the boundary twice is applying it once.
pub proof fn lemma_wrap_idempotent(c: int, dim: int)
    requires
        0 < dim,
    ensures
        0 <= wrap_coord(c, dim) < dim,
        wrap_coord(wrap_coord(c, dim), dim) == wrap_coord(c, dim),
{
    vstd::arithmetic::div_mod::lemma_mod_bound(c, dim);
    vstd::arithmetic::div_mod::lemma_small_mod((c % dim) as nat, dim as nat);
}

/// Toroidal wrap of a position into the arena. Each coordinate ends in
/// `[0, width)` respectively `[0, height)`, congruent to what it was.
pub fn wrap_edges(v: &mut Vec2I, width: i64, height: i64)
    requires
        0 < width <= MAX_DIM,
        0 < height <= MAX_DIM,
        -0x4000_0000_0000_0000 <= old(v).x <= 0x4000_0000_0000_0000,
        -0x4000_0000_0000_0000 <= old(v).y <= 0x4000_0000_0000_0000,
    ensures
        final(v).x == wrap_coord(old(v).x as int, width as int),
        final(v).y == wrap_coord(old(v).y as int, height as int),
        0 <= final(v).x < width,
        0 <= final(v).y < height,
{
    v.x = emod_i64(v.x, width);
    v.y = emod_i64(v.y, height);
}

/// The boundary policy on a position, matching `boundary_spec`.
pub fn apply_boundary(v: &mut Vec2I, p: &Params)
    requires
        p.wf(),
        -0x4000_0000_0000_0000 <= old(v).x <= 0x4000_0000_0000_0000,
        -0x4000_0000_0000_0000 <= old(v).y <= 0x4000_0000_0000_0000,
    ensures
        (final(v).x as int, final(v).y as int) == boundary_spec(old(v).x as int, old(v).y as int, *p),
        -POS_LIMIT <= final(v).x <= POS_LIMIT,
        -POS_LIMIT <= final(v).y <= POS_LIMIT,
        p.boundary is Wrap ==> 0 <= final(v).x < p.width && 0 <= final(v).y < p.height,
{
    match p.boundary {
        BoundaryMode::Wrap => {
            wrap_edges(v, p.width, p.height);
        },
        BoundaryMode::Turn => {
            if v.x > POS_LIMIT {
                v.x = POS_LIMIT;
            } else if v.x < -POS_LIMIT {
                v.x = -POS_LIMIT;
            }
            if v.y > POS_LIMIT {
                v.y = POS_LIMIT;
            } else if v.y < -POS_LIMIT {
                v.y = -POS_LIMIT;
            }
        },
    }
}

} // verus!
