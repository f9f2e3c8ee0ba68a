//! Global simulation parameters and their validity bounds.
//!
//! All quantities are fixed-point: `SCALE` steps stand for one world unit
//! (see `vec2`). The bounds below are machine limits, chosen so that every
//! intermediate product in the steering, limiting and wrapping arithmetic
//! fits the integer types it is computed in; they are far wider than any
//! sensible configuration.

use vstd::prelude::*;
use crate::vec2::SCALE;

verus! {

/// Population ceiling: spawn requests beyond it are rejected.
pub const MAX_AGENTS: usize = 500;

/// Largest arena dimension and largest sight or collision radius.
pub const MAX_DIM: i64 = 1_000_000_000;

/// Largest configurable speed bound.
pub const MAX_SPEED_LIMIT: i64 = 1_000_000;

/// Largest rule strength (a strength of `SCALE` scales a contribution by
/// one).
pub const MAX_STRENGTH: i64 = 100_000;

/// Largest time step.
pub const MAX_DT: i64 = 1_000_000;

/// Positions are kept within this magnitude on both axes. Under the
/// wrapping boundary they stay inside the arena anyway; under the turning
/// boundary this is a distant saturation guard that keeps the distance
/// arithmetic in bounds.
pub const POS_LIMIT: i64 = 2_000_000_000;

/// Largest candidate velocity component the steering phase can produce;
/// the speed limiter accepts any candidate within it.
pub const CAND_LIMIT: i64 = 2_000_000_000_000;

/// How an agent that leaves the arena is handled.
#[derive(Clone, Copy, Debug, PartialEq, Eq, Structural)]
pub enum BoundaryMode {
    /// Toroidal arena: each coordinate is reduced to `[0, width)` or
    /// `[0, height)` after the position update.
    Wrap,
    /// Near an edge, an inward impulse inversely proportional to the
    /// distance to that edge joins the steering contributions; positions
    /// are never teleported.
    Turn,
}

/// Global tunables, fixed for a run and handed to every tick.
#[derive(Clone, Copy, Debug, PartialEq, Eq, Structural)]
pub struct Params {
    /// Arena width, in fixed-point units.
    pub width: i64,
    /// Arena height, in fixed-point units.
    pub height: i64,
    /// Time step: a position advances by `velocity * dt / SCALE` per tick.
    pub dt: i64,
    /// Radius within which another agent is in sight.
    pub sight_radius: i64,
    /// When set, an agent only reacts to neighbors strictly in its forward
    /// half-plane (the field-of-view gate); when clear, vision is a full
    /// circle.
    pub fov_gated: bool,
    /// The boundary policy for the whole run.
    pub boundary: BoundaryMode,
    /// Strength of the inward impulse of `BoundaryMode::Turn`.
    pub edge_push: i64,
}

impl Params {
    /// Configuration validity: positive arena and time step, radii and
    /// strengths within the machine bounds. A configuration outside this
    /// is rejected before the first tick.
    pub open spec fn wf(self) -> bool {
        &&& 0 < self.width <= MAX_DIM
        &&& 0 < self.height <= MAX_DIM
        &&& 0 < self.dt <= MAX_DT
        &&& 0 <= self.sight_radius <= MAX_DIM
        &&& 0 <= self.edge_push <= MAX_STRENGTH
    }

    /// Runtime check of `wf`, for a host that assembles a configuration
    /// from outside input.
    pub fn check(&self) -> (r: bool)
        ensures
            r == self.wf(),
    {
        0 < self.width && self.width <= MAX_DIM && 0 < self.height && self.height <= MAX_DIM
            && 0 < self.dt && self.dt <= MAX_DT && 0 <= self.sight_radius && self.sight_radius
            <= MAX_DIM && 0 <= self.edge_push && self.edge_push <= MAX_STRENGTH
    }

    /// The canonical configuration: a toroidal arena of the given size,
    /// one-unit ticks, full-circle vision with the default sight radius.
    pub fn standard(width: i64, height: i64) -> (r: Params)
        requires
            0 < width <= MAX_DIM,
            0 < height <= MAX_DIM,
        ensures
            r.wf(),
            r.width == width,
            r.height == height,
            r.dt == SCALE,
            r.sight_radius == 80 * SCALE,
            !r.fov_gated,
            r.boundary == BoundaryMode::Wrap,
            r.edge_push == 0,
    {
        Params {
            width,
            height,
            dt: SCALE,
            sight_radius: 80 * SCALE,
            fov_gated: false,
            boundary: BoundaryMode::Wrap,
            edge_push: 0,
        }
    }
}

} // verus!
