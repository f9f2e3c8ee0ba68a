//! Random spawn input, drawn through the `rand` crate.
//!
//! Nothing is assumed of the random stream itself: every function that
//! consumes a draw states only what holds of every possible outcome, and
//! the simulation takes the drawn values as plain arguments. A host that
//! wants reproducible runs seeds the generator itself.

use vstd::prelude::*;
use crate::params::Params;
use crate::sim::Event;
use crate::vec2::lemma_mul_bound;

verus! {

#[verifier::external_type_specification]
#[verifier::external_body]
pub struct ExStdRng(rand::rngs::StdRng);

/// Relies on rand's `SeedableRng::seed_from_u64` for `StdRng`: builds a
/// generator from a word-sized seed, deterministically. Nothing is
/// assumed of the stream it produces.
#[verifier::external_body]
pub fn rng_from_seed(seed: u64) -> (r: rand::rngs::StdRng) {
    <rand::rngs::StdRng as rand::SeedableRng>::seed_from_u64(seed)
}

/// Relies on rand's `Rng::next_u32` for `StdRng`: the next 32 random
/// bits. Nothing is assumed of the value.
#[verifier::external_body]
pub fn rng_next_u32(rng: &mut rand::rngs::StdRng) -> (r: u32) {
    rand::Rng::next_u32(rng)
}

/// A draw below `n`: whatever the generator returned, the result is in
/// `[0, n)`.
pub fn rand_below(rng: &mut rand::rngs::StdRng, n: u64) -> (r: u64)
    requires
        1 <= n,
    ensures
        r < n,
{
    let hi = rng_next_u32(rng);
    let lo = rng_next_u32(rng);
    proof {
        lemma_mul_bound(hi as int, 0x1_0000_0000, 0xffff_ffff, 0x1_0000_0000);
    }
    let big: u64 = (hi as u64) * 0x1_0000_0000 + (lo as u64);
    proof {
        vstd::arithmetic::div_mod::lemma_mod_bound(big as int, n as int);
    }
    big % n
}

/// A random spawn request with its position uniform over the arena and a
/// fresh seed for the new agent's velocity and tag. Whatever the
/// generator returned, the request is acceptable and the position lies
/// inside the arena.
pub fn random_spawn_event(rng: &mut rand::rngs::StdRng, p: &Params) -> (e: Event)
    requires
        p.wf(),
    ensures
        e.wf(),
        match e {
            Event::Spawn { x, y, seed: _ } => 0 <= x < p.width && 0 <= y < p.height,
            _ => false,
        },
{
    let x = rand_below(rng, p.width as u64) as i64;
    let y = rand_below(rng, p.height as u64) as i64;
    let hi = rng_next_u32(rng);
    let lo = rng_next_u32(rng);
    proof {
        lemma_mul_bound(hi as int, 0x1_0000_0000, 0xffff_ffff, 0x1_0000_0000);
    }
    let seed: u64 = (hi as u64) * 0x1_0000_0000 + (lo as u64);
    Event::Spawn { x, y, seed }
}

} // verus!
