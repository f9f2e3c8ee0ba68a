//! Fixed-point 2D vectors.
//!
//! Positions, velocities and steering contributions are pairs of `i64`
//! components. A component counts thousandths of a world unit: the constant
//! `SCALE` stands for one unit. Scaling by a rule strength multiplies by the
//! strength and divides by `SCALE`, truncating toward zero, so a strength of
//! `10` means `0.010` in world units.

use vstd::prelude::*;
use vstd::arithmetic::div_mod::{
    lemma_div_is_ordered, lemma_div_pos_is_pos, lemma_mod_bound, lemma_mod_multiples_vanish,
    lemma_small_mod,
};

verus! {

/// Number of fixed-point steps in one world unit.
pub const SCALE: i64 = 1000;

/// Truncating division (toward zero) of `a` by a positive divisor `b`,
/// as Rust's `/` computes it on signed integers. On the mathematical
/// integers `/` is Euclidean division, which only differs from truncation
/// when `a` is negative.
pub open spec fn tdiv(a: int, b: int) -> int {
    if a >= 0 {
        a / b
    } else {
        -((-a) / b)
    }
}

/// Truncating division negates with its dividend.
pub proof fn lemma_tdiv_neg(a: int, b: int)
    requires
        b > 0,
    ensures
        tdiv(-a, b) == -tdiv(a, b),
{
    if a == 0 {
        assert(0int / b == 0) by {
            lemma_div_pos_is_pos(0, b);
            lemma_div_is_ordered(0, 0, b);
            assert(0int / b >= 0);
            assert(0int / b <= 0) by (nonlinear_arith)
                requires
                    b > 0,
            ;
        }
    }
}

/// A bound on the dividend gives a bound on the truncated quotient:
/// if `|a| <= m` then `|tdiv(a, b)| <= m / b <= m`.
pub proof fn lemma_tdiv_bound(a: int, b: int, m: int)
    requires
        b > 0,
        -m <= a <= m,
    ensures
        -(m / b) <= tdiv(a, b) <= m / b,
        -m <= tdiv(a, b) <= m,
{
    if a >= 0 {
        lemma_div_pos_is_pos(a, b);
        lemma_div_is_ordered(a, m, b);
    } else {
        lemma_div_pos_is_pos(-a, b);
        lemma_div_is_ordered(-a, m, b);
    }
    lemma_div_pos_is_pos(m, b);
    vstd::arithmetic::div_mod::lemma_div_nonincreasing(m, b);
}

/// An average of `cnt` values, each within `[-b, b]`, is itself within
/// `[-b, b]`.
pub proof fn lemma_tdiv_avg_bound(sum: int, cnt: int, b: int)
    requires
        cnt >= 1,
        0 <= b,
        -(cnt * b) <= sum <= cnt * b,
    ensures
        -b <= tdiv(sum, cnt) <= b,
{
    vstd::arithmetic::div_mod::lemma_div_multiples_vanish(b, cnt);
    if sum >= 0 {
        lemma_div_pos_is_pos(sum, cnt);
        lemma_div_is_ordered(sum, cnt * b, cnt);
    } else {
        lemma_div_pos_is_pos(-sum, cnt);
        lemma_div_is_ordered(-sum, cnt * b, cnt);
    }
}

/// A product of bounded factors is bounded.
pub proof fn lemma_mul_bound(a: int, b: int, m: int, n: int)
    by (nonlinear_arith)
    requires
        -m <= a <= m,
        -n <= b <= n,
        0 <= m,
        0 <= n,
    ensures
        -(m * n) <= a * b <= m * n,
{
}

/// Euclidean remainder of `a` modulo `m`, for positive `m`: the unique
/// representative in `[0, m)` of `a`'s class. This is what a toroidal
/// arena uses to wrap a coordinate.
pub fn emod_i64(a: i64, m: i64) -> (r: i64)
    requires
        0 < m,
        -0x4000_0000_0000_0000 <= a <= 0x4000_0000_0000_0000,
    ensures
        r == a as int % m as int,
        0 <= r < m,
{
    proof {
        lemma_mod_bound(a as int, m as int);
    }
    if a >= 0 {
        let r = (a as u64) % (m as u64);
        r as i64
    } else {
        let n = (-a) as u64;
        let rem = n % (m as u64);
        if rem == 0 {
            proof {
                let q = (n as int) / (m as int);
                assert(n == m * q + rem) by {
                    vstd::arithmetic::div_mod::lemma_fundamental_div_mod(n as int, m as int);
                }
                assert(a as int == m as int * (-q) + 0) by (nonlinear_arith)
                    requires
                        a == -(n as int),
                        n == m * q + rem,
                        rem == 0,
                ;
                assert((m as int * (-q) + 0) % (m as int) == 0int % (m as int)) by {
                    lemma_mod_multiples_vanish(-q, 0, m as int);
                }
                assert(0int % (m as int) == 0) by {
                    lemma_small_mod(0nat, m as nat);
                }
            }
            0
        } else {
            proof {
                let q = (n as int) / (m as int);
                assert(n == m * q + rem) by {
                    vstd::arithmetic::div_mod::lemma_fundamental_div_mod(n as int, m as int);
                }
                assert(rem < m) by {
                    lemma_mod_bound(n as int, m as int);
                }
                assert(a as int == m as int * (-q - 1) + (m - rem)) by (nonlinear_arith)
                    requires
                        a == -(n as int),
                        n == m * q + rem,
                ;
                assert((m as int * (-q - 1) + (m - rem)) % (m as int) == (m - rem) % (m as int))
                    by {
                    lemma_mod_multiples_vanish(-q - 1, m - rem as int, m as int);
                }
                assert((m - rem) as int % (m as int) == m - rem) by {
                    lemma_small_mod((m - rem) as nat, m as nat);
                }
            }
            m - (rem as i64)
        }
    }
}

/// Truncating division of `a` by a positive `b`: the division every
/// averaging and scaling step uses.
pub fn tdiv_i64(a: i64, b: i64) -> (r: i64)
    requires
        b > 0,
        -0x4000_0000_0000_0000 <= a <= 0x4000_0000_0000_0000,
    ensures
        r == tdiv(a as int, b as int),
{
    if a >= 0 {
        proof {
            lemma_div_pos_is_pos(a as int, b as int);
            lemma_div_is_ordered(a as int, 0x4000_0000_0000_0000, b as int);
            vstd::arithmetic::div_mod::lemma_div_nonincreasing(a as int, b as int);
        }
        ((a as u64) / (b as u64)) as i64
    } else {
        let n = (-a) as u64;
        proof {
            lemma_div_pos_is_pos(n as int, b as int);
            vstd::arithmetic::div_mod::lemma_div_nonincreasing(n as int, b as int);
        }
        let q = n / (b as u64);
        -(q as i64)
    }
}

/// A 2D vector of fixed-point components.
#[derive(Clone, Copy, Debug, PartialEq, Eq, Structural)]
pub struct Vec2I {
    pub x: i64,
    pub y: i64,
}

/// Squared Euclidean distance between two points, on the mathematical
/// integers.
pub open spec fn dist_sq(a: Vec2I, b: Vec2I) -> int {
    (a.x - b.x) * (a.x - b.x) + (a.y - b.y) * (a.y - b.y)
}

/// Dot product of two vectors, on the mathematical integers.
pub open spec fn dot(a: Vec2I, b: Vec2I) -> int {
    a.x * b.x + a.y * b.y
}

impl Vec2I {
    pub fn sub(self, o: Vec2I) -> (r: Vec2I)
        requires
            i64::MIN <= self.x - o.x <= i64::MAX,
            i64::MIN <= self.y - o.y <= i64::MAX,
        ensures
            r.x == self.x - o.x,
            r.y == self.y - o.y,
    {
        Vec2I { x: self.x - o.x, y: self.y - o.y }
    }

    /// Squared distance to another point, computed without loss in `i128`.
    pub fn dist_sq_to(self, o: Vec2I) -> (r: i128)
        requires
            -0x1000_0000_0000_0000 <= self.x <= 0x1000_0000_0000_0000,
            -0x1000_0000_0000_0000 <= self.y <= 0x1000_0000_0000_0000,
            -0x1000_0000_0000_0000 <= o.x <= 0x1000_0000_0000_0000,
            -0x1000_0000_0000_0000 <= o.y <= 0x1000_0000_0000_0000,
        ensures
            r == dist_sq(self, o),
            r >= 0,
    {
        let dx: i128 = self.x as i128 - o.x as i128;
        let dy: i128 = self.y as i128 - o.y as i128;
        proof {
            lemma_mul_bound(dx as int, dx as int, 0x2000_0000_0000_0000, 0x2000_0000_0000_0000);
            lemma_mul_bound(dy as int, dy as int, 0x2000_0000_0000_0000, 0x2000_0000_0000_0000);
            assert(dx * dx >= 0 && dy * dy >= 0) by (nonlinear_arith);
        }
        dx * dx + dy * dy
    }

    /// Dot product with another vector, computed without loss in `i128`.
    pub fn dot_with(self, o: Vec2I) -> (r: i128)
        requires
            -0x1000_0000_0000_0000 <= self.x <= 0x1000_0000_0000_0000,
            -0x1000_0000_0000_0000 <= self.y <= 0x1000_0000_0000_0000,
            -0x1000_0000_0000_0000 <= o.x <= 0x1000_0000_0000_0000,
            -0x1000_0000_0000_0000 <= o.y <= 0x1000_0000_0000_0000,
        ensures
            r == dot(self, o),
    {
        proof {
            lemma_mul_bound(self.x as int, o.x as int, 0x1000_0000_0000_0000, 0x1000_0000_0000_0000);
            lemma_mul_bound(self.y as int, o.y as int, 0x1000_0000_0000_0000, 0x1000_0000_0000_0000);
        }
        let px: i128 = self.x as i128 * o.x as i128;
        let py: i128 = self.y as i128 * o.y as i128;
        px + py
    }
}

} // verus!
