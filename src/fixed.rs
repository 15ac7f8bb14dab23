//! Fixed-point units and the integer helpers that the physics rests on.
use vstd::prelude::*;
use vstd::arithmetic::div_mod::{
    lemma_div_is_ordered, lemma_div_multiples_vanish, lemma_fundamental_div_mod,
    lemma_fundamental_div_mod_converse,
};

verus! {

/// Position units in one side of the unit simulation square.
pub const ONE: i64 = 1073741824;

/// Half of the unit square, in position units.
pub const HALF: i64 = 536870912;

/// Largest magnitude a stored coordinate or radius may take.
pub const LIMIT: i64 = 1152921504606846976;

/// Nanoseconds in one second: the time unit of accelerations is position units per second squared.
pub const NANOS_PER_SECOND: u64 = 1000000000;

/// Whether a coordinate may be stored.
pub open spec fn coord_ok(v: int) -> bool {
    -LIMIT <= v <= LIMIT
}

/// Displacement that acceleration `acc` (position units / s^2) adds over a step of
/// `dt` nanoseconds: `acc * dt^2`, rounded down to whole position units.
pub open spec fn accel_term(acc: int, dt: int) -> int {
    (acc * dt * dt) / (NANOS_PER_SECOND * NANOS_PER_SECOND)
}

/// The integer square root: the largest `s` with `s * s <= n`.
pub open spec fn is_isqrt(n: int, s: int) -> bool {
    0 <= s && s * s <= n && n < (s + 1) * (s + 1)
}

/// Floor division by a positive divisor.
pub fn floor_div(a: i128, d: i128) -> (q: i128)
    requires
        d > 0,
        a > i128::MIN,
    ensures
        q == a / d,
{
    if a >= 0 {
        let q = ((a as u128) / (d as u128)) as i128;
        q
    } else {
        let m: u128 = (0 - a) as u128;
        let du: u128 = d as u128;
        let p: u128 = (m + (du - 1)) / du;
        proof {
            let x = (m + du - 1) as int;
            let s = x % (du as int);
            lemma_fundamental_div_mod(x, du as int);
            assert(x == p * du + s) by (nonlinear_arith)
                requires x == du * (x / (du as int)) + s, p == x / (du as int);
            assert(p <= m) by (nonlinear_arith)
                requires x == p * du + s, x == m + du - 1, 0 <= s, du > 0, p >= 0;
            assert(a == (-(p as int)) * d + (du - 1 - s)) by (nonlinear_arith)
                requires x == p * du + s, x == m + du - 1, a == -m, d == du;
            lemma_fundamental_div_mod_converse(a as int, d as int, -(p as int), (du - 1 - s) as int);
        }
        0 - (p as i128)
    }
}

/// The displacement `acc * dt^2` (rounded down) for an acceleration of at most
/// [`LIMIT`] in magnitude over a step of at most one second; it is never larger
/// in magnitude than the acceleration itself.
pub fn accel_step(acc: i64, dt: u64) -> (t: i64)
    requires
        -LIMIT <= acc <= LIMIT,
        dt <= NANOS_PER_SECOND,
    ensures
        t == accel_term(acc as int, dt as int),
        acc >= 0 ==> 0 <= t <= acc,
        acc < 0 ==> acc <= t <= 0,
{
    let nn: i128 = 1000000000000000000;
    assert(dt * dt <= nn) by (nonlinear_arith)
        requires dt <= NANOS_PER_SECOND, nn == NANOS_PER_SECOND * NANOS_PER_SECOND;
    assert(-LIMIT * nn <= acc * (dt * dt) <= LIMIT * nn) by (nonlinear_arith)
        requires -LIMIT <= acc <= LIMIT, 0 <= dt * dt <= nn;
    let prod: i128 = (acc as i128) * ((dt as i128) * (dt as i128));
    let t = floor_div(prod, nn);
    proof {
        assert(acc * dt * dt == acc * (dt * dt)) by (nonlinear_arith);
        lemma_div_multiples_vanish(acc as int, nn as int);
        lemma_div_multiples_vanish(0, nn as int);
        if acc >= 0 {
            assert(0 <= prod <= nn * acc) by (nonlinear_arith)
                requires prod == acc * (dt * dt), 0 <= dt * dt <= nn, acc >= 0;
            lemma_div_is_ordered(0, prod as int, nn as int);
            lemma_div_is_ordered(prod as int, nn * acc, nn as int);
        } else {
            assert(nn * acc <= prod <= 0) by (nonlinear_arith)
                requires prod == acc * (dt * dt), 0 <= dt * dt <= nn, acc < 0;
            lemma_div_is_ordered(prod as int, 0, nn as int);
            lemma_div_is_ordered(nn * acc, prod as int, nn as int);
        }
    }
    t as i64
}

/// Integer square root of `n`, by bisection.
pub fn isqrt(n: u128) -> (s: u128)
    requires
        n < 0x4000_0000_0000_0000_0000_0000_0000_0000u128,
    ensures
        is_isqrt(n as int, s as int),
{
    let mut lo: u128 = 0;
    let mut hi: u128 = 0x8000_0000_0000_0000u128;
    assert(hi * hi == 0x4000_0000_0000_0000_0000_0000_0000_0000u128) by (nonlinear_arith)
        requires hi == 0x8000_0000_0000_0000u128;
    while hi - lo > 1
        invariant
            lo < hi <= 0x8000_0000_0000_0000u128,
            lo * lo <= n,
            n < hi * hi,
        decreases hi - lo,
    {
        let mid: u128 = lo + (hi - lo) / 2;
        assert(mid * mid <= 0x4000_0000_0000_0000_0000_0000_0000_0000u128) by (nonlinear_arith)
            requires mid <= 0x8000_0000_0000_0000u128;
        if mid * mid <= n {
            lo = mid;
        } else {
            hi = mid;
        }
    }
    assert(hi == lo + 1);
    lo
}

} // verus!
