//! The static constraints: a slope through the bottom middle of the box, the
//! floor, and the two walls, applied in that order to every dynamic circle.
use vstd::prelude::*;
use crate::circle::{point_ok, Circle, Particle};
use crate::fixed::{is_isqrt, isqrt, HALF, LIMIT, ONE};

verus! {

/// `r * sqrt(2)`, rounded down: how far `x + y` of a circle's centre must
/// exceed the slope line's own `x + y` for the circle to clear it.
pub open spec fn slope_reach(r: int) -> int {
    choose|s: int| #[trigger] is_isqrt(2 * r * r, s)
}

/// The integer square root is unique.
pub proof fn lemma_isqrt_unique(n: int, s: int, t: int)
    requires
        is_isqrt(n, s),
        is_isqrt(n, t),
    ensures
        s == t,
{
    if s < t {
        assert((s + 1) * (s + 1) <= t * t) by (nonlinear_arith)
            requires 0 <= s + 1 <= t;
    } else if t < s {
        assert((t + 1) * (t + 1) <= s * s) by (nonlinear_arith)
            requires 0 <= t + 1 <= s;
    }
}

/// The slope is the line through `(1/2, 0)` with normal `(1, 1) / sqrt(2)`. A
/// dynamic circle whose centre is nearer to it than its radius (signed distance
/// along the normal) is pushed along the normal until it is clear; `x` and `y`
/// move by the same amount, the least that clears it in whole units.
pub open spec fn push_off_slope(p: Particle) -> Particle {
    let need = HALF + slope_reach(p.radius);
    let sum = p.pos.0 + p.pos.1;
    if p.dynamic && sum < need {
        let c = (need - sum + 1) / 2;
        Particle { pos: (p.pos.0 + c, p.pos.1 + c), ..p }
    } else {
        p
    }
}

/// A dynamic circle below the floor is lifted so that it rests on it.
pub open spec fn clamp_floor(p: Particle) -> Particle {
    if p.dynamic && p.pos.1 < p.radius {
        Particle { pos: (p.pos.0, p.radius), ..p }
    } else {
        p
    }
}

/// A dynamic circle beyond the right wall is moved back to touch it.
pub open spec fn clamp_right_wall(p: Particle) -> Particle {
    if p.dynamic && p.pos.0 > ONE - p.radius {
        Particle { pos: (ONE - p.radius, p.pos.1), ..p }
    } else {
        p
    }
}

/// A dynamic circle beyond the left wall is moved back to touch it.
pub open spec fn clamp_left_wall(p: Particle) -> Particle {
    if p.dynamic && p.pos.0 < p.radius {
        Particle { pos: (p.radius, p.pos.1), ..p }
    } else {
        p
    }
}

/// Floor, then right wall, then left wall.
pub open spec fn clamp_to_box(p: Particle) -> Particle {
    clamp_left_wall(clamp_right_wall(clamp_floor(p)))
}

/// The whole constraint pass on one circle: slope first, then the box.
pub open spec fn constrain(p: Particle) -> Particle {
    clamp_to_box(push_off_slope(p))
}

/// Whether the constraint pass keeps a circle's coordinates storable; only the
/// slope can push a circle far, the box clamps stay within the radius.
pub open spec fn constrain_ok(p: Particle) -> bool {
    point_ok(push_off_slope(p).pos)
}

/// `r * sqrt(2)` rounded down.
pub fn slope_reach_of(r: i64) -> (k: i64)
    requires
        0 < r <= LIMIT,
    ensures
        k == slope_reach(r as int),
        0 <= k < 0x2000_0000_0000_0000i64,
{
    let ru: u128 = r as u128;
    assert(2 * ru * ru <= 0x200_0000_0000_0000_0000_0000_0000_0000u128) by (nonlinear_arith)
        requires 0 < ru <= LIMIT;
    let n: u128 = 2 * ru * ru;
    let s = isqrt(n);
    proof {
        assert(s < 0x2000_0000_0000_0000u128) by (nonlinear_arith)
            requires s * s <= n, n <= 0x200_0000_0000_0000_0000_0000_0000_0000u128, s >= 0;
        assert(2 * r * r == n);
        let k = slope_reach(r as int);
        assert(is_isqrt(2 * r * r, k));
        lemma_isqrt_unique(2 * r * r, s as int, k);
    }
    s as i64
}

impl Circle {
    /// Pushes a dynamic circle off the slope if it overlaps it.
    pub fn push_off_slope(&mut self)
        requires
            old(self).wf(),
            constrain_ok(old(self)@),
        ensures
            final(self).wf(),
            final(self)@ == push_off_slope(old(self)@),
            final(self).color == old(self).color,
    {
        if self.has_physics {
            let k = slope_reach_of(self.radius);
            let need: i128 = HALF as i128 + k as i128;
            let sum: i128 = self.pos.0 as i128 + self.pos.1 as i128;
            if sum < need {
                let c: i128 = (need - sum + 1) / 2;
                self.pos = ((self.pos.0 as i128 + c) as i64, (self.pos.1 as i128 + c) as i64);
            }
        }
    }

    /// Lifts a dynamic circle that sinks through the floor.
    pub fn clamp_floor(&mut self)
        requires
            old(self).wf(),
        ensures
            final(self).wf(),
            final(self)@ == clamp_floor(old(self)@),
            final(self).color == old(self).color,
    {
        if self.has_physics && self.pos.1 < self.radius {
            self.pos.1 = self.radius;
        }
    }

    /// Moves a dynamic circle back inside the right wall.
    pub fn clamp_right_wall(&mut self)
        requires
            old(self).wf(),
        ensures
            final(self).wf(),
            final(self)@ == clamp_right_wall(old(self)@),
            final(self).color == old(self).color,
    {
        if self.has_physics && self.pos.0 > ONE - self.radius {
            self.pos.0 = ONE - self.radius;
        }
    }

    /// Moves a dynamic circle back inside the left wall.
    pub fn clamp_left_wall(&mut self)
        requires
            old(self).wf(),
        ensures
            final(self).wf(),
            final(self)@ == clamp_left_wall(old(self)@),
            final(self).color == old(self).color,
    {
        if self.has_physics && self.pos.0 < self.radius {
            self.pos.0 = self.radius;
        }
    }

    /// The whole constraint pass on this circle.
    pub fn constrain(&mut self)
        requires
            old(self).wf(),
            constrain_ok(old(self)@),
        ensures
            final(self).wf(),
            final(self)@ == constrain(old(self)@),
            final(self).color == old(self).color,
    {
        self.push_off_slope();
        self.clamp_floor();
        self.clamp_right_wall();
        self.clamp_left_wall();
    }
}

} // verus!
