//! The simulated circle and its Verlet integrator.
use vstd::prelude::*;
use crate::fixed::{accel_step, accel_term, coord_ok, floor_div, LIMIT};

verus! {

/// The colour a circle is drawn with; the physics carries it through untouched.
#[verifier::external_type_specification]
#[verifier::external_body]
pub struct ExColor(tiny_skia::Color);

/// What the physics sees of a circle: current and previous position, radius,
/// and whether it is simulated (`dynamic`) or driven from outside (kinematic).
pub struct Particle {
    pub pos: (int, int),
    pub prev: (int, int),
    pub radius: int,
    pub dynamic: bool,
}

/// Whether a point may be stored.
pub open spec fn point_ok(p: (int, int)) -> bool {
    coord_ok(p.0) && coord_ok(p.1)
}

/// A well-formed particle: storable coordinates and a positive, storable radius.
pub open spec fn particle_ok(p: Particle) -> bool {
    &&& point_ok(p.pos)
    &&& point_ok(p.prev)
    &&& 0 < p.radius <= LIMIT
}

/// Implicit velocity: displacement per fixed step.
pub open spec fn velocity(p: Particle) -> (int, int) {
    (p.pos.0 - p.prev.0, p.pos.1 - p.prev.1)
}

/// The displacement an acceleration adds over one step of `dt` nanoseconds.
pub open spec fn accel_displacement(acc: (int, int), dt: int) -> (int, int) {
    (accel_term(acc.0, dt), accel_term(acc.1, dt))
}

/// Whether an acceleration and step length are within what the integrator takes.
pub open spec fn accel_ok(acc: (int, int), dt: int) -> bool {
    coord_ok(acc.0) && coord_ok(acc.1) && 0 <= dt <= crate::fixed::NANOS_PER_SECOND
}

/// One position-Verlet step with displacement `a` (acceleration times `dt^2`):
/// the old position becomes the previous one, and the new position is the old
/// one plus the implicit velocity plus `a`. Kinematic particles are left alone.
pub open spec fn integrate(p: Particle, a: (int, int)) -> Particle {
    if p.dynamic {
        Particle {
            pos: (p.pos.0 + velocity(p).0 + a.0, p.pos.1 + velocity(p).1 + a.1),
            prev: p.pos,
            ..p
        }
    } else {
        p
    }
}

/// A circle of the sandbox.
pub struct Circle {
    pub pos: (i64, i64),
    pub prev_pos: (i64, i64),
    pub radius: i64,
    pub color: tiny_skia::Color,
    pub has_physics: bool,
}

impl View for Circle {
    type V = Particle;

    open spec fn view(&self) -> Particle {
        Particle {
            pos: (self.pos.0 as int, self.pos.1 as int),
            prev: (self.prev_pos.0 as int, self.prev_pos.1 as int),
            radius: self.radius as int,
            dynamic: self.has_physics,
        }
    }
}

impl Circle {
    /// A well-formed circle.
    pub open spec fn wf(&self) -> bool {
        particle_ok(self@)
    }

    /// A dynamic circle at rest at `pos`.
    pub fn new(pos: (i64, i64), radius: i64, color: tiny_skia::Color) -> (c: Circle)
        requires
            coord_ok(pos.0 as int),
            coord_ok(pos.1 as int),
            0 < radius <= LIMIT,
        ensures
            c.wf(),
            c@ == (Particle {
                pos: (pos.0 as int, pos.1 as int),
                prev: (pos.0 as int, pos.1 as int),
                radius: radius as int,
                dynamic: true,
            }),
            c.color == color,
    {
        Circle { pos, prev_pos: pos, radius, color, has_physics: true }
    }

    /// A dynamic circle at `pos` moving with `vel` (position units per second):
    /// its current position is one sixtieth of a second ahead of `pos` (rounded
    /// down), and its previous position is `pos`.
    pub fn new_with_velocity(pos: (i64, i64), vel: (i64, i64), radius: i64, color: tiny_skia::Color) -> (c: Circle)
        requires
            coord_ok(pos.0 as int),
            coord_ok(pos.1 as int),
            coord_ok(pos.0 + vel.0 / 60),
            coord_ok(pos.1 + vel.1 / 60),
            0 < radius <= LIMIT,
        ensures
            c.wf(),
            c@ == (Particle {
                pos: (pos.0 + vel.0 / 60, pos.1 + vel.1 / 60),
                prev: (pos.0 as int, pos.1 as int),
                radius: radius as int,
                dynamic: true,
            }),
            c.color == color,
    {
        let dx = floor_div(vel.0 as i128, 60);
        let dy = floor_div(vel.1 as i128, 60);
        let x = (pos.0 as i128 + dx) as i64;
        let y = (pos.1 as i128 + dy) as i64;
        Circle { pos: (x, y), prev_pos: pos, radius, color, has_physics: true }
    }

    /// One Verlet step under acceleration `acc` (position units per second
    /// squared) over `dt` nanoseconds; a kinematic circle is left as it is.
    pub fn step(&mut self, acc: (i64, i64), dt: u64)
        requires
            old(self).wf(),
            accel_ok((acc.0 as int, acc.1 as int), dt as int),
            point_ok(integrate(old(self)@, accel_displacement((acc.0 as int, acc.1 as int), dt as int)).pos),
        ensures
            final(self).wf(),
            final(self)@ == integrate(old(self)@, accel_displacement((acc.0 as int, acc.1 as int), dt as int)),
            final(self).color == old(self).color,
    {
        if self.has_physics {
            let ax = accel_step(acc.0, dt);
            let ay = accel_step(acc.1, dt);
            let vx = self.pos.0 - self.prev_pos.0;
            let vy = self.pos.1 - self.prev_pos.1;
            self.prev_pos = self.pos;
            self.pos = (self.pos.0 + vx + ax, self.pos.1 + vy + ay);
        }
    }
}

} // verus!
