//! Direct control of a circle by a pointer: while held, the circle is
//! kinematic and follows the pointer with no implicit velocity.
use vstd::prelude::*;
use crate::circle::{point_ok, Circle, Particle};

verus! {

/// Taking hold of a particle at `at`: it jumps there at rest and stops being simulated.
pub open spec fn grabbed(p: Particle, at: (int, int)) -> Particle {
    Particle { pos: at, prev: at, dynamic: false, ..p }
}

/// Moving a held particle to `to`, at rest; a simulated one is not held and stays put.
pub open spec fn dragged_to(p: Particle, to: (int, int)) -> Particle {
    if p.dynamic {
        p
    } else {
        Particle { pos: to, prev: to, ..p }
    }
}

/// Letting go of a particle: it is simulated again from where it was left.
pub open spec fn released(p: Particle) -> Particle {
    Particle { dynamic: true, ..p }
}

impl Circle {
    /// Takes hold of this circle at `at`.
    pub fn grab(&mut self, at: (i64, i64))
        requires
            old(self).wf(),
            point_ok((at.0 as int, at.1 as int)),
        ensures
            final(self).wf(),
            final(self)@ == grabbed(old(self)@, (at.0 as int, at.1 as int)),
            final(self).color == old(self).color,
    {
        self.pos = at;
        self.prev_pos = at;
        self.has_physics = false;
    }

    /// Moves this circle to `to` if it is held.
    pub fn drag_to(&mut self, to: (i64, i64))
        requires
            old(self).wf(),
            point_ok((to.0 as int, to.1 as int)),
        ensures
            final(self).wf(),
            final(self)@ == dragged_to(old(self)@, (to.0 as int, to.1 as int)),
            final(self).color == old(self).color,
    {
        if !self.has_physics {
            self.pos = to;
            self.prev_pos = to;
        }
    }

    /// Lets go of this circle.
    pub fn release(&mut self)
        requires
            old(self).wf(),
        ensures
            final(self).wf(),
            final(self)@ == released(old(self)@),
            final(self).color == old(self).color,
    {
        self.has_physics = true;
    }
}

} // verus!
