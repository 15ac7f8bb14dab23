//! Properties of the integrator, the constraints, the tick and pointer control.
use vstd::prelude::*;
use crate::circle::{accel_displacement, integrate, particle_ok, velocity, Particle};
use crate::constraints::{clamp_to_box, constrain};
use crate::drag::{dragged_to, grabbed, released};
use crate::simulation::{run, tick, tick_all};

verus! {

/// A simulated particle at rest under no acceleration stays where it is.
pub proof fn lemma_rest_stays(p: Particle, dt: int)
    requires
        p.dynamic,
        velocity(p) == (0int, 0int),
    ensures
        integrate(p, accel_displacement((0int, 0int), dt)).pos == p.pos,
{
    assert(0 * dt * dt == 0) by (nonlinear_arith);
}

/// Away from the constraints the implicit velocity grows by exactly the step
/// displacement `acceleration * dt^2` each tick.
pub proof fn lemma_velocity_update(p: Particle, a: (int, int))
    requires
        p.dynamic,
        constrain(integrate(p, a)) == integrate(p, a),
    ensures
        velocity(integrate(p, a)) == (velocity(p).0 + a.0, velocity(p).1 + a.1),
        velocity(tick(p, a)) == (velocity(p).0 + a.0, velocity(p).1 + a.1),
{
}

/// The floor and wall clamps do nothing more when applied a second time.
pub proof fn lemma_box_idempotent(p: Particle)
    requires
        particle_ok(p),
    ensures
        clamp_to_box(clamp_to_box(p)) == clamp_to_box(p),
{
}

/// A kinematic particle is left exactly as it is by a tick, and so by any
/// number of ticks of the whole collection.
pub proof fn lemma_kinematic_fixed(ps: Seq<Particle>, a: (int, int), n: nat, i: int)
    requires
        0 <= i < ps.len(),
        !ps[i].dynamic,
    ensures
        tick(ps[i], a) == ps[i],
        run(ps, a, n).len() == ps.len(),
        run(ps, a, n)[i] == ps[i],
    decreases n,
{
    if n > 0 {
        lemma_kinematic_fixed(ps, a, (n - 1) as nat, i);
        let prev = run(ps, a, (n - 1) as nat);
        assert(tick_all(prev, a)[i] == tick(prev[i], a));
    }
}

/// Once let go, a particle that was grabbed (and perhaps dragged) starts with
/// no implicit velocity, so after its first step its velocity is exactly the
/// step displacement, however fast it was dragged.
pub proof fn lemma_release_at_rest(p: Particle, at: (int, int), to: (int, int), a: (int, int))
    ensures
        released(grabbed(p, at)).pos == released(grabbed(p, at)).prev,
        velocity(integrate(released(grabbed(p, at)), a)) == a,
        released(dragged_to(grabbed(p, at), to)).pos == released(dragged_to(grabbed(p, at), to)).prev,
        velocity(integrate(released(dragged_to(grabbed(p, at), to)), a)) == a,
{
}

} // verus!
