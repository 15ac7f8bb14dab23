//! One simulation tick: the integrator over every circle, then the constraint
//! pass over every circle.
use vstd::prelude::*;
use crate::circle::{accel_displacement, accel_ok, integrate, particle_ok, point_ok, Circle, Particle};
use crate::constraints::{constrain, constrain_ok, slope_reach_of};
use crate::fixed::{accel_step, HALF, LIMIT};

verus! {

/// Downward acceleration of the sandbox: 0.8 units per second squared, in
/// position units per second squared.
pub const GRAVITY_Y: i64 = -858993459;

/// Length of one tick, 1/480 s, in nanoseconds.
pub const TICK_NANOS: u64 = 2083333;

/// One tick of one particle under step displacement `a`.
pub open spec fn tick(p: Particle, a: (int, int)) -> Particle {
    constrain(integrate(p, a))
}

/// Whether one tick keeps a particle's coordinates storable.
pub open spec fn tick_ok(p: Particle, a: (int, int)) -> bool {
    point_ok(integrate(p, a).pos) && constrain_ok(integrate(p, a))
}

/// What the physics sees of a collection of circles.
pub open spec fn views(cs: Seq<Circle>) -> Seq<Particle> {
    Seq::new(cs.len(), |i: int| cs[i]@)
}

/// Every particle is well formed.
pub open spec fn all_ok(ps: Seq<Particle>) -> bool {
    forall|i: int| 0 <= i < ps.len() ==> particle_ok(#[trigger] ps[i])
}

/// One tick of every particle.
pub open spec fn tick_all(ps: Seq<Particle>, a: (int, int)) -> Seq<Particle> {
    Seq::new(ps.len(), |i: int| tick(ps[i], a))
}

/// Whether one tick keeps every particle storable.
pub open spec fn tick_all_ok(ps: Seq<Particle>, a: (int, int)) -> bool {
    forall|i: int| 0 <= i < ps.len() ==> tick_ok(#[trigger] ps[i], a)
}

/// `n` ticks in a row.
pub open spec fn run(ps: Seq<Particle>, a: (int, int), n: nat) -> Seq<Particle>
    decreases n,
{
    if n == 0 {
        ps
    } else {
        tick_all(run(ps, a, (n - 1) as nat), a)
    }
}

/// Whether each of `n` ticks in a row keeps every particle storable.
pub open spec fn run_ok(ps: Seq<Particle>, a: (int, int), n: nat) -> bool
    decreases n,
{
    n == 0 || (run_ok(ps, a, (n - 1) as nat) && tick_all_ok(run(ps, a, (n - 1) as nat), a))
}

/// Colours are carried through unchanged.
pub open spec fn same_colors(a: Seq<Circle>, b: Seq<Circle>) -> bool {
    a.len() == b.len() && forall|i: int| 0 <= i < a.len() ==> #[trigger] a[i].color == b[i].color
}

/// Whether one tick of `c` keeps its coordinates storable.
pub fn tick_fits(c: &Circle, gravity: (i64, i64), dt: u64) -> (b: bool)
    requires
        c.wf(),
        accel_ok((gravity.0 as int, gravity.1 as int), dt as int),
    ensures
        b == tick_ok(c@, accel_displacement((gravity.0 as int, gravity.1 as int), dt as int)),
{
    if !c.has_physics {
        return true;
    }
    let ax = accel_step(gravity.0, dt);
    let ay = accel_step(gravity.1, dt);
    let x: i128 = 2 * (c.pos.0 as i128) - c.prev_pos.0 as i128 + ax as i128;
    let y: i128 = 2 * (c.pos.1 as i128) - c.prev_pos.1 as i128 + ay as i128;
    if x < -(LIMIT as i128) || x > LIMIT as i128 || y < -(LIMIT as i128) || y > LIMIT as i128 {
        return false;
    }
    let k = slope_reach_of(c.radius);
    let need: i128 = HALF as i128 + k as i128;
    let sum: i128 = x + y;
    if sum < need {
        let d: i128 = (need - sum + 1) / 2;
        let nx: i128 = x + d;
        let ny: i128 = y + d;
        !(nx < -(LIMIT as i128) || nx > LIMIT as i128 || ny < -(LIMIT as i128) || ny > LIMIT as i128)
    } else {
        true
    }
}

/// Whether one tick keeps every circle storable.
pub fn all_tick_fit(circles: &Vec<Circle>, gravity: (i64, i64), dt: u64) -> (b: bool)
    requires
        all_ok(views(circles@)),
        accel_ok((gravity.0 as int, gravity.1 as int), dt as int),
    ensures
        b == tick_all_ok(views(circles@), accel_displacement((gravity.0 as int, gravity.1 as int), dt as int)),
{
    let ghost a = accel_displacement((gravity.0 as int, gravity.1 as int), dt as int);
    let ghost ps = views(circles@);
    let mut i: usize = 0;
    while i < circles.len()
        invariant
            i <= circles@.len(),
            ps == views(circles@),
            all_ok(ps),
            accel_ok((gravity.0 as int, gravity.1 as int), dt as int),
            a == accel_displacement((gravity.0 as int, gravity.1 as int), dt as int),
            forall|j: int| 0 <= j < i ==> tick_ok(#[trigger] ps[j], a),
        decreases circles@.len() - i,
    {
        assert(ps[i as int] == circles@[i as int]@);
        assert(particle_ok(ps[i as int]));
        if !tick_fits(&circles[i], gravity, dt) {
            return false;
        }
        i = i + 1;
    }
    true
}

/// One simulation tick: every circle is integrated under `gravity` (position
/// units per second squared) over `dt` nanoseconds, and only then is the
/// constraint pass run over every circle.
pub fn update(circles: &mut Vec<Circle>, gravity: (i64, i64), dt: u64)
    requires
        all_ok(views(old(circles)@)),
        accel_ok((gravity.0 as int, gravity.1 as int), dt as int),
        tick_all_ok(views(old(circles)@), accel_displacement((gravity.0 as int, gravity.1 as int), dt as int)),
    ensures
        all_ok(views(final(circles)@)),
        same_colors(old(circles)@, final(circles)@),
        views(final(circles)@) == tick_all(views(old(circles)@), accel_displacement((gravity.0 as int, gravity.1 as int), dt as int)),
{
    let ghost a = accel_displacement((gravity.0 as int, gravity.1 as int), dt as int);
    let ghost start = circles@;
    let n = circles.len();
    let mut i: usize = 0;
    while i < n
        invariant
            n == start.len(),
            circles@.len() == n,
            i <= n,
            accel_ok((gravity.0 as int, gravity.1 as int), dt as int),
            a == accel_displacement((gravity.0 as int, gravity.1 as int), dt as int),
            tick_all_ok(views(start), a),
            all_ok(views(start)),
            forall|j: int| 0 <= j < n ==> #[trigger] circles@[j].color == start[j].color,
            forall|j: int| 0 <= j < i ==> #[trigger] circles@[j]@ == integrate(start[j]@, a),
            forall|j: int| 0 <= j < i ==> (#[trigger] circles@[j]).wf(),
            forall|j: int| i <= j < n ==> #[trigger] circles@[j] == start[j],
        decreases n - i,
    {
        assert(views(start)[i as int] == start[i as int]@);
        assert(particle_ok(views(start)[i as int]));
        assert(tick_ok(views(start)[i as int], a));
        circles[i].step(gravity, dt);
        i = i + 1;
    }
    let ghost mid = circles@;
    i = 0;
    while i < n
        invariant
            n == start.len(),
            circles@.len() == n,
            mid.len() == n,
            i <= n,
            tick_all_ok(views(start), a),
            a == accel_displacement((gravity.0 as int, gravity.1 as int), dt as int),
            forall|j: int| 0 <= j < n ==> #[trigger] circles@[j].color == start[j].color,
            forall|j: int| 0 <= j < n ==> #[trigger] mid[j]@ == integrate(start[j]@, a),
            forall|j: int| 0 <= j < n ==> (#[trigger] mid[j]).wf(),
            forall|j: int| 0 <= j < i ==> #[trigger] circles@[j]@ == tick(start[j]@, a),
            forall|j: int| 0 <= j < i ==> (#[trigger] circles@[j]).wf(),
            forall|j: int| i <= j < n ==> #[trigger] circles@[j] == mid[j],
        decreases n - i,
    {
        assert(views(start)[i as int] == start[i as int]@);
        assert(tick_ok(views(start)[i as int], a));
        assert(mid[i as int].wf());
        circles[i].constrain();
        i = i + 1;
    }
    assert(views(circles@) =~= tick_all(views(start), a));
    assert forall|j: int| 0 <= j < views(circles@).len() implies particle_ok(#[trigger] views(circles@)[j]) by {
        assert(circles@[j].wf());
    }
}

} // verus!
