//! The fixed-timestep scheduler: real elapsed time is gathered into a
//! remainder, and whole ticks of a fixed length are taken out of it.
use vstd::prelude::*;
use vstd::arithmetic::div_mod::lemma_fundamental_div_mod;
use crate::circle::{accel_displacement, accel_ok, Circle, Particle};
use crate::simulation::{all_ok, all_tick_fit, run, run_ok, same_colors, tick_all_ok, update, views};

verus! {

/// Why a call of [`Scheduler::advance`] stopped before taking every tick owed.
#[derive(Debug, PartialEq, Eq, Structural)]
pub enum StepError {
    /// The next tick would have carried a circle beyond the storable range;
    /// `steps_run` ticks were taken before it.
    OutOfRange { steps_run: u64 },
}

/// Time gathered towards the next tick, and the tick length, both in nanoseconds.
pub struct Scheduler {
    pub remainder: u64,
    pub fixed_dt: u64,
}

/// Ticks owed when `elapsed` is added to `remainder`.
pub open spec fn ticks_owed(remainder: int, elapsed: int, fixed_dt: int) -> int {
    (remainder + elapsed) / fixed_dt
}

/// Time left over when `elapsed` is added to `remainder` and whole ticks are taken.
pub open spec fn time_left(remainder: int, elapsed: int, fixed_dt: int) -> int {
    (remainder + elapsed) % fixed_dt
}

impl Scheduler {
    /// A positive tick length, and less than one tick gathered.
    pub open spec fn wf(&self) -> bool {
        0 < self.fixed_dt && self.remainder < self.fixed_dt
    }

    /// A scheduler with ticks of `fixed_dt` nanoseconds and nothing gathered.
    pub fn new(fixed_dt: u64) -> (s: Scheduler)
        requires
            fixed_dt > 0,
        ensures
            s.wf(),
            s.remainder == 0,
            s.fixed_dt == fixed_dt,
    {
        Scheduler { remainder: 0, fixed_dt }
    }

    /// Adds `elapsed` nanoseconds and runs [`update`] once for each whole tick
    /// that is now owed, keeping what is left over below one tick. Returns the
    /// number of ticks taken. Where a tick would carry a circle beyond the
    /// storable range, the circles stay as the ticks before left them, the
    /// ticks still owed are dropped, and the error says how many were taken.
    pub fn advance(&mut self, circles: &mut Vec<Circle>, gravity: (i64, i64), elapsed: u64) -> (r: Result<u64, StepError>)
        requires
            old(self).wf(),
            all_ok(views(old(circles)@)),
            accel_ok((gravity.0 as int, gravity.1 as int), old(self).fixed_dt as int),
        ensures
            final(self).wf(),
            final(self).fixed_dt == old(self).fixed_dt,
            final(self).remainder == time_left(old(self).remainder as int, elapsed as int, old(self).fixed_dt as int),
            all_ok(views(final(circles)@)),
            same_colors(old(circles)@, final(circles)@),
            ran_ticks(
                views(old(circles)@),
                views(final(circles)@),
                accel_displacement((gravity.0 as int, gravity.1 as int), old(self).fixed_dt as int),
                ticks_owed(old(self).remainder as int, elapsed as int, old(self).fixed_dt as int),
                r,
            ),
    {
        let n = self.gather(elapsed);
        run_ticks(circles, gravity, self.fixed_dt, n)
    }

    /// As [`Scheduler::advance`], but takes at most `max_steps` ticks, so that a
    /// long pause cannot stall the caller. Time owed beyond the cap is dropped:
    /// what is left over is the same as if every tick had been taken.
    pub fn advance_at_most(&mut self, circles: &mut Vec<Circle>, gravity: (i64, i64), elapsed: u64, max_steps: u64) -> (r: Result<u64, StepError>)
        requires
            old(self).wf(),
            all_ok(views(old(circles)@)),
            accel_ok((gravity.0 as int, gravity.1 as int), old(self).fixed_dt as int),
        ensures
            final(self).wf(),
            final(self).fixed_dt == old(self).fixed_dt,
            final(self).remainder == time_left(old(self).remainder as int, elapsed as int, old(self).fixed_dt as int),
            all_ok(views(final(circles)@)),
            same_colors(old(circles)@, final(circles)@),
            ran_ticks(
                views(old(circles)@),
                views(final(circles)@),
                accel_displacement((gravity.0 as int, gravity.1 as int), old(self).fixed_dt as int),
                smaller(ticks_owed(old(self).remainder as int, elapsed as int, old(self).fixed_dt as int), max_steps as int),
                r,
            ),
    {
        let owed = self.gather(elapsed);
        let n = if owed < max_steps { owed } else { max_steps };
        run_ticks(circles, gravity, self.fixed_dt, n)
    }

    /// Adds `elapsed` to what is gathered, keeps what is left below one tick,
    /// and returns the number of whole ticks taken out.
    fn gather(&mut self, elapsed: u64) -> (n: u64)
        requires
            old(self).wf(),
        ensures
            final(self).wf(),
            final(self).fixed_dt == old(self).fixed_dt,
            final(self).remainder == time_left(old(self).remainder as int, elapsed as int, old(self).fixed_dt as int),
            n == ticks_owed(old(self).remainder as int, elapsed as int, old(self).fixed_dt as int),
    {
        let dt = self.fixed_dt;
        let total: u128 = self.remainder as u128 + elapsed as u128;
        let owed: u128 = total / (dt as u128);
        let left: u128 = total % (dt as u128);
        proof {
            lemma_fundamental_div_mod(total as int, dt as int);
            assert(owed < 0x1_0000_0000_0000_0000u128) by (nonlinear_arith)
                requires
                    total == dt * owed + left,
                    0 <= left,
                    owed >= 0,
                    total <= (dt - 1) + 0xffff_ffff_ffff_ffffu128,
                    dt >= 1;
        }
        self.remainder = left as u64;
        owed as u64
    }
}

/// The smaller of two integers.
pub open spec fn smaller(a: int, b: int) -> int {
    if a <= b { a } else { b }
}

/// What running `n` ticks from `ps` to `qs` with result `r` means: either all
/// `n` were taken, or the error names the first tick that would have left the
/// storable range and the particles are as the ticks before it left them.
pub open spec fn ran_ticks(ps: Seq<Particle>, qs: Seq<Particle>, a: (int, int), n: int, r: Result<u64, StepError>) -> bool {
    match r {
        Ok(k) => k == n && run_ok(ps, a, k as nat) && qs == run(ps, a, k as nat),
        Err(StepError::OutOfRange { steps_run: k }) => {
            &&& k < n
            &&& run_ok(ps, a, k as nat)
            &&& !tick_all_ok(run(ps, a, k as nat), a)
            &&& qs == run(ps, a, k as nat)
        },
    }
}

/// Runs [`update`] `n` times, stopping before a tick that would carry a circle
/// beyond the storable range.
pub fn run_ticks(circles: &mut Vec<Circle>, gravity: (i64, i64), dt: u64, n: u64) -> (r: Result<u64, StepError>)
    requires
        all_ok(views(old(circles)@)),
        accel_ok((gravity.0 as int, gravity.1 as int), dt as int),
    ensures
        all_ok(views(final(circles)@)),
        same_colors(old(circles)@, final(circles)@),
        ran_ticks(
            views(old(circles)@),
            views(final(circles)@),
            accel_displacement((gravity.0 as int, gravity.1 as int), dt as int),
            n as int,
            r,
        ),
{
    let ghost a = accel_displacement((gravity.0 as int, gravity.1 as int), dt as int);
    let ghost start = circles@;
    let ghost ps = views(circles@);
    let mut k: u64 = 0;
    let mut stuck = false;
    while k < n
        invariant_except_break
            !stuck,
        invariant
            k <= n,
            start == old(circles)@,
            accel_ok((gravity.0 as int, gravity.1 as int), dt as int),
            a == accel_displacement((gravity.0 as int, gravity.1 as int), dt as int),
            ps == views(start),
            all_ok(views(circles@)),
            same_colors(start, circles@),
            run_ok(ps, a, k as nat),
            views(circles@) == run(ps, a, k as nat),
        ensures
            stuck ==> k < n && !tick_all_ok(run(ps, a, k as nat), a),
            !stuck ==> k == n,
        decreases n - k,
    {
        if !all_tick_fit(circles, gravity, dt) {
            stuck = true;
            break;
        }
        let ghost before = circles@;
        update(circles, gravity, dt);
        assert(same_colors(start, circles@)) by {
            assert forall|j: int| 0 <= j < start.len() implies #[trigger] start[j].color == circles@[j].color by {
                assert(start[j].color == before[j].color);
            }
        }
        k = k + 1;
    }
    if stuck {
        Err(StepError::OutOfRange { steps_run: k })
    } else {
        Ok(n)
    }
}

} // verus!
