use tiny_skia::Color;
use verlet_sandbox::circle::Circle;
use verlet_sandbox::constraints::slope_reach_of;
use verlet_sandbox::fixed::{accel_step, floor_div, isqrt, HALF, LIMIT, NANOS_PER_SECOND, ONE};
use verlet_sandbox::scheduler::{run_ticks, Scheduler, StepError};
use verlet_sandbox::simulation::{all_tick_fit, tick_fits, update, GRAVITY_Y, TICK_NANOS};

const TENTH: i64 = 107374182;

fn red() -> Color {
    Color::from_rgba8(255, 0, 0, 255)
}

fn gravity() -> (i64, i64) {
    (0, GRAVITY_Y)
}

#[test]
fn floor_div_rounds_down() {
    assert_eq!(floor_div(7, 2), 3);
    assert_eq!(floor_div(-7, 2), -4);
    assert_eq!(floor_div(-6, 2), -3);
    assert_eq!(floor_div(0, 5), 0);
}

#[test]
fn isqrt_values() {
    assert_eq!(isqrt(0), 0);
    assert_eq!(isqrt(1), 1);
    assert_eq!(isqrt(15), 3);
    assert_eq!(isqrt(16), 4);
    assert_eq!(isqrt(1u128 << 120), 1u128 << 60);
}

#[test]
fn accel_step_of_gravity() {
    assert_eq!(accel_step(GRAVITY_Y, TICK_NANOS), -3729);
    assert_eq!(accel_step(858993459, TICK_NANOS), 3728);
    assert_eq!(accel_step(ONE, NANOS_PER_SECOND), ONE);
    assert_eq!(accel_step(-ONE, 0), 0);
}

#[test]
fn slope_reach_is_radius_times_root_two() {
    assert_eq!(slope_reach_of(TENTH), 151850024);
    assert_eq!(slope_reach_of(1), 1);
}

#[test]
fn new_circle_is_at_rest() {
    let c = Circle::new((3, 4), 5, red());
    assert_eq!(c.pos, (3, 4));
    assert_eq!(c.prev_pos, (3, 4));
    assert_eq!(c.radius, 5);
    assert!(c.has_physics);
    assert_eq!(c.color, red());
}

#[test]
fn new_with_velocity_moves_one_sixtieth() {
    let c = Circle::new_with_velocity((1000, 1000), (600, -601), 5, red());
    assert_eq!(c.pos, (1010, 989));
    assert_eq!(c.prev_pos, (1000, 1000));
}

#[test]
fn rest_without_acceleration_stays() {
    let mut c = Circle::new((HALF, HALF), TENTH, red());
    c.step((0, 0), TICK_NANOS);
    assert_eq!(c.pos, (HALF, HALF));
    assert_eq!(c.prev_pos, (HALF, HALF));
}

#[test]
fn free_fall_velocity_grows_by_step_displacement() {
    let mut c = Circle::new_with_velocity((HALF, 3 * ONE), (6000, 6000), TENTH, red());
    let a = accel_step(GRAVITY_Y, TICK_NANOS);
    let mut vel = (c.pos.0 - c.prev_pos.0, c.pos.1 - c.prev_pos.1);
    let mut circles = vec![c];
    for _ in 0..5 {
        update(&mut circles, gravity(), TICK_NANOS);
        c = Circle { color: red(), ..circles[0] };
        let next = (c.pos.0 - c.prev_pos.0, c.pos.1 - c.prev_pos.1);
        assert_eq!(next, (vel.0, vel.1 + a));
        vel = next;
    }
}

#[test]
fn one_step_from_middle_then_constraints() {
    let mut c = Circle::new((HALF, HALF), TENTH, red());
    c.step(gravity(), TICK_NANOS);
    assert_eq!(c.pos, (HALF, HALF - 3729));
    assert_eq!(c.prev_pos, (HALF, HALF));
    // 0.8 / 480^2 of the unit square, within a position unit
    let expected = 0.8f64 / (480.0 * 480.0) * (ONE as f64);
    assert!(((HALF - c.pos.1) as f64 - expected).abs() < 1.0);
    c.constrain();
    assert_eq!(c.pos, (HALF, HALF - 3729));
}

#[test]
fn left_wall_clamps_to_radius() {
    let mut c = Circle::new((TENTH / 2, HALF), TENTH, red());
    c.clamp_left_wall();
    assert_eq!(c.pos, (TENTH, HALF));
}

#[test]
fn right_wall_and_floor_clamp() {
    let mut c = Circle::new((ONE, -5), TENTH, red());
    c.clamp_floor();
    assert_eq!(c.pos, (ONE, TENTH));
    c.clamp_right_wall();
    assert_eq!(c.pos, (ONE - TENTH, TENTH));
}

#[test]
fn box_clamps_are_idempotent() {
    let starts = [(-ONE, -ONE), (2 * ONE, HALF), (HALF, HALF), (ONE, 0)];
    for &(x, y) in starts.iter() {
        for &r in [TENTH, 3 * HALF / 2].iter() {
            let mut once = Circle::new((x, y), r, red());
            once.clamp_floor();
            once.clamp_right_wall();
            once.clamp_left_wall();
            let mut twice = Circle { color: red(), ..once };
            twice.clamp_floor();
            twice.clamp_right_wall();
            twice.clamp_left_wall();
            assert_eq!(once.pos, twice.pos);
        }
    }
}

#[test]
fn slope_pushes_along_normal() {
    // centre on the slope line: x + y == 1/2
    let mut c = Circle::new((HALF / 2, HALF / 2), TENTH, red());
    c.push_off_slope();
    let shift = (151850024 + 1) / 2;
    assert_eq!(c.pos, (HALF / 2 + shift, HALF / 2 + shift));
    assert_eq!(c.prev_pos, (HALF / 2, HALF / 2));
    let before = c.pos;
    c.push_off_slope();
    assert_eq!(c.pos, before);
}

#[test]
fn kinematic_circle_ignores_update() {
    let mut c = Circle::new((HALF, HALF), TENTH, red());
    c.grab((10, -20));
    let mut circles = vec![c];
    for _ in 0..3 {
        update(&mut circles, gravity(), TICK_NANOS);
    }
    assert_eq!(circles[0].pos, (10, -20));
    assert_eq!(circles[0].prev_pos, (10, -20));
    assert!(!circles[0].has_physics);
}

#[test]
fn released_circle_has_no_drag_speed() {
    let mut c = Circle::new((HALF, HALF), TENTH, red());
    c.grab((HALF, HALF));
    c.drag_to((HALF + 1000, HALF + 5000));
    c.drag_to((HALF + 9000, HALF + 9000));
    c.release();
    assert!(c.has_physics);
    assert_eq!(c.pos, c.prev_pos);
    c.step(gravity(), TICK_NANOS);
    assert_eq!((c.pos.0 - c.prev_pos.0, c.pos.1 - c.prev_pos.1), (0, -3729));
}

#[test]
fn drag_to_ignores_free_circle() {
    let mut c = Circle::new((HALF, HALF), TENTH, red());
    c.drag_to((0, 0));
    assert_eq!(c.pos, (HALF, HALF));
}

#[test]
fn scheduler_runs_whole_ticks() {
    let mut s = Scheduler::new(TICK_NANOS);
    let mut circles = vec![Circle::new((HALF, 2 * ONE), TENTH, red())];
    let r = s.advance(&mut circles, gravity(), 5208332);
    assert_eq!(r, Ok(2));
    assert_eq!(s.remainder, 1041666);
    assert_eq!(circles[0].pos.1, 2 * ONE - 3 * 3729);
    let r = s.advance(&mut circles, gravity(), 1041667);
    assert_eq!(r, Ok(1));
    assert_eq!(s.remainder, 0);
    let r = s.advance(&mut circles, gravity(), 0);
    assert_eq!(r, Ok(0));
}

#[test]
fn scheduler_small_units() {
    let mut s = Scheduler::new(1000);
    let mut circles: Vec<Circle> = Vec::new();
    assert_eq!(s.advance(&mut circles, gravity(), 2500), Ok(2));
    assert_eq!(s.remainder, 500);
}

#[test]
fn scheduler_stops_before_leaving_range() {
    let mut s = Scheduler::new(TICK_NANOS);
    let c = Circle { pos: (HALF, LIMIT), prev_pos: (HALF, 0), radius: TENTH, color: red(), has_physics: true };
    assert!(!tick_fits(&c, gravity(), TICK_NANOS));
    let mut circles = vec![c];
    assert!(!all_tick_fit(&circles, gravity(), TICK_NANOS));
    let r = s.advance(&mut circles, gravity(), 3 * TICK_NANOS + 7);
    assert_eq!(r, Err(StepError::OutOfRange { steps_run: 0 }));
    assert_eq!(s.remainder, 7);
    assert_eq!(circles[0].pos.1, LIMIT);
}

#[test]
fn capped_scheduler_drops_time_beyond_cap() {
    let mut s = Scheduler::new(1000);
    let mut circles = vec![Circle::new((HALF, 2 * ONE), TENTH, red())];
    assert_eq!(s.advance_at_most(&mut circles, gravity(), 10_250, 3), Ok(3));
    assert_eq!(s.remainder, 250);
    assert_eq!(s.advance_at_most(&mut circles, gravity(), 1_750, 3), Ok(2));
    assert_eq!(s.remainder, 0);
}

#[test]
fn run_ticks_counts_ticks() {
    let mut circles = vec![Circle::new((HALF, 2 * ONE), TENTH, red())];
    assert_eq!(run_ticks(&mut circles, gravity(), TICK_NANOS, 4), Ok(4));
    assert_eq!(circles[0].prev_pos.1 - circles[0].pos.1, 4 * 3729);
}
