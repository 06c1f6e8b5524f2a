use graphplay::physics::body::Body;
use graphplay::physics::constraint::{BodyHandle, Spring};
use graphplay::physics::integrator::Independent;
use graphplay::physics::system::System;
use graphplay::physics::vector::Vec3;
use graphplay::physics::{frame_period, stall_limit, time_step};

/// A single-precision scalar.
#[derive(Clone, Copy, Debug, PartialEq)]
struct Single(f32);

impl Independent for Single {
    fn from_u16_spec(n: u16) -> Single {
        Single(n as f32)
    }

    fn add_spec(self, rhs: Single) -> Single {
        Single(self.0 + rhs.0)
    }

    fn sub_spec(self, rhs: Single) -> Single {
        Single(self.0 - rhs.0)
    }

    fn mul_spec(self, rhs: Single) -> Single {
        Single(self.0 * rhs.0)
    }

    fn div_spec(self, rhs: Single) -> Single {
        Single(self.0 / rhs.0)
    }

    fn lt_spec(self, rhs: Single) -> bool {
        self.0 < rhs.0
    }

    fn to_usize_spec(self) -> usize {
        self.0 as usize
    }

    fn from_u16(n: u16) -> Single {
        Single(n as f32)
    }

    fn add(self, rhs: Single) -> Single {
        Single(self.0 + rhs.0)
    }

    fn sub(self, rhs: Single) -> Single {
        Single(self.0 - rhs.0)
    }

    fn mul(self, rhs: Single) -> Single {
        Single(self.0 * rhs.0)
    }

    fn div(self, rhs: Single) -> Single {
        Single(self.0 / rhs.0)
    }

    fn lt(self, rhs: Single) -> bool {
        self.0 < rhs.0
    }

    fn to_usize(self) -> usize {
        self.0 as usize
    }
}

type World = System<Single, Spring<Single>>;

type TestBody = Body<Single, Spring<Single>>;

const TIME_STEP: f32 = 1.0 / 300.0;

const FRAME_PERIOD: f32 = 1.0 / 60.0;

fn vec3(x: f32, y: f32, z: f32) -> Vec3<Single> {
    Vec3::new(Single(x), Single(y), Single(z))
}

/// A world with a free body of the given mass at (10, 0, 0), held by a spring to a sleeping
/// anchor at the origin.
fn world_with_spring(k: f32, mass: f32) -> (World, BodyHandle) {
    let mut world = World::new();
    let mut anchor = TestBody::new();
    anchor.sleep();
    let anchor = world.add_body(anchor);
    let mut free = TestBody::new();
    free.set_mass(Single(mass)).set_position(vec3(10.0, 0.0, 0.0));
    free.add_constraint(Spring(Single(k)), anchor);
    let free = world.add_body(free);
    (world, free)
}

fn distance(world: &World, handle: BodyHandle) -> f32 {
    let p = world.body(handle).unwrap().future().phase.position;
    (p.x.0 * p.x.0 + p.y.0 * p.y.0 + p.z.0 * p.z.0).sqrt()
}

fn energy(world: &World, handle: BodyHandle, k: f32, mass: f32) -> f32 {
    let phase = world.body(handle).unwrap().future().phase;
    k * phase.position.x.0 * phase.position.x.0 + phase.momentum.x.0 * phase.momentum.x.0 / mass
}

/// Takes exactly one fixed step, whatever the system is ahead by.
fn one_step(world: &mut World) {
    let ahead = world.hangover_time().0;
    let report = world.run_frame(Single(ahead + 0.5 * TIME_STEP));
    assert_eq!(report.steps, 1);
}

#[test]
fn constants_in_single_precision() {
    assert_eq!(time_step::<Single>(), Single(TIME_STEP));
    assert_eq!(frame_period::<Single>(), Single(FRAME_PERIOD));
    assert_eq!(stall_limit::<Single>(), Single(10.0 * FRAME_PERIOD));
}

#[test]
fn unit_frames_in_single_precision() {
    let mut world = World::new();
    let first = world.run_frame(Single(TIME_STEP));
    assert_eq!(first.steps, 1);
    assert_eq!(first.alpha, Single(0.0));
    for _ in 0..100 {
        assert_eq!(world.update(Single(TIME_STEP)), Single(0.0));
        assert_eq!(world.hangover_time(), Single(TIME_STEP));
    }
}

#[test]
fn two_and_a_half_steps_in_single_precision() {
    let mut world = World::new();
    let first = world.run_frame(Single(2.5 * TIME_STEP));
    assert_eq!(first.steps, 3);
    assert!((first.alpha.0 - 0.5).abs() < 1.0e-4);
    assert!((world.hangover_time().0 - 0.5 * TIME_STEP).abs() < 1.0e-7);
    // What is left to simulate is now zero up to rounding: either nothing is done, or one
    // step that overshoots by all of its length.
    let second = world.run_frame(Single(0.5 * TIME_STEP));
    assert!(second.steps <= 1);
    if second.steps == 0 {
        assert!(second.alpha.0.abs() < 1.0e-4);
    } else {
        assert!((second.alpha.0 - 1.0).abs() < 1.0e-4);
    }
}

#[test]
fn stalled_frame_in_single_precision() {
    let mut world = World::new();
    let report = world.run_frame(Single(50.0 * FRAME_PERIOD));
    assert!(report.stalled);
    // One frame period is five steps, or six where the fifth sum rounds below it.
    assert!(report.steps == 5 || report.steps == 6);
    assert!(!report.over_budget);
    let mut world = World::new();
    assert_eq!(world.run_frame(Single(1.0e30)), report);
    assert_eq!(world.run_frame(Single(f32::INFINITY)), report);
}

#[test]
fn frame_that_is_not_a_number_takes_no_step() {
    let mut world = World::new();
    let report = world.run_frame(Single(f32::NAN));
    assert_eq!(report.steps, 0);
    assert!(!report.stalled);
    assert!(report.alpha.0.is_nan());
}

#[test]
fn soft_spring_swings_about_the_anchor() {
    let (k, mass) = (5.0, 1.0);
    let (mut world, free) = world_with_spring(k, mass);
    let mut nearest = f32::INFINITY;
    let mut farthest: f32 = 0.0;
    let mut crossed = false;
    for _ in 0..3000 {
        one_step(&mut world);
        let d = distance(&world, free);
        nearest = nearest.min(d);
        farthest = farthest.max(d);
        crossed = crossed || world.body(free).unwrap().future().phase.position.x.0 < 0.0;
    }
    // Ten seconds are about three and a half periods: the body passes through the anchor,
    // and its swing has grown by less than a tenth.
    assert!(crossed);
    assert!(nearest < 0.1);
    assert!(farthest < 11.0);
    assert!(farthest >= 10.0);
}

#[test]
fn euler_spring_energy_grows_by_a_fixed_factor() {
    for (k, mass) in [(5.0, 1.0), (40.0, 2.0), (90000.0, 1.0), (360000.0, 1.0)] {
        let (mut world, free) = world_with_spring(k, mass);
        one_step(&mut world);
        let factor = 1.0 + k * TIME_STEP * TIME_STEP / mass;
        let mut steps = 0;
        while steps < 50 && energy(&world, free, k, mass) < 1.0e30 {
            let before = energy(&world, free, k, mass);
            one_step(&mut world);
            let after = energy(&world, free, k, mass);
            assert!(after >= before);
            assert!((after / before - factor).abs() < 1.0e-3 * factor);
            steps += 1;
        }
        assert!(steps >= 30);
    }
}

#[test]
fn stiff_spring_drives_the_body_away() {
    // With k dt^2 / m = 4 every step multiplies the energy by five.
    let k = 4.0 / (TIME_STEP * TIME_STEP);
    let (mut world, free) = world_with_spring(k, 1.0);
    // The body swings through the anchor, so its distance is compared over three steps:
    // the farthest of them grows every time.
    let mut previous = 10.0;
    for _ in 0..6 {
        let mut farthest: f32 = 0.0;
        for _ in 0..3 {
            one_step(&mut world);
            farthest = farthest.max(distance(&world, free));
        }
        assert!(farthest > 2.0 * previous);
        previous = farthest;
    }
    assert!(previous > 1.0e6);
}

#[test]
fn swing_grows_faster_the_stiffer_the_spring() {
    let mut previous_growth = 0.0;
    for k in [1.0, 100.0, 10000.0] {
        let (mut world, free) = world_with_spring(k, 1.0);
        let mut farthest: f32 = 0.0;
        for _ in 0..600 {
            one_step(&mut world);
            farthest = farthest.max(distance(&world, free));
        }
        let growth = farthest / 10.0;
        assert!(growth >= 1.0);
        assert!(growth > previous_growth);
        previous_growth = growth;
    }
    // Well below k = 2 / (dt^2 m) the swing has grown beyond all use: by then it has more
    // than doubled with every hundred steps.
    assert!(previous_growth.is_finite());
    assert!(previous_growth > 64.0);
}

#[test]
fn body_on_a_soft_spring_swings_within_its_bound() {
    let k = 5.0f32;
    let mut body = TestBody::new();
    body.set_position(vec3(10.0, 0.0, 0.0));
    body.add_constraint(Spring(Single(k)), BodyHandle { index: 0 });
    let anchor = [vec3(0.0, 0.0, 0.0)];
    let growth = (1.0 + k as f64 * (TIME_STEP as f64) * (TIME_STEP as f64)).sqrt();
    let mut bound = 10.0f64;
    let mut crossings = 0;
    let mut side = 1.0;
    for _ in 0..3000 {
        body.update(Single(TIME_STEP), &anchor);
        bound *= growth;
        let p = body.position(Single(1.0));
        assert!((p.x.0.abs() as f64) <= bound * (1.0 + 1.0e-4));
        assert_eq!(p.y.0, 0.0);
        assert_eq!(p.z.0, 0.0);
        if p.x.0 * side < 0.0 {
            crossings += 1;
            side = -side;
        }
    }
    // Ten seconds are more than three periods of about 2.8 seconds each.
    assert!(crossings >= 6);
    assert!(bound < 11.0);
}

#[test]
fn body_on_a_stiff_spring_is_thrown_out_in_two_steps() {
    for (k, nearer) in [(1.0f32, true), (1000.0, true), (170000.0, true), (190000.0, false), (400000.0, false)] {
        let mut body = TestBody::new();
        body.set_position(vec3(10.0, 0.0, 0.0));
        body.add_constraint(Spring(Single(k)), BodyHandle { index: 0 });
        let anchor = [vec3(0.0, 0.0, 0.0)];
        body.update(Single(TIME_STEP), &anchor);
        body.update(Single(TIME_STEP), &anchor);
        let x = body.position(Single(1.0)).x.0;
        assert!((x - 10.0 * (1.0 - k * TIME_STEP * TIME_STEP)).abs() < 1.0e-3);
        assert_eq!(x.abs() < 10.0, nearer);
        assert_eq!(x.abs() > 10.0, !nearer);
    }
}
