use vstd::prelude::*;
use crate::physics::arithmetic::{
    at_most, is_exact, lemma_add, lemma_add_keeps_at_most, lemma_at_most_then_lt, lemma_mul, lemma_mul_cancels,
    lemma_order, lemma_sub_self_and_zero, lemma_unit_fraction, lemma_whole,
};
use crate::physics::body::{Body, BodyView};
use crate::physics::constraint::{BodyHandle, ConstraintCalc};
use crate::physics::integrator::Independent;
use crate::physics::vector::Vec3;
use crate::physics::{
    frame_period, frame_period_spec, stall_limit, stall_limit_spec, time_step, time_step_spec, FRAMES_PER_SECOND,
    STALL_FRAMES, STEPS_PER_SECOND,
};

verus! {

/// The future positions of the bodies, each at the place of its handle: where the bodies are
/// before a step moves any of them.
pub open spec fn future_positions<T, C>(bodies: Seq<BodyView<T, C>>) -> Seq<Vec3<T>> {
    Seq::new(bodies.len(), |i: int| bodies[i].future.phase.position)
}

/// The bodies one fixed step later. Every body that is awake takes its step among the
/// positions that the bodies had before the step, so that the result does not depend on the
/// order in which the bodies are visited. A sleeping body is left as it is.
pub open spec fn stepped<T: Independent, C: ConstraintCalc<T>>(bodies: Seq<BodyView<T, C>>, dt: T) -> Seq<
    BodyView<T, C>,
> {
    Seq::new(
        bodies.len(),
        |i: int|
            if bodies[i].asleep {
                bodies[i]
            } else {
                bodies[i].stepped_among(dt, future_positions(bodies))
            },
    )
}

/// The bodies `n` fixed steps later.
pub open spec fn stepped_times<T: Independent, C: ConstraintCalc<T>>(
    bodies: Seq<BodyView<T, C>>,
    dt: T,
    n: nat,
) -> Seq<BodyView<T, C>>
    decreases n,
{
    if n == 0 {
        bodies
    } else {
        stepped(stepped_times(bodies, dt, (n - 1) as nat), dt)
    }
}

/// Whether a frame is stalled: it asks for more than ten frame periods.
pub open spec fn is_stalled<T: Independent>(frame_time: T, hangover: T) -> bool {
    stall_limit_spec::<T>().lt_spec(frame_time.sub_spec(hangover))
}

/// The time that a frame has to simulate: the frame time less the part that the previous
/// frame has simulated already, or one frame period where the frame is stalled.
pub open spec fn time_to_simulate<T: Independent>(frame_time: T, hangover: T) -> T {
    if is_stalled(frame_time, hangover) {
        frame_period_spec::<T>()
    } else {
        frame_time.sub_spec(hangover)
    }
}

/// The time simulated by `n` fixed steps: `n` time steps, added one after the other.
pub open spec fn simulated<T: Independent>(n: nat) -> T
    decreases n,
{
    if n == 0 {
        T::from_u16_spec(0)
    } else {
        simulated::<T>((n - 1) as nat).add_spec(time_step_spec::<T>())
    }
}

/// The number of steps at which the scheduler stops, once `done` steps have been taken
/// without reaching `target`.
pub open spec fn steps_from<T: Independent>(done: nat, target: T) -> nat
    decreases usize::MAX - done,
{
    if done < usize::MAX && simulated::<T>(done).lt_spec(target) {
        steps_from((done + 1) as nat, target)
    } else {
        done
    }
}

/// The number of fixed steps taken to simulate the time `target`: the least number whose
/// simulated time is not below `target` (see `lemma_step_count_is_least`).
pub open spec fn step_count<T: Independent>(target: T) -> nat {
    steps_from(0, target)
}

/// By how much the last fixed step overshot the time `target`.
pub open spec fn remainder_time<T: Independent>(target: T) -> T {
    simulated::<T>(step_count(target)).sub_spec(target)
}

/// The nominal number of fixed steps in a frame.
pub open spec fn nominal_steps<T: Independent>() -> usize {
    frame_period_spec::<T>().div_spec(time_step_spec::<T>()).to_usize_spec()
}

/// What the scheduler did in one frame.
#[derive(Clone, Copy, Debug, PartialEq)]
pub struct FrameReport<T> {
    /// The number of fixed steps taken.
    pub steps: usize,
    /// Whether the frame was stalled, and its time cut down to one frame period.
    pub stalled: bool,
    /// Whether more steps were taken than one above the nominal number for a frame.
    pub over_budget: bool,
    /// The fraction of a fixed step by which the simulation is ahead of the frame: the
    /// weight of the future state when the bodies are drawn.
    pub alpha: T,
}

/// The report of a frame of length `frame_time`, in a system that is `hangover` ahead.
pub open spec fn frame_report<T: Independent>(frame_time: T, hangover: T) -> FrameReport<T> {
    let target = time_to_simulate(frame_time, hangover);
    FrameReport {
        steps: step_count(target) as usize,
        stalled: is_stalled(frame_time, hangover),
        over_budget: step_count(target) > 1 + nominal_steps::<T>(),
        alpha: remainder_time(target).div_spec(time_step_spec::<T>()),
    }
}

/// What a system is, to its users: its bodies in the order of their handles, and the time
/// that it has simulated beyond the end of the last frame.
pub struct SystemView<T, C> {
    pub bodies: Seq<BodyView<T, C>>,
    pub hangover_time: T,
}

impl<T: Independent, C: ConstraintCalc<T>> SystemView<T, C> {
    /// The system after a frame of length `frame_time`.
    pub open spec fn after_frame(self, frame_time: T) -> Self {
        let target = time_to_simulate(frame_time, self.hangover_time);
        SystemView {
            bodies: stepped_times(self.bodies, time_step_spec::<T>(), step_count(target)),
            hangover_time: time_step_spec::<T>().sub_spec(remainder_time(target)),
        }
    }
}

/// Whether every constraint of the bodies has its partner among them. Bodies are never
/// removed, so a system that is closed stays closed until a body is added or changed.
pub open spec fn is_closed<T, C>(bodies: Seq<BodyView<T, C>>) -> bool {
    forall|i: int, k: int|
        0 <= i < bodies.len() && 0 <= k < bodies[i].constraints.len() ==> (
        #[trigger] bodies[i].constraints[k]).other.index < bodies.len()
}

/// The models of a sequence of bodies.
spec fn views<T: Independent, C>(bodies: Seq<Body<T, C>>) -> Seq<BodyView<T, C>> {
    Seq::new(bodies.len(), |i: int| bodies[i]@)
}

/// Replacing a body replaces its model, and no other.
proof fn lemma_views_update<T: Independent, C>()
    ensures
        forall|bodies: Seq<Body<T, C>>, i: int, body: Body<T, C>|
            0 <= i < bodies.len() ==> #[trigger] views(bodies.update(i, body)) == views(bodies).update(i, body@),
{
    assert forall|bodies: Seq<Body<T, C>>, i: int, body: Body<T, C>| 0 <= i < bodies.len() implies #[trigger] views(
        bodies.update(i, body),
    ) == views(bodies).update(i, body@) by {
        assert(views(bodies.update(i, body)) =~= views(bodies).update(i, body@));
    }
}

/// The simulation: it owns the bodies, and advances them in fixed steps as frames go by.
pub struct System<T: Independent, C: ConstraintCalc<T>> {
    bodies: Vec<Body<T, C>>,
    hangover_time: T,
}

impl<T: Independent, C: ConstraintCalc<T>> View for System<T, C> {
    type V = SystemView<T, C>;

    closed spec fn view(&self) -> SystemView<T, C> {
        SystemView {
            bodies: views(self.bodies@),
            hangover_time: self.hangover_time,
        }
    }
}

impl<T: Independent, C: ConstraintCalc<T>> System<T, C> {
    /// A system without bodies, in step with its frames.
    pub fn new() -> (system: Self)
        ensures
            system@ == (SystemView::<T, C> { bodies: Seq::empty(), hangover_time: T::from_u16_spec(0) }),
    {
        let system = System { bodies: Vec::new(), hangover_time: T::from_u16(0) };
        assert(system@.bodies =~= Seq::empty());
        system
    }

    /// Hands a body over to the system, and returns the handle by which constraints and
    /// callers refer to it: the number of bodies added before it.
    pub fn add_body(&mut self, body: Body<T, C>) -> (handle: BodyHandle)
        ensures
            handle.index == old(self)@.bodies.len(),
            final(self)@ == (SystemView { bodies: old(self)@.bodies.push(body@), ..old(self)@ }),
    {
        let index = self.bodies.len();
        self.bodies.push(body);
        assert(self@.bodies =~= old(self)@.bodies.push(body@));
        BodyHandle { index }
    }

    /// The number of bodies.
    pub fn len(&self) -> (n: usize)
        ensures
            n == self@.bodies.len(),
    {
        self.bodies.len()
    }

    /// The time that the system has simulated beyond the end of the last frame.
    pub fn hangover_time(&self) -> (t: T)
        ensures
            t == self@.hangover_time,
    {
        self.hangover_time
    }

    /// Whether every constraint has its partner in the system. A constraint whose partner
    /// is missing is not an error to the simulation, which passes it over; this is the way
    /// to find out.
    pub fn is_closed(&self) -> (r: bool)
        ensures
            r == is_closed(self@.bodies),
    {
        let n = self.bodies.len();
        let mut i: usize = 0;
        while i < n
            invariant
                n == self.bodies@.len(),
                i <= n,
                forall|j: int, k: int|
                    0 <= j < i && 0 <= k < self@.bodies[j].constraints.len() ==> (
                    #[trigger] self@.bodies[j].constraints[k]).other.index < n,
            decreases n - i,
        {
            let constraints = self.bodies[i].constraints();
            let mut k: usize = 0;
            while k < constraints.len()
                invariant
                    n == self.bodies@.len(),
                    i < n,
                    constraints@ == self@.bodies[i as int].constraints,
                    k <= constraints@.len(),
                    forall|l: int| 0 <= l < k ==> (#[trigger] constraints@[l]).other.index < n,
                decreases constraints@.len() - k,
            {
                if constraints[k].other.index >= n {
                    assert(!(self@.bodies[i as int].constraints[k as int].other.index < n));
                    return false;
                }
                k += 1;
            }
            i += 1;
        }
        true
    }

    /// The body behind a handle, if the system holds one there.
    pub fn body(&self, handle: BodyHandle) -> (found: Option<&Body<T, C>>)
        ensures
            found is Some <==> handle.index < self@.bodies.len(),
            found matches Some(body) ==> body@ == self@.bodies[handle.index as int],
    {
        if handle.index < self.bodies.len() {
            Some(&self.bodies[handle.index])
        } else {
            None
        }
    }

    /// The body behind a handle, to change it. What the caller leaves in the body is what
    /// the system then holds at that handle; nothing else changes.
    pub fn body_mut(&mut self, handle: BodyHandle) -> (found: Option<&mut Body<T, C>>)
        ensures
            found is Some <==> handle.index < old(self)@.bodies.len(),
            found matches Some(body) ==> body@ == old(self)@.bodies[handle.index as int] && final(self)@ == (
            SystemView {
                bodies: old(self)@.bodies.update(handle.index as int, final(body)@),
                ..old(self)@
            }),
            found is None ==> final(self)@ == old(self)@,
    {
        proof {
            lemma_views_update::<T, C>();
        }
        if handle.index < self.bodies.len() {
            let body = &mut self.bodies[handle.index];
            Some(body)
        } else {
            None
        }
    }

    /// The future positions of the bodies, each at the place of its handle. A step takes
    /// them before it moves any body, and every constraint is resolved against them.
    pub fn future_positions(&self) -> (positions: Vec<Vec3<T>>)
        ensures
            positions@ == future_positions(self@.bodies),
    {
        let n = self.bodies.len();
        let mut positions: Vec<Vec3<T>> = Vec::new();
        let mut i: usize = 0;
        while i < n
            invariant
                n == self.bodies@.len(),
                i <= n,
                positions@.len() == i,
                forall|j: int| 0 <= j < i ==> positions@[j] == (#[trigger] self@.bodies[j]).future.phase.position,
            decreases n - i,
        {
            positions.push(self.bodies[i].future().phase.position);
            i += 1;
        }
        assert(positions@ =~= future_positions(self@.bodies));
        positions
    }

    /// Advances every body that is awake by one step of length `time_step`, among the
    /// positions that the bodies have before the step.
    fn update_bodies(&mut self, time_step: T)
        ensures
            final(self)@ == (SystemView { bodies: stepped(old(self)@.bodies, time_step), ..old(self)@ }),
    {
        let ghost before = self@.bodies;
        let positions = self.future_positions();
        let n = self.bodies.len();
        let mut i: usize = 0;
        while i < n
            invariant
                before == old(self)@.bodies,
                positions@ == future_positions(before),
                n == before.len(),
                self.bodies@.len() == n,
                self.hangover_time == old(self).hangover_time,
                i <= n,
                forall|j: int| 0 <= j < i ==> #[trigger] self.bodies@[j]@ == stepped(before, time_step)[j],
                forall|j: int| i <= j < n ==> #[trigger] self.bodies@[j]@ == before[j],
            decreases n - i,
        {
            if !self.bodies[i].is_asleep() {
                self.bodies[i].update(time_step, positions.as_slice());
            }
            i += 1;
        }
        assert(self@.bodies =~= stepped(before, time_step));
    }

    /// Simulates one frame, and reports what was done.
    ///
    /// The time to simulate is the frame time less the time that the system is ahead. A
    /// stalled frame, one that asks for more than ten frame periods, is cut down to one
    /// frame period: the rest of its time is lost on purpose. Fixed steps are then taken
    /// until the simulated time is no longer below the time to simulate, or until there are
    /// as many as the machine can count, which in exact arithmetic is never the case (see
    /// `lemma_frames_are_bounded`).
    pub fn run_frame(&mut self, frame_time: T) -> (report: FrameReport<T>)
        ensures
            report == frame_report(frame_time, old(self)@.hangover_time),
            final(self)@ == old(self)@.after_frame(frame_time),
    {
        let time_step = time_step::<T>();

        // The time that the system is ahead has been simulated already.
        let mut time_to_simulate = frame_time.sub(self.hangover_time);

        // A stalled frame must not be caught up with: that would stall the next one too.
        let stalled = stall_limit::<T>().lt(time_to_simulate);
        if stalled {
            time_to_simulate = frame_period();
        }
        let mut simulated_time = T::from_u16(0);
        let mut steps: usize = 0;
        while steps < usize::MAX && simulated_time.lt(time_to_simulate)
            invariant
                time_step == time_step_spec::<T>(),
                simulated_time == simulated::<T>(steps as nat),
                steps_from(steps as nat, time_to_simulate) == step_count(time_to_simulate),
                self@.bodies == stepped_times(old(self)@.bodies, time_step, steps as nat),
                self@.hangover_time == old(self)@.hangover_time,
            decreases usize::MAX - steps,
        {
            self.update_bodies(time_step);
            simulated_time = simulated_time.add(time_step);
            steps += 1;
        }

        let nominal = frame_period::<T>().div(time_step).to_usize();
        let over_budget = steps > 0 && steps - 1 > nominal;

        // The last step has gone beyond the end of the frame by the remainder. The system
        // is then ahead by what is left of a step.
        let remainder_time = simulated_time.sub(time_to_simulate);
        self.hangover_time = time_step.sub(remainder_time);
        FrameReport { steps, stalled, over_budget, alpha: remainder_time.div(time_step) }
    }

    /// Simulates one frame, and returns the fraction of a fixed step by which the
    /// simulation is then ahead of the frame: the weight of the future state when the
    /// bodies are drawn.
    pub fn update(&mut self, frame_time: T) -> (alpha: T)
        ensures
            alpha == frame_report(frame_time, old(self)@.hangover_time).alpha,
            final(self)@ == old(self)@.after_frame(frame_time),
    {
        self.run_frame(frame_time).alpha
    }
}

/// What `steps_from` returns when every count below `done` has left the simulated time
/// below `target`: the least count that does not, or the largest count there is.
proof fn lemma_steps_from_is_least<T: Independent>(done: nat, target: T)
    requires
        done <= usize::MAX,
        forall|k: nat| k < done ==> #[trigger] simulated::<T>(k).lt_spec(target),
    ensures
        done <= steps_from(done, target) <= usize::MAX,
        forall|k: nat| k < steps_from(done, target) ==> #[trigger] simulated::<T>(k).lt_spec(target),
        steps_from(done, target) < usize::MAX ==> !simulated::<T>(steps_from(done, target)).lt_spec(target),
    decreases usize::MAX - done,
{
    if done < usize::MAX && simulated::<T>(done).lt_spec(target) {
        lemma_steps_from_is_least((done + 1) as nat, target);
    }
}

/// The scheduler takes the least number of fixed steps whose simulated time is not below
/// the time to simulate: every smaller number of steps falls short of it. Only where no
/// number of steps that the machine can count reaches the time does it stop at the largest
/// such number.
pub proof fn lemma_step_count_is_least<T: Independent>(target: T)
    ensures
        step_count(target) <= usize::MAX,
        forall|k: nat| k < step_count(target) ==> #[trigger] simulated::<T>(k).lt_spec(target),
        step_count(target) < usize::MAX ==> !simulated::<T>(step_count(target)).lt_spec(target),
{
    lemma_steps_from_is_least(0, target);
}

/// A number of steps is the step count of `target` if its simulated time is not below
/// `target` and that of every smaller number is.
pub proof fn lemma_step_count_unique<T: Independent>(target: T, n: nat)
    requires
        n <= usize::MAX,
        forall|k: nat| k < n ==> #[trigger] simulated::<T>(k).lt_spec(target),
        n < usize::MAX ==> !simulated::<T>(n).lt_spec(target),
    ensures
        step_count(target) == n,
{
    lemma_step_count_is_least(target);
    let m = step_count(target);
    if m < n {
        assert(simulated::<T>(m).lt_spec(target));
    } else if n < m {
        assert(simulated::<T>(n).lt_spec(target));
    }
}

/// A stalled frame is simulated as one frame period, however long it was: two stalled
/// frames leave the same system behind and give the same report.
pub proof fn lemma_stalled_frames_are_alike<T: Independent, C: ConstraintCalc<T>>(
    system: SystemView<T, C>,
    frame_time: T,
    other_frame_time: T,
)
    requires
        is_stalled(frame_time, system.hangover_time),
        is_stalled(other_frame_time, system.hangover_time),
    ensures
        time_to_simulate(frame_time, system.hangover_time) == frame_period_spec::<T>(),
        frame_report(frame_time, system.hangover_time).steps == step_count(frame_period_spec::<T>()),
        frame_report(frame_time, system.hangover_time) == frame_report(other_frame_time, system.hangover_time),
        system.after_frame(frame_time) == system.after_frame(other_frame_time),
{
    lemma_step_count_is_least(frame_period_spec::<T>());
}

/// The facts of arithmetic on which the law of unit frames rests. They hold in exact
/// arithmetic, and of floating-point numbers too: a step takes time; nothing lies below
/// itself; neither one step nor no time at all makes a stalled frame; taking nothing away, or
/// adding to nothing, changes nothing; a time less itself is no time; and no time is no
/// fraction of a step.
pub open spec fn unit_frame_arithmetic<T: Independent>() -> bool {
    let zero = T::from_u16_spec(0);
    let step = time_step_spec::<T>();
    let limit = stall_limit_spec::<T>();
    &&& zero.lt_spec(step)
    &&& !step.lt_spec(step)
    &&& !zero.lt_spec(zero)
    &&& !limit.lt_spec(step)
    &&& !limit.lt_spec(zero)
    &&& step.sub_spec(zero) == step
    &&& zero.sub_spec(zero) == zero
    &&& step.sub_spec(step) == zero
    &&& zero.add_spec(step) == step
    &&& zero.div_spec(step) == zero
}

impl<T: Independent, C: ConstraintCalc<T>> SystemView<T, C> {
    /// The system after `n` frames of the same length.
    pub open spec fn after_frames(self, frame_time: T, n: nat) -> Self
        decreases n,
    {
        if n == 0 {
            self
        } else {
            self.after_frames(frame_time, (n - 1) as nat).after_frame(frame_time)
        }
    }
}

/// One frame of exactly one time step, in a system that is in step with its frames or a
/// whole step ahead: the frame returns the fraction zero and leaves the system a whole step
/// ahead. It takes one fixed step in the first case and none in the second.
pub proof fn lemma_unit_frame<T: Independent, C: ConstraintCalc<T>>(system: SystemView<T, C>)
    requires
        unit_frame_arithmetic::<T>(),
        system.hangover_time == T::from_u16_spec(0) || system.hangover_time == time_step_spec::<T>(),
    ensures
        frame_report(time_step_spec::<T>(), system.hangover_time).alpha == T::from_u16_spec(0),
        frame_report(time_step_spec::<T>(), system.hangover_time).steps == (if system.hangover_time
            == time_step_spec::<T>() {
            0usize
        } else {
            1usize
        }),
        step_count(time_to_simulate(time_step_spec::<T>(), system.hangover_time)) == (if system.hangover_time
            == time_step_spec::<T>() {
            0nat
        } else {
            1nat
        }),
        system.after_frame(time_step_spec::<T>()).hangover_time == time_step_spec::<T>(),
{
    let zero = T::from_u16_spec(0);
    let step = time_step_spec::<T>();
    let target = time_to_simulate(step, system.hangover_time);
    assert(simulated::<T>(0) == zero);
    assert(simulated::<T>(1) == simulated::<T>(0).add_spec(step));
    if system.hangover_time == step {
        assert(target == zero);
    } else {
        assert(target == step);
        lemma_step_count_unique(target, 1);
    }
}

/// Frames of exactly one time step each, from a system in step with its frames: every one
/// of them returns the fraction zero. After the first the system stays a whole step ahead,
/// so that it is the first frame alone that takes a fixed step.
pub proof fn lemma_unit_frames<T: Independent, C: ConstraintCalc<T>>(system: SystemView<T, C>, n: nat)
    requires
        unit_frame_arithmetic::<T>(),
        system.hangover_time == T::from_u16_spec(0),
    ensures
        frame_report(time_step_spec::<T>(), system.after_frames(time_step_spec::<T>(), n).hangover_time).alpha
            == T::from_u16_spec(0),
        n > 0 ==> system.after_frames(time_step_spec::<T>(), n).hangover_time == time_step_spec::<T>(),
        n > 0 ==> system.after_frames(time_step_spec::<T>(), n).bodies == stepped(
            system.bodies,
            time_step_spec::<T>(),
        ),
    decreases n,
{
    let step = time_step_spec::<T>();
    if n == 0 {
        lemma_unit_frame(system);
    } else {
        let before = system.after_frames(step, (n - 1) as nat);
        lemma_unit_frames(system, (n - 1) as nat);
        lemma_unit_frame(before);
        let target = time_to_simulate(step, before.hangover_time);
        if n == 1 {
            assert(before == system);
            assert(step_count(target) == 1);
            assert(stepped_times(system.bodies, step, 1) == stepped(stepped_times(system.bodies, step, 0), step));
        } else {
            assert(step_count(target) == 0);
        }
    }
}

/// In exact arithmetic the time simulated by `n` fixed steps is `n` times the time step.
pub proof fn lemma_simulated_is_a_multiple<T: Independent>(n: u16)
    requires
        is_exact::<T>(),
    ensures
        simulated::<T>(n as nat) == T::from_u16_spec(n).mul_spec(time_step_spec::<T>()),
    decreases n,
{
    let one = T::from_u16_spec(1);
    let step = time_step_spec::<T>();
    lemma_mul(step, one, step);
    if n > 0 {
        let before = T::from_u16_spec((n - 1) as u16);
        lemma_simulated_is_a_multiple::<T>((n - 1) as u16);
        assert(simulated::<T>(n as nat) == simulated::<T>((n - 1) as nat).add_spec(step));
        lemma_mul(before, one, step);
        lemma_whole::<T>((n - 1) as u16, 1);
    }
}

/// In exact arithmetic a frame period is five fixed steps.
pub proof fn lemma_frame_period_is_five_steps<T: Independent>()
    requires
        is_exact::<T>(),
    ensures
        simulated::<T>(5) == frame_period_spec::<T>(),
        T::from_u16_spec(5).mul_spec(time_step_spec::<T>()) == frame_period_spec::<T>(),
{
    let five = T::from_u16_spec(5);
    let frames = T::from_u16_spec(FRAMES_PER_SECOND);
    let steps = T::from_u16_spec(STEPS_PER_SECOND);
    let step = time_step_spec::<T>();
    let period = frame_period_spec::<T>();
    lemma_simulated_is_a_multiple::<T>(5);
    lemma_unit_fraction::<T>(FRAMES_PER_SECOND);
    lemma_unit_fraction::<T>(STEPS_PER_SECOND);
    // Sixty times five steps are three hundred steps, which make a second, as sixty frame
    // periods do.
    lemma_mul(five, step, frames);
    lemma_mul(step, frames, frames);
    lemma_mul(five, frames, step);
    lemma_whole::<T>(5, FRAMES_PER_SECOND);
    lemma_mul(steps, step, step);
    assert(five.mul_spec(step).mul_spec(frames) == T::from_u16_spec(1));
    lemma_whole::<T>(0, FRAMES_PER_SECOND);
    lemma_mul_cancels(five.mul_spec(step), period, frames);
}

/// In exact arithmetic ten frame periods, the longest time that a frame is given, are fifty
/// fixed steps.
pub proof fn lemma_stall_limit_is_fifty_steps<T: Independent>()
    requires
        is_exact::<T>(),
    ensures
        simulated::<T>(50) == stall_limit_spec::<T>(),
{
    let five = T::from_u16_spec(5);
    let ten = T::from_u16_spec(STALL_FRAMES);
    let step = time_step_spec::<T>();
    lemma_simulated_is_a_multiple::<T>(50);
    lemma_frame_period_is_five_steps::<T>();
    lemma_whole::<T>(STALL_FRAMES, 5);
    lemma_mul(ten, five, step);
}

/// In exact arithmetic no frame takes more than fifty fixed steps, however long it was:
/// a frame is never given more than ten frame periods to simulate.
pub proof fn lemma_frames_are_bounded<T: Independent>(frame_time: T, hangover: T)
    requires
        is_exact::<T>(),
    ensures
        step_count(time_to_simulate(frame_time, hangover)) <= 50,
        at_most(time_to_simulate(frame_time, hangover), stall_limit_spec::<T>()),
{
    let one = T::from_u16_spec(1);
    let ten = T::from_u16_spec(STALL_FRAMES);
    let period = frame_period_spec::<T>();
    let limit = stall_limit_spec::<T>();
    let target = time_to_simulate(frame_time, hangover);
    lemma_stall_limit_is_fifty_steps::<T>();
    lemma_step_count_is_least(target);
    if is_stalled(frame_time, hangover) {
        // One frame period is less than ten.
        lemma_unit_fraction::<T>(FRAMES_PER_SECOND);
        lemma_whole::<T>(1, STALL_FRAMES);
        lemma_order(one, ten, period);
        lemma_mul(period, one, one);
        lemma_order(period, limit, period);
    }
    if step_count(target) > 50 {
        assert(simulated::<T>(50).lt_spec(target));
    }
}

/// In exact arithmetic a stalled frame takes exactly five fixed steps.
pub proof fn lemma_stalled_frame_takes_five_steps<T: Independent, C: ConstraintCalc<T>>(
    system: SystemView<T, C>,
    frame_time: T,
)
    requires
        is_exact::<T>(),
        is_stalled(frame_time, system.hangover_time),
    ensures
        frame_report(frame_time, system.hangover_time).steps == 5,
        system.after_frame(frame_time).bodies == stepped_times(system.bodies, time_step_spec::<T>(), 5),
{
    let five = T::from_u16_spec(5);
    let step = time_step_spec::<T>();
    let period = frame_period_spec::<T>();
    lemma_frame_period_is_five_steps::<T>();
    lemma_unit_fraction::<T>(STEPS_PER_SECOND);
    lemma_order(period, period, period);
    assert forall|k: nat| k < 5 implies #[trigger] simulated::<T>(k).lt_spec(period) by {
        lemma_simulated_is_a_multiple::<T>(k as u16);
        lemma_whole::<T>(k as u16, 5);
        lemma_order(T::from_u16_spec(k as u16), five, step);
    }
    lemma_step_count_unique(period, 5);
}

/// The facts on which the law of unit frames rests hold in exact arithmetic.
pub proof fn lemma_exact_arithmetic_serves_unit_frames<T: Independent>()
    requires
        is_exact::<T>(),
    ensures
        unit_frame_arithmetic::<T>(),
{
    let zero = T::from_u16_spec(0);
    let one = T::from_u16_spec(1);
    let step = time_step_spec::<T>();
    let limit = stall_limit_spec::<T>();
    lemma_unit_fraction::<T>(STEPS_PER_SECOND);
    // No time is no step, one step is one step, and the limit is fifty.
    lemma_stall_limit_is_fifty_steps::<T>();
    lemma_simulated_is_a_multiple::<T>(50);
    lemma_mul(step, one, one);
    lemma_whole::<T>(0, 50);
    lemma_whole::<T>(1, 50);
    lemma_order(zero, T::from_u16_spec(50), step);
    lemma_order(one, T::from_u16_spec(50), step);
    lemma_order(zero, limit, zero);
    lemma_order(step, limit, step);
    lemma_sub_self_and_zero(step);
    lemma_sub_self_and_zero(zero);
    lemma_add(step, step);
    // No time is no fraction of a step: both, times a step, are no time.
    lemma_mul(zero, step, step);
    lemma_mul_cancels(zero.div_spec(step), zero, step);
}

/// A time that is neither negative nor longer than a fixed step.
pub open spec fn within_a_step<T: Independent>(time: T) -> bool {
    at_most(T::from_u16_spec(0), time) && at_most(time, time_step_spec::<T>())
}

/// In exact arithmetic a frame that is not negative, in a system that is within a step of
/// its frames, overshoots by no more than a step.
pub proof fn lemma_remainder_within_a_step<T: Independent>(frame_time: T, hangover: T)
    requires
        is_exact::<T>(),
        at_most(T::from_u16_spec(0), frame_time),
        within_a_step(hangover),
    ensures
        within_a_step(remainder_time(time_to_simulate(frame_time, hangover))),
{
    let zero = T::from_u16_spec(0);
    let step = time_step_spec::<T>();
    let target = time_to_simulate(frame_time, hangover);
    let n = step_count(target);
    let reached = simulated::<T>(n);
    let rem = remainder_time(target);
    lemma_step_count_is_least(target);
    lemma_frames_are_bounded(frame_time, hangover);
    lemma_add(reached, target);
    lemma_add(target, target);

    // The overshoot is not negative: the last step has reached the target.
    lemma_order(rem, zero, target);
    // The overshoot is at most a step.
    if step.lt_spec(rem) {
        lemma_order(step, rem, target);
        if n > 0 {
            // The step before the last had not reached the target.
            let before = simulated::<T>((n - 1) as nat);
            assert(before.lt_spec(target));
            assert(reached == before.add_spec(step));
            lemma_order(before, target, step);
            lemma_add(target, step);
            lemma_order(reached, step.add_spec(target), reached);
        } else {
            // No step was taken: the frame asked for no more than the system was ahead by.
            assert(reached == zero);
            lemma_unit_fraction::<T>(FRAMES_PER_SECOND);
            assert(!is_stalled(frame_time, hangover));
            lemma_add(frame_time, hangover);
            lemma_add(target, hangover);
            lemma_add_keeps_at_most(hangover, step, target);
            lemma_at_most_then_lt(frame_time, step.add_spec(target), zero);
        }
    }
}

/// In exact arithmetic a frame that is not negative keeps the system within a step of its
/// frames, and the fraction that it returns lies between zero and one, both included.
pub proof fn lemma_frame_keeps_within_a_step<T: Independent, C: ConstraintCalc<T>>(
    system: SystemView<T, C>,
    frame_time: T,
)
    requires
        is_exact::<T>(),
        at_most(T::from_u16_spec(0), frame_time),
        within_a_step(system.hangover_time),
    ensures
        within_a_step(system.after_frame(frame_time).hangover_time),
        at_most(T::from_u16_spec(0), frame_report(frame_time, system.hangover_time).alpha),
        at_most(frame_report(frame_time, system.hangover_time).alpha, T::from_u16_spec(1)),
{
    let zero = T::from_u16_spec(0);
    let one = T::from_u16_spec(1);
    let step = time_step_spec::<T>();
    let target = time_to_simulate(frame_time, system.hangover_time);
    let rem = remainder_time(target);
    let ahead = step.sub_spec(rem);
    let alpha = rem.div_spec(step);
    lemma_remainder_within_a_step(frame_time, system.hangover_time);
    lemma_unit_fraction::<T>(STEPS_PER_SECOND);

    // What the system is ahead by and the overshoot make up a step.
    lemma_add(step, rem);
    lemma_add(rem, step);
    lemma_order(ahead, zero, rem);
    if step.lt_spec(ahead) {
        lemma_order(step, ahead, rem);
        lemma_add_keeps_at_most(zero, rem, step);
    }
    // The fraction times a step is the overshoot.
    lemma_mul(rem, step, step);
    lemma_mul(step, step, step);
    lemma_order(alpha, zero, step);
    lemma_order(one, alpha, step);
}

} // verus!
