//! The simulation: scalars and states, integrators, bodies, constraints, and the system that
//! schedules fixed steps.

use vstd::prelude::*;

pub use crate::physics::body::{Body, Phase};
pub use crate::physics::constraint::{BodyHandle, Constraint, ConstraintCalc, Spring};
pub use crate::physics::integrator::{euler, rk4, Dependent, Euler, FirstOrderODE, Independent, Integrator, RK4};
pub use crate::physics::system::{FrameReport, System};
pub use crate::physics::vector::Vec3;

pub mod arithmetic;
pub mod body;
pub mod constraint;
pub mod energy;
pub mod integrator;
pub mod linear;
pub mod system;
pub mod vector;

verus! {

/// The nominal rate at which frames are drawn.
pub const FRAMES_PER_SECOND: u16 = 60;

/// The rate of the fixed physics steps: five to a nominal frame.
pub const STEPS_PER_SECOND: u16 = 300;

/// The number of frame periods beyond which a frame counts as stalled.
pub const STALL_FRAMES: u16 = 10;

/// The nominal time between two frames, a sixtieth of a second.
pub open spec fn frame_period_spec<T: Independent>() -> T {
    T::from_u16_spec(1).div_spec(T::from_u16_spec(FRAMES_PER_SECOND))
}

/// The length of a fixed physics step, a three-hundredth of a second.
pub open spec fn time_step_spec<T: Independent>() -> T {
    T::from_u16_spec(1).div_spec(T::from_u16_spec(STEPS_PER_SECOND))
}

/// The longest time that a frame may ask for: ten frame periods.
pub open spec fn stall_limit_spec<T: Independent>() -> T {
    T::from_u16_spec(STALL_FRAMES).mul_spec(frame_period_spec::<T>())
}

pub fn frame_period<T: Independent>() -> (r: T)
    ensures
        r == frame_period_spec::<T>(),
{
    T::from_u16(1).div(T::from_u16(FRAMES_PER_SECOND))
}

pub fn time_step<T: Independent>() -> (r: T)
    ensures
        r == time_step_spec::<T>(),
{
    T::from_u16(1).div(T::from_u16(STEPS_PER_SECOND))
}

pub fn stall_limit<T: Independent>() -> (r: T)
    ensures
        r == stall_limit_spec::<T>(),
{
    T::from_u16(STALL_FRAMES).mul(frame_period())
}

} // verus!
