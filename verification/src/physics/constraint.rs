use vstd::prelude::*;
use crate::physics::integrator::Independent;
use crate::physics::vector::Vec3;

verus! {

/// The place of a body in the system that owns it. A handle stays good for as long as the
/// system lives: bodies are never removed.
#[derive(Clone, Copy, Debug, PartialEq, Eq)]
pub struct BodyHandle {
    pub index: usize,
}

/// A force law between two bodies, together with the body at the other end. The constraint
/// is attached to the body that feels the force, and owns neither body.
#[derive(Clone, Copy, Debug)]
pub struct Constraint<C> {
    pub other: BodyHandle,
    pub calc: C,
}

/// A pairwise force law. The set of laws is open: a system is built over one law type, and
/// that type may be any implementation of this trait, an enum of several laws included.
pub trait ConstraintCalc<T: Independent> {
    /// The force on this body that results from the constraint with the other.
    spec fn force_spec(&self, this_pos: Vec3<T>, other_pos: Vec3<T>) -> Vec3<T>;

    fn force(&self, this_pos: &Vec3<T>, other_pos: &Vec3<T>) -> (f: Vec3<T>)
        ensures
            f == self.force_spec(*this_pos, *other_pos),
    ;
}

/// A linear spring without rest length: the force pulls towards the other body and is
/// proportional to the separation. The field is the spring constant.
#[derive(Clone, Copy, Debug, PartialEq)]
pub struct Spring<T>(pub T);

impl<T: Independent> Spring<T> {
    pub fn new(spring_constant: T) -> (s: Self)
        ensures
            s == Spring(spring_constant),
    {
        Spring(spring_constant)
    }
}

impl<T: Independent> ConstraintCalc<T> for Spring<T> {
    open spec fn force_spec(&self, this_pos: Vec3<T>, other_pos: Vec3<T>) -> Vec3<T> {
        other_pos.sub_spec(this_pos).mul_spec(self.0)
    }

    fn force(&self, this_pos: &Vec3<T>, other_pos: &Vec3<T>) -> (f: Vec3<T>) {
        let sep = other_pos.sub(*this_pos);
        sep.mul(self.0)
    }
}

} // verus!
