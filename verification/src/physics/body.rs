use vstd::prelude::*;
use crate::physics::arithmetic::{is_exact, lemma_add, lemma_mul, lemma_sub_self_and_zero};
use crate::physics::constraint::{BodyHandle, Constraint, ConstraintCalc};
use crate::physics::integrator::{euler, euler_next, lemma_callable_equation, Dependent, Independent};
use crate::physics::vector::Vec3;

verus! {

/// The state that the integrator advances: where a body is, and its momentum.
#[derive(Clone, Copy, Debug, PartialEq)]
pub struct Phase<T> {
    pub position: Vec3<T>,
    pub momentum: Vec3<T>,
}

impl<T: Independent> Dependent<T> for Phase<T> {
    open spec fn add_spec(self, rhs: Self) -> Self {
        Phase { position: self.position.add_spec(rhs.position), momentum: self.momentum.add_spec(rhs.momentum) }
    }

    open spec fn mul_spec(self, k: T) -> Self {
        Phase { position: self.position.mul_spec(k), momentum: self.momentum.mul_spec(k) }
    }

    fn add(self, rhs: Self) -> (r: Self) {
        Phase { position: self.position.add(rhs.position), momentum: self.momentum.add(rhs.momentum) }
    }

    fn mul(self, k: T) -> (r: Self) {
        Phase { position: self.position.mul(k), momentum: self.momentum.mul(k) }
    }
}

/// One entry of a body's history: a phase, and the force gathered on the body in that state.
#[derive(Clone, Copy, Debug, PartialEq)]
pub struct BodyState<T> {
    pub phase: Phase<T>,
    pub force: Vec3<T>,
}

impl<T: Independent> BodyState<T> {
    /// A body at rest at the origin, with no force on it.
    pub open spec fn rest() -> Self {
        BodyState {
            phase: Phase { position: Vec3::zero_spec(), momentum: Vec3::zero_spec() },
            force: Vec3::zero_spec(),
        }
    }
}

/// A mass together with its inverse, so that the division is made once.
#[derive(Debug)]
struct Inertia<T: Independent> {
    mass: T,
    inv_mass: T,
}

impl<T: Independent> Inertia<T> {
    #[verifier::type_invariant]
    spec fn inverse_is_cached(self) -> bool {
        self.inv_mass == T::from_u16_spec(1).div_spec(self.mass)
    }

    fn new(mass: T) -> (r: Self)
        ensures
            r.mass == mass,
    {
        Inertia { mass, inv_mass: T::from_u16(1).div(mass) }
    }
}

/// What a body is, to its users: the model that the contracts of `Body` speak of.
pub struct BodyView<T, C> {
    pub asleep: bool,
    pub mass: T,
    /// The last settled state.
    pub current: BodyState<T>,
    /// The state that the next step starts from, with the force gathered for that step.
    pub future: BodyState<T>,
    pub constraints: Seq<Constraint<C>>,
}

impl<T: Independent, C> BodyView<T, C> {
    pub open spec fn inv_mass(self) -> T {
        T::from_u16_spec(1).div_spec(self.mass)
    }

    /// The blend `from * (1 - alpha) + to * alpha`.
    pub open spec fn blend(from: Vec3<T>, to: Vec3<T>, alpha: T) -> Vec3<T> {
        from.mul_spec(T::from_u16_spec(1).sub_spec(alpha)).add_spec(to.mul_spec(alpha))
    }

    /// The position the fraction `alpha` of the way from the current to the future state.
    pub open spec fn position_at(self, alpha: T) -> Vec3<T> {
        Self::blend(self.current.phase.position, self.future.phase.position, alpha)
    }

    /// The velocity the fraction `alpha` of the way from the current to the future state.
    pub open spec fn velocity_at(self, alpha: T) -> Vec3<T> {
        Self::blend(self.current.phase.momentum, self.future.phase.momentum, alpha).mul_spec(self.inv_mass())
    }

    /// The body with the position of its future state replaced.
    pub open spec fn with_position(self, position: Vec3<T>) -> Self {
        BodyView {
            future: BodyState { phase: Phase { position, ..self.future.phase }, ..self.future },
            ..self
        }
    }

    /// The body with the momentum of its future state set to that of the given velocity.
    pub open spec fn with_velocity(self, velocity: Vec3<T>) -> Self {
        BodyView {
            future: BodyState {
                phase: Phase { momentum: velocity.mul_spec(self.mass), ..self.future.phase },
                ..self.future
            },
            ..self
        }
    }

    /// The body with the force gathered for the next step replaced.
    pub open spec fn with_force(self, force: Vec3<T>) -> Self {
        BodyView { future: BodyState { force, ..self.future }, ..self }
    }
}

/// A force with the forces of the first `k` of the constraints added to it, one after the
/// other: each is the force that its law gives on a body at `this_pos` from a partner at the
/// place that `positions` holds for the partner's handle. A constraint whose partner has no
/// place there adds nothing.
pub open spec fn constraint_forces<T: Independent, C: ConstraintCalc<T>>(
    force: Vec3<T>,
    constraints: Seq<Constraint<C>>,
    this_pos: Vec3<T>,
    positions: Seq<Vec3<T>>,
    k: nat,
) -> Vec3<T>
    decreases k,
{
    if k == 0 {
        force
    } else {
        let before = constraint_forces(force, constraints, this_pos, positions, (k - 1) as nat);
        let constraint = constraints[k - 1];
        if constraint.other.index < positions.len() {
            before.add_spec(constraint.calc.force_spec(this_pos, positions[constraint.other.index as int]))
        } else {
            before
        }
    }
}

impl<T: Independent, C: ConstraintCalc<T>> BodyView<T, C> {
    /// The pending force plus the forces of the first `k` constraints, each taken at the
    /// body's future position and the partner's position; a partner that is missing adds
    /// nothing.
    pub open spec fn total_force(self, positions: Seq<Vec3<T>>, k: nat) -> Vec3<T> {
        constraint_forces(self.future.force, self.constraints, self.future.phase.position, positions, k)
    }

    /// The derivative of the phase at the start of a step: the velocity, and the total
    /// force on the body.
    pub open spec fn rate_among(self, positions: Seq<Vec3<T>>) -> Phase<T> {
        Phase {
            position: self.future.phase.momentum.mul_spec(self.inv_mass()),
            momentum: self.total_force(positions, self.constraints.len()),
        }
    }

    /// The body one step of length `time_step` later, among bodies at the given positions:
    /// the future state has become the current one, with the pending force that it had; the
    /// new future state is one Euler step on, under the total force; and no force is
    /// pending.
    pub open spec fn stepped_among(self, time_step: T, positions: Seq<Vec3<T>>) -> Self {
        BodyView {
            current: self.future,
            future: BodyState {
                phase: euler_next(self.future.phase, time_step, self.rate_among(positions)),
                force: Vec3::zero_spec(),
            },
            ..self
        }
    }
}

/// In exact arithmetic the blend starts at `from` and ends at `to`: the fraction zero gives
/// the first and the fraction one the second. So a body is drawn in its current state at
/// zero and in its future state at one.
pub proof fn lemma_blend_ends<T: Independent, C>(from: Vec3<T>, to: Vec3<T>)
    requires
        is_exact::<T>(),
    ensures
        BodyView::<T, C>::blend(from, to, T::from_u16_spec(0)) == from,
        BodyView::<T, C>::blend(from, to, T::from_u16_spec(1)) == to,
{
    lemma_sub_self_and_zero(T::from_u16_spec(1));
    lemma_scaling_by_zero_and_one(from);
    lemma_scaling_by_zero_and_one(to);
    lemma_adding_zero(from);
    lemma_adding_zero(to);
}

/// In exact arithmetic, for a body whose mass is not zero, momentum is mass times velocity
/// in both of its states: in the current one, which is drawn at the fraction zero, and in
/// the future one, which is drawn at the fraction one.
pub proof fn lemma_momentum_is_mass_times_velocity<T: Independent, C>(body: BodyView<T, C>)
    requires
        is_exact::<T>(),
        body.mass != T::from_u16_spec(0),
    ensures
        body.velocity_at(T::from_u16_spec(0)).mul_spec(body.mass) == body.current.phase.momentum,
        body.velocity_at(T::from_u16_spec(1)).mul_spec(body.mass) == body.future.phase.momentum,
{
    lemma_blend_ends::<T, C>(body.current.phase.momentum, body.future.phase.momentum);
    lemma_dividing_and_multiplying(body.current.phase.momentum, body.mass);
    lemma_dividing_and_multiplying(body.future.phase.momentum, body.mass);
}

/// In exact arithmetic a vector times the inverse of a scalar that is not zero, times that
/// scalar, is the vector.
proof fn lemma_dividing_and_multiplying<T: Independent>(v: Vec3<T>, m: T)
    requires
        is_exact::<T>(),
        m != T::from_u16_spec(0),
    ensures
        v.mul_spec(T::from_u16_spec(1).div_spec(m)).mul_spec(m) == v,
{
    let one = T::from_u16_spec(1);
    let w = one.div_spec(m);
    lemma_mul(one, m, m);
    lemma_mul(v.x, w, m);
    lemma_mul(v.y, w, m);
    lemma_mul(v.z, w, m);
    lemma_mul(v.x, one, m);
    lemma_mul(v.y, one, m);
    lemma_mul(v.z, one, m);
}

/// In exact arithmetic a vector times one is itself, and a vector times zero is zero.
proof fn lemma_scaling_by_zero_and_one<T: Independent>(v: Vec3<T>)
    requires
        is_exact::<T>(),
    ensures
        v.mul_spec(T::from_u16_spec(1)) == v,
        v.mul_spec(T::from_u16_spec(0)) == Vec3::<T>::zero_spec(),
{
    let zero = T::from_u16_spec(0);
    let one = T::from_u16_spec(1);
    lemma_mul(v.x, one, one);
    lemma_mul(v.y, one, one);
    lemma_mul(v.z, one, one);
    lemma_mul(v.x, zero, zero);
    lemma_mul(v.y, zero, zero);
    lemma_mul(v.z, zero, zero);
}

/// In exact arithmetic the zero vector adds nothing, on either side.
proof fn lemma_adding_zero<T: Independent>(v: Vec3<T>)
    requires
        is_exact::<T>(),
    ensures
        v.add_spec(Vec3::<T>::zero_spec()) == v,
        Vec3::<T>::zero_spec().add_spec(v) == v,
{
    lemma_add(v.x, v.x);
    lemma_add(v.y, v.y);
    lemma_add(v.z, v.z);
}

/// A simulated particle: a mass, the last two states of its motion, the force gathered for
/// the next step, and the constraints that pull on it.
#[derive(Debug)]
pub struct Body<T: Independent, C> {
    asleep: bool,
    inertia: Inertia<T>,
    current: BodyState<T>,
    future: BodyState<T>,
    constraints: Vec<Constraint<C>>,
}

impl<T: Independent, C> View for Body<T, C> {
    type V = BodyView<T, C>;

    closed spec fn view(&self) -> BodyView<T, C> {
        BodyView {
            asleep: self.asleep,
            mass: self.inertia.mass,
            current: self.current,
            future: self.future,
            constraints: self.constraints@,
        }
    }
}

impl<T: Independent, C> Body<T, C> {
    /// A body of unit mass, awake and at rest at the origin, under no force and no
    /// constraint.
    pub fn new() -> (body: Self)
        ensures
            body@ == (BodyView::<T, C> {
                asleep: false,
                mass: T::from_u16_spec(1),
                current: BodyState::rest(),
                future: BodyState::rest(),
                constraints: Seq::empty(),
            }),
    {
        let initial = BodyState {
            phase: Phase { position: Vec3::zero(), momentum: Vec3::zero() },
            force: Vec3::zero(),
        };
        Body {
            asleep: false,
            inertia: Inertia::new(T::from_u16(1)),
            current: initial,
            future: initial,
            constraints: Vec::new(),
        }
    }

    /// Attaches a constraint: from now on the law `calc` pulls this body towards `other`.
    pub fn add_constraint(&mut self, calc: C, other: BodyHandle)
        ensures
            final(self)@ == (BodyView::<T, C> {
                constraints: old(self)@.constraints.push(Constraint { other, calc }),
                ..old(self)@
            }),
    {
        self.constraints.push(Constraint { other, calc });
    }

    pub fn is_asleep(&self) -> (r: bool)
        ensures
            r == self@.asleep,
    {
        self.asleep
    }

    pub fn sleep(&mut self)
        ensures
            final(self)@ == (BodyView::<T, C> { asleep: true, ..old(self)@ }),
    {
        self.asleep = true;
    }

    pub fn wake(&mut self)
        ensures
            final(self)@ == (BodyView::<T, C> { asleep: false, ..old(self)@ }),
    {
        self.asleep = false;
    }

    pub fn mass(&self) -> (m: T)
        ensures
            m == self@.mass,
    {
        self.inertia.mass
    }

    /// Sets the mass, and hands the body back for further changes. The dynamics are
    /// meaningful for a positive mass only; any other is taken as it is, and the motion is
    /// then whatever the arithmetic gives.
    pub fn set_mass(&mut self, new_mass: T) -> (body: &mut Self)
        ensures
            body@ == (BodyView::<T, C> { mass: new_mass, ..old(self)@ }),
            *final(self) == *final(body),
    {
        self.inertia = Inertia::new(new_mass);
        self
    }

    /// The last settled state.
    pub fn current(&self) -> (state: BodyState<T>)
        ensures
            state == self@.current,
    {
        self.current
    }

    /// The state that the next step starts from.
    pub fn future(&self) -> (state: BodyState<T>)
        ensures
            state == self@.future,
    {
        self.future
    }

    /// The constraints that pull on this body, in the order in which they were attached.
    pub fn constraints(&self) -> (list: &Vec<Constraint<C>>)
        ensures
            list@ == self@.constraints,
    {
        &self.constraints
    }

    pub fn position(&self, alpha: T) -> (p: Vec3<T>)
        ensures
            p == self@.position_at(alpha),
    {
        let x0 = self.current.phase.position;
        let x1 = self.future.phase.position;
        x0.mul(T::from_u16(1).sub(alpha)).add(x1.mul(alpha))
    }

    /// Moves the body, and hands it back for further changes: the new position is that of
    /// the future state, from which the next step starts. The current state keeps its
    /// position.
    pub fn set_position(&mut self, new_position: Vec3<T>) -> (body: &mut Self)
        ensures
            body@ == old(self)@.with_position(new_position),
            *final(self) == *final(body),
    {
        self.future.phase.position = new_position;
        self
    }

    pub fn velocity(&self, alpha: T) -> (v: Vec3<T>)
        ensures
            v == self@.velocity_at(alpha),
    {
        proof {
            use_type_invariant(&self.inertia);
        }
        let before = self.current.phase.momentum;
        let after = self.future.phase.momentum;
        before.mul(T::from_u16(1).sub(alpha)).add(after.mul(alpha)).mul(self.inertia.inv_mass)
    }

    /// Sets the velocity of the future state, from which the next step starts, and hands the
    /// body back for further changes: the momentum becomes the velocity times the mass.
    pub fn set_velocity(&mut self, new_velocity: Vec3<T>) -> (body: &mut Self)
        ensures
            body@ == old(self)@.with_velocity(new_velocity),
            *final(self) == *final(body),
    {
        self.future.phase.momentum = new_velocity.mul(self.inertia.mass);
        self
    }

    /// The force under which the last step was taken.
    pub fn net_force(&self) -> (f: Vec3<T>)
        ensures
            f == self@.current.force,
    {
        self.current.force
    }

    /// Adds a force to those gathered for the next step.
    pub fn add_force(&mut self, new_force: Vec3<T>)
        ensures
            final(self)@ == old(self)@.with_force(old(self)@.future.force.add_spec(new_force)),
    {
        self.future.force = self.future.force.add(new_force);
    }
}

/// Adds to a force the forces of the constraints on a body at `this_pos`.
fn gather_forces<T: Independent, C: ConstraintCalc<T>>(
    force: Vec3<T>,
    constraints: &Vec<Constraint<C>>,
    this_pos: &Vec3<T>,
    positions: &[Vec3<T>],
) -> (total: Vec3<T>)
    ensures
        total == constraint_forces(force, constraints@, *this_pos, positions@, constraints@.len()),
{
    let mut total = force;
    let mut k: usize = 0;
    while k < constraints.len()
        invariant
            k <= constraints@.len(),
            total == constraint_forces(force, constraints@, *this_pos, positions@, k as nat),
        decreases constraints@.len() - k,
    {
        let other = constraints[k].other;
        if other.index < positions.len() {
            total = total.add(constraints[k].calc.force(this_pos, &positions[other.index]));
        }
        k += 1;
    }
    total
}

impl<T: Independent, C: ConstraintCalc<T>> Body<T, C> {
    /// The force that the next step is taken under, among bodies at the given positions:
    /// the pending force plus the forces of the constraints.
    pub fn total_force(&self, positions: &[Vec3<T>]) -> (total: Vec3<T>)
        ensures
            total == self@.total_force(positions@, self@.constraints.len()),
    {
        gather_forces(self.future.force, &self.constraints, &self.future.phase.position, positions)
    }

    /// One fixed step of the simulation: an Euler step from the future state under the
    /// total force, which is the pending force plus the force of every constraint.
    /// `positions` holds the position of each partner at the place of its handle; a
    /// constraint whose partner has no place there adds nothing. The step spends the pending
    /// force.
    pub fn update(&mut self, time_step: T, positions: &[Vec3<T>])
        ensures
            final(self)@ == old(self)@.stepped_among(time_step, positions@),
    {
        proof {
            use_type_invariant(&self.inertia);
        }
        let phase = self.future.phase;
        let base_force = self.future.force;
        let inv_mass = self.inertia.inv_mass;
        let constraints = &self.constraints;
        let equation = |y: Phase<T>, _t: T| -> (rate: Phase<T>)
            ensures
                rate == (Phase {
                    position: y.momentum.mul_spec(inv_mass),
                    momentum: constraint_forces(
                        base_force,
                        constraints@,
                        y.position,
                        positions@,
                        constraints@.len(),
                    ),
                }),
            {
                // The derivatives of the position and of the momentum: the velocity and
                // the total force.
                Phase {
                    position: y.momentum.mul(inv_mass),
                    momentum: gather_forces(base_force, constraints, &y.position, positions),
                }
            };
        let zero = T::from_u16(0);
        proof {
            lemma_callable_equation::<_, Phase<T>, T>(&equation);
        }
        let new_phase = euler(phase, zero, time_step, &equation);
        self.current = self.future;
        self.future = BodyState { phase: new_phase, force: Vec3::zero() };
    }
}

} // verus!
