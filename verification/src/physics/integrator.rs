use vstd::prelude::*;

verus! {

/// An independent variable: the scalar that measures time, and by which states are scaled.
///
/// The library never looks inside a scalar. Every operation comes as a pair: a spec function,
/// which names the result, and an executable method that returns exactly that result. What
/// is claimed of an implementation is therefore only that its arithmetic is a function of
/// the operands. Nothing is claimed of rounding, of associativity or of any other law of
/// algebra; the laws proved in this crate name the facts of arithmetic that they rest on.
pub trait Independent: Copy + Sized {
    /// The scalar that stands for the whole number `n`.
    spec fn from_u16_spec(n: u16) -> Self;

    spec fn add_spec(self, rhs: Self) -> Self;

    spec fn sub_spec(self, rhs: Self) -> Self;

    spec fn mul_spec(self, rhs: Self) -> Self;

    spec fn div_spec(self, rhs: Self) -> Self;

    /// Whether `self` lies strictly below `rhs`.
    spec fn lt_spec(self, rhs: Self) -> bool;

    /// The whole part of a scalar, as a count.
    spec fn to_usize_spec(self) -> usize;

    fn from_u16(n: u16) -> (r: Self)
        ensures
            r == Self::from_u16_spec(n),
    ;

    fn add(self, rhs: Self) -> (r: Self)
        ensures
            r == self.add_spec(rhs),
    ;

    fn sub(self, rhs: Self) -> (r: Self)
        ensures
            r == self.sub_spec(rhs),
    ;

    fn mul(self, rhs: Self) -> (r: Self)
        ensures
            r == self.mul_spec(rhs),
    ;

    fn div(self, rhs: Self) -> (r: Self)
        ensures
            r == self.div_spec(rhs),
    ;

    fn lt(self, rhs: Self) -> (r: bool)
        ensures
            r == self.lt_spec(rhs),
    ;

    fn to_usize(self) -> (r: usize)
        ensures
            r == self.to_usize_spec(),
    ;

    /// Addition in place.
    fn add_assign(&mut self, rhs: Self)
        ensures
            *final(self) == old(self).add_spec(rhs),
    {
        *self = self.add(rhs);
    }
}

/// A dependent variable: the state that an equation advances, which is also the shape of
/// the equation's derivatives. It is a vector over the scalar `T`: two states can be added
/// and a state can be scaled.
pub trait Dependent<T: Independent>: Copy + Sized {
    spec fn add_spec(self, rhs: Self) -> Self;

    spec fn mul_spec(self, k: T) -> Self;

    fn add(self, rhs: Self) -> (r: Self)
        ensures
            r == self.add_spec(rhs),
    ;

    fn mul(self, k: T) -> (r: Self)
        ensures
            r == self.mul_spec(k),
    ;

    /// Addition in place.
    fn add_assign(&mut self, rhs: Self)
        ensures
            *final(self) == old(self).add_spec(rhs),
    {
        *self = self.add(rhs);
    }

    /// Scaling in place.
    fn mul_assign(&mut self, k: T)
        ensures
            *final(self) == old(self).mul_spec(k),
    {
        *self = self.mul(k);
    }
}

/// A first-order ordinary differential equation, `X' = derivative(X, T)`.
///
/// `defined_at` says where the derivative may be asked for, and `yields` which rates it may
/// answer with there. An equation need not be a function in the mathematical sense: `yields`
/// is a relation, so that any callable qualifies, whatever its own contract says.
pub trait FirstOrderODE<X: Dependent<T>, T: Independent> {
    spec fn defined_at(&self, dep: X, indep: T) -> bool;

    spec fn yields(&self, dep: X, indep: T, rate: X) -> bool;

    fn derivative(&self, dep: X, indep: T) -> (rate: X)
        requires
            self.defined_at(dep, indep),
        ensures
            self.yields(dep, indep, rate),
    ;
}

/// Every callable from a state and a time to a rate is an equation. It is defined where the
/// callable's precondition holds, and yields what the callable's postcondition admits.
impl<F: Fn(X, T) -> X, X: Dependent<T>, T: Independent> FirstOrderODE<X, T> for F {
    open spec fn defined_at(&self, dep: X, indep: T) -> bool {
        self.requires((dep, indep))
    }

    open spec fn yields(&self, dep: X, indep: T, rate: X) -> bool {
        self.ensures((dep, indep), rate)
    }

    fn derivative(&self, dep: X, indep: T) -> (rate: X) {
        self(dep, indep)
    }
}

/// What the two spec functions of a callable equation mean, for callers that hold a closure:
/// its precondition and its postcondition.
pub proof fn lemma_callable_equation<F: Fn(X, T) -> X, X: Dependent<T>, T: Independent>(f: &F)
    ensures
        forall|dep: X, indep: T| #[trigger] f.defined_at(dep, indep) == f.requires((dep, indep)),
        forall|dep: X, indep: T, rate: X| #[trigger] f.yields(dep, indep, rate) == f.ensures((dep, indep), rate),
{
}

/// The state one Euler step of length `dt` after `x0`, where the equation answered `rate`.
pub open spec fn euler_next<X: Dependent<T>, T: Independent>(x0: X, dt: T, rate: X) -> X {
    x0.add_spec(rate.mul_spec(dt))
}

/// Whether `x1` is a state that one Euler step of length `dt` can reach from `x0` at `t0`.
pub open spec fn euler_reaches<E, X, T>(equation: &E, x0: X, t0: T, dt: T, x1: X) -> bool where
    E: FirstOrderODE<X, T>,
    X: Dependent<T>,
    T: Independent,
 {
    exists|rate: X| #[trigger] equation.yields(x0, t0, rate) && x1 == euler_next(x0, dt, rate)
}

/// Euler's method: one step of length `dt` along the derivative at the start of the step.
pub fn euler<E, X, T>(x0: X, t0: T, dt: T, equation: &E) -> (x1: X) where
    E: FirstOrderODE<X, T>,
    X: Dependent<T>,
    T: Independent,

    requires
        equation.defined_at(x0, t0),
    ensures
        euler_reaches(equation, x0, t0, dt, x1),
{
    let xdot = equation.derivative(x0, t0);
    let dx = xdot.mul(dt);
    x0.add(dx)
}

/// Where the equation answers with one rate alone, `c`, an Euler step of length `dt` from
/// `x0` arrives at `x0 + c * dt` exactly.
pub proof fn lemma_euler_constant_rate<E, X, T>(equation: &E, x0: X, t0: T, dt: T, c: X, x1: X) where
    E: FirstOrderODE<X, T>,
    X: Dependent<T>,
    T: Independent,

    requires
        forall|rate: X| #[trigger] equation.yields(x0, t0, rate) ==> rate == c,
        euler_reaches(equation, x0, t0, dt, x1),
    ensures
        x1 == x0.add_spec(c.mul_spec(dt)),
{
}

/// An Euler step under an equation whose derivative is zero returns the state that it
/// started from. Zero is here any rate that scaling by `dt` leaves as it is and that adds
/// nothing to `x0`.
pub proof fn lemma_euler_zero_rate<E, X, T>(equation: &E, x0: X, t0: T, dt: T, zero: X, x1: X) where
    E: FirstOrderODE<X, T>,
    X: Dependent<T>,
    T: Independent,

    requires
        forall|rate: X| #[trigger] equation.yields(x0, t0, rate) ==> rate == zero,
        zero.mul_spec(dt) == zero,
        x0.add_spec(zero) == x0,
        euler_reaches(equation, x0, t0, dt, x1),
    ensures
        x1 == x0,
{
}

/// Half of the step `h`, the offset of the two midpoint evaluations.
pub open spec fn rk4_half<T: Independent>(h: T) -> T {
    h.div_spec(T::from_u16_spec(2))
}

/// The state at which a stage of the method asks for its slope: `x0` moved along the
/// previous slope `k` for the time `h`.
pub open spec fn rk4_probe<X: Dependent<T>, T: Independent>(x0: X, k: X, h: T) -> X {
    x0.add_spec(k.mul_spec(h))
}

/// The state after a Runge-Kutta step of length `h` from `x0`, given the four slopes:
/// `x0 + (k1 + 2 k2 + 2 k3 + k4) * h / 6`, summed from left to right.
pub open spec fn rk4_next<X: Dependent<T>, T: Independent>(x0: X, h: T, k1: X, k2: X, k3: X, k4: X) -> X {
    let two = T::from_u16_spec(2);
    let six = T::from_u16_spec(6);
    x0.add_spec(
        k1.add_spec(k2.mul_spec(two)).add_spec(k3.mul_spec(two)).add_spec(k4).mul_spec(h.div_spec(six)),
    )
}

/// Whether `k1` to `k4` are slopes that the equation can answer with at the four stages of a
/// step of length `h` from `x0` at `t0`: at the start, twice at the midpoint, and at the end.
pub open spec fn rk4_slopes<E, X, T>(equation: &E, x0: X, t0: T, h: T, k1: X, k2: X, k3: X, k4: X) -> bool where
    E: FirstOrderODE<X, T>,
    X: Dependent<T>,
    T: Independent,
 {
    let h2 = rk4_half(h);
    let mid = t0.add_spec(h2);
    &&& equation.yields(x0, t0, k1)
    &&& equation.yields(rk4_probe(x0, k1, h2), mid, k2)
    &&& equation.yields(rk4_probe(x0, k2, h2), mid, k3)
    &&& equation.yields(rk4_probe(x0, k3, h), t0.add_spec(h), k4)
}

/// Whether `x1` is a state that one Runge-Kutta step of length `h` can reach from `x0` at `t0`.
pub open spec fn rk4_reaches<E, X, T>(equation: &E, x0: X, t0: T, h: T, x1: X) -> bool where
    E: FirstOrderODE<X, T>,
    X: Dependent<T>,
    T: Independent,
 {
    exists|k1: X, k2: X, k3: X, k4: X| #[trigger]
        rk4_slopes(equation, x0, t0, h, k1, k2, k3, k4) && x1 == rk4_next(x0, h, k1, k2, k3, k4)
}

/// Where the equation answers with the rates of a function `f` alone, a Runge-Kutta step of
/// length `h` arrives at one state exactly: the blend of the four slopes that `f` gives at
/// the start, twice at the midpoint, and at the end of the step.
pub proof fn lemma_rk4_of_a_function<E, X, T>(equation: &E, f: spec_fn(X, T) -> X, x0: X, t0: T, h: T, x1: X) where
    E: FirstOrderODE<X, T>,
    X: Dependent<T>,
    T: Independent,

    requires
        forall|x: X, t: T, rate: X| #[trigger] equation.yields(x, t, rate) ==> rate == f(x, t),
        rk4_reaches(equation, x0, t0, h, x1),
    ensures
        ({
            let h2 = rk4_half(h);
            let mid = t0.add_spec(h2);
            let k1 = f(x0, t0);
            let k2 = f(rk4_probe(x0, k1, h2), mid);
            let k3 = f(rk4_probe(x0, k2, h2), mid);
            let k4 = f(rk4_probe(x0, k3, h), t0.add_spec(h));
            x1 == rk4_next(x0, h, k1, k2, k3, k4)
        }),
{
}

/// Whether the equation is defined at each of the four stages of a Runge-Kutta step of
/// length `h` from `x0` at `t0`, whatever slopes it answers with on the way.
pub open spec fn rk4_defined<E, X, T>(equation: &E, x0: X, t0: T, h: T) -> bool where
    E: FirstOrderODE<X, T>,
    X: Dependent<T>,
    T: Independent,
 {
    let h2 = rk4_half(h);
    let mid = t0.add_spec(h2);
    &&& equation.defined_at(x0, t0)
    &&& forall|k1: X| #[trigger]
        equation.yields(x0, t0, k1) ==> {
            &&& equation.defined_at(rk4_probe(x0, k1, h2), mid)
            &&& forall|k2: X| #[trigger]
                equation.yields(rk4_probe(x0, k1, h2), mid, k2) ==> {
                    &&& equation.defined_at(rk4_probe(x0, k2, h2), mid)
                    &&& forall|k3: X| #[trigger]
                        equation.yields(rk4_probe(x0, k2, h2), mid, k3) ==> equation.defined_at(
                            rk4_probe(x0, k3, h),
                            t0.add_spec(h),
                        )
                }
        }
}

/// The classic fourth-order Runge-Kutta method: one step of length `h`.
pub fn rk4<E, X, T>(x0: X, t0: T, h: T, equation: &E) -> (x1: X) where
    E: FirstOrderODE<X, T>,
    X: Dependent<T>,
    T: Independent,

    requires
        rk4_defined(equation, x0, t0, h),
    ensures
        rk4_reaches(equation, x0, t0, h, x1),
{
    let two = T::from_u16(2);
    let six = T::from_u16(6);
    let h2 = h.div(two);
    let h6 = h.div(six);

    let k1 = equation.derivative(x0, t0);
    let k2 = equation.derivative(x0.add(k1.mul(h2)), t0.add(h2));
    let k3 = equation.derivative(x0.add(k2.mul(h2)), t0.add(h2));
    let k4 = equation.derivative(x0.add(k3.mul(h)), t0.add(h));

    let x1 = x0.add(k1.add(k2.mul(two)).add(k3.mul(two)).add(k4).mul(h6));
    assert(rk4_slopes(equation, x0, t0, h, k1, k2, k3, k4));
    x1
}

/// Something that can numerically integrate one step of a first-order equation, given the
/// equation, the current state and time, and the length of the step. An integrator keeps no
/// state of its own between steps.
pub trait Integrator<E, X, T> where E: FirstOrderODE<X, T>, X: Dependent<T>, T: Independent {
    /// Where the integrator may be asked for a step.
    spec fn defined_for(&self, dep: X, indep: T, step: T, equation: &E) -> bool;

    /// Which states a step can reach.
    spec fn reaches(&self, dep: X, indep: T, step: T, equation: &E, next: X) -> bool;

    fn step(&self, dep: X, indep: T, step: T, equation: &E) -> (next: X)
        requires
            self.defined_for(dep, indep, step, equation),
        ensures
            self.reaches(dep, indep, step, equation, next),
    ;
}

/// Every callable with the shape of `euler` and `rk4` is an integrator, those two included.
impl<F, E, X, T> Integrator<E, X, T> for F where
    F: Fn(X, T, T, &E) -> X,
    E: FirstOrderODE<X, T>,
    X: Dependent<T>,
    T: Independent,
 {
    open spec fn defined_for(&self, dep: X, indep: T, step: T, equation: &E) -> bool {
        self.requires((dep, indep, step, equation))
    }

    open spec fn reaches(&self, dep: X, indep: T, step: T, equation: &E, next: X) -> bool {
        self.ensures((dep, indep, step, equation), next)
    }

    fn step(&self, dep: X, indep: T, step: T, equation: &E) -> (next: X) {
        self(dep, indep, step, equation)
    }
}

/// Euler's method as an integrator.
#[derive(Clone, Copy, Debug)]
pub struct Euler;

/// The fourth-order Runge-Kutta method as an integrator.
#[derive(Clone, Copy, Debug)]
pub struct RK4;

impl<E, X, T> Integrator<E, X, T> for Euler where E: FirstOrderODE<X, T>, X: Dependent<T>, T: Independent {
    open spec fn defined_for(&self, dep: X, indep: T, step: T, equation: &E) -> bool {
        equation.defined_at(dep, indep)
    }

    open spec fn reaches(&self, dep: X, indep: T, step: T, equation: &E, next: X) -> bool {
        euler_reaches(equation, dep, indep, step, next)
    }

    fn step(&self, dep: X, indep: T, step: T, equation: &E) -> (next: X) {
        euler(dep, indep, step, equation)
    }
}

impl<E, X, T> Integrator<E, X, T> for RK4 where E: FirstOrderODE<X, T>, X: Dependent<T>, T: Independent {
    open spec fn defined_for(&self, dep: X, indep: T, step: T, equation: &E) -> bool {
        rk4_defined(equation, dep, indep, step)
    }

    open spec fn reaches(&self, dep: X, indep: T, step: T, equation: &E, next: X) -> bool {
        rk4_reaches(equation, dep, indep, step, next)
    }

    fn step(&self, dep: X, indep: T, step: T, equation: &E) -> (next: X) {
        rk4(dep, indep, step, equation)
    }
}

} // verus!
