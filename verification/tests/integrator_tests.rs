use graphplay::physics::integrator::{euler, rk4, Dependent, Euler, FirstOrderODE, Independent, Integrator, RK4};

/// A double-precision scalar, which serves as time and as a one-dimensional state.
#[derive(Clone, Copy, Debug, PartialEq)]
struct Real(f64);

impl Independent for Real {
    fn from_u16_spec(n: u16) -> Real {
        Real(n as f64)
    }

    fn add_spec(self, rhs: Real) -> Real {
        Real(self.0 + rhs.0)
    }

    fn sub_spec(self, rhs: Real) -> Real {
        Real(self.0 - rhs.0)
    }

    fn mul_spec(self, rhs: Real) -> Real {
        Real(self.0 * rhs.0)
    }

    fn div_spec(self, rhs: Real) -> Real {
        Real(self.0 / rhs.0)
    }

    fn lt_spec(self, rhs: Real) -> bool {
        self.0 < rhs.0
    }

    fn to_usize_spec(self) -> usize {
        self.0 as usize
    }

    fn from_u16(n: u16) -> Real {
        Real(n as f64)
    }

    fn add(self, rhs: Real) -> Real {
        Real(self.0 + rhs.0)
    }

    fn sub(self, rhs: Real) -> Real {
        Real(self.0 - rhs.0)
    }

    fn mul(self, rhs: Real) -> Real {
        Real(self.0 * rhs.0)
    }

    fn div(self, rhs: Real) -> Real {
        Real(self.0 / rhs.0)
    }

    fn lt(self, rhs: Real) -> bool {
        self.0 < rhs.0
    }

    fn to_usize(self) -> usize {
        self.0 as usize
    }
}

impl Dependent<Real> for Real {
    fn add_spec(self, rhs: Real) -> Real {
        Real(self.0 + rhs.0)
    }

    fn mul_spec(self, k: Real) -> Real {
        Real(self.0 * k.0)
    }

    fn add(self, rhs: Real) -> Real {
        Real(self.0 + rhs.0)
    }

    fn mul(self, k: Real) -> Real {
        Real(self.0 * k.0)
    }
}

#[test]
fn euler_zero_derivative_returns_input() {
    let still = |_x: Real, _t: Real| Real(0.0);
    for dt in [1.0e-9, 1.0 / 300.0, 0.5, 1.0, 7.25, 1.0e12] {
        for x0 in [0.0, 1.0, -3.5, 1.0e-20, 6.02e23] {
            assert_eq!(euler(Real(x0), Real(2.0), Real(dt), &still), Real(x0));
            assert_eq!(Euler.step(Real(x0), Real(2.0), Real(dt), &still), Real(x0));
        }
    }
}

#[test]
fn euler_constant_derivative_is_exact() {
    let steady = |_x: Real, _t: Real| Real(4.0);
    assert_eq!(euler(Real(1.0), Real(0.0), Real(0.5), &steady), Real(3.0));
    assert_eq!(euler(Real(-2.0), Real(9.0), Real(0.25), &steady), Real(-1.0));
    let c = 0.3;
    let dt = 1.0 / 300.0;
    let falling = move |_x: Real, _t: Real| Real(-c);
    assert_eq!(euler(Real(10.0), Real(0.0), Real(dt), &falling), Real(10.0 + -c * dt));
}

#[test]
fn euler_follows_the_derivative_at_the_start() {
    // dx/dt = x * t at x = 2, t = 3 is 6; half a time unit on, Euler arrives at 5.
    let equation = |x: Real, t: Real| Real(x.0 * t.0);
    assert_eq!(euler(Real(2.0), Real(3.0), Real(0.5), &equation), Real(5.0));
}

#[test]
fn euler_step_is_the_euler_function() {
    let equation = |x: Real, t: Real| Real(t.0 - x.0);
    let by_function = euler(Real(1.5), Real(0.25), Real(0.125), &equation);
    let by_integrator = Euler.step(Real(1.5), Real(0.25), Real(0.125), &equation);
    assert_eq!(by_function, by_integrator);
}

#[test]
fn rk4_constant_derivative() {
    // (c + 2c + 2c + c) * h / 6 with c = 3 and h = 2: 18 * (2 / 6).
    let steady = |_x: Real, _t: Real| Real(3.0);
    assert_eq!(rk4(Real(1.0), Real(0.0), Real(2.0), &steady), Real(1.0 + 18.0 * (2.0 / 6.0)));
    assert_eq!(RK4.step(Real(1.0), Real(0.0), Real(2.0), &steady), Real(1.0 + 18.0 * (2.0 / 6.0)));
}

#[test]
fn rk4_uses_the_midpoint_in_time() {
    // dx/dt = t: the slopes at t = 0, 1, 1, 2 are 0, 1, 1, 2, so x grows by
    // (0 + 2 + 2 + 2) * 2 / 6 = 2, which is the integral of t from 0 to 2.
    let ramp = |_x: Real, t: Real| t;
    assert_eq!(rk4(Real(0.0), Real(0.0), Real(2.0), &ramp), Real(2.0));
}

#[test]
fn rk4_exponential_decay_matches_taylor_polynomial() {
    // For dx/dt = -k x the method gives x0 * (1 - z + z^2/2 - z^3/6 + z^4/24), z = k h.
    let k = 2.0;
    let h = 0.25;
    let decay = move |x: Real, _t: Real| Real(-k * x.0);
    let x1 = rk4(Real(8.0), Real(0.0), Real(h), &decay);
    let z: f64 = k * h;
    let expected = 8.0 * (1.0 - z + z * z / 2.0 - z * z * z / 6.0 + z * z * z * z / 24.0);
    assert!((x1.0 - expected).abs() < 1.0e-12);
}

#[test]
fn rk4_is_closer_to_exponential_decay_than_euler() {
    let k = 3.0;
    let x0 = 5.0;
    let decay = move |x: Real, _t: Real| Real(-k * x.0);
    let mut previous_rk4_error = f64::INFINITY;
    for dt in [0.2, 0.1, 0.05, 0.025] {
        let exact = x0 * (-k * dt as f64).exp();
        let by_euler = euler(Real(x0), Real(0.0), Real(dt), &decay);
        let by_rk4 = rk4(Real(x0), Real(0.0), Real(dt), &decay);
        let euler_error = (by_euler.0 - exact).abs();
        let rk4_error = (by_rk4.0 - exact).abs();
        assert!(rk4_error < euler_error);
        // The local error of the method is x0 * z^5 / 120 to leading order.
        let z = k * dt;
        assert!(rk4_error < x0 * z.powi(5) / 100.0);
        // Halving the step divides the error by about 32.
        assert!(rk4_error < previous_rk4_error / 16.0);
        previous_rk4_error = rk4_error;
    }
}

#[test]
fn rk4_step_is_the_rk4_function() {
    let equation = |x: Real, t: Real| Real(t.0 * t.0 - x.0);
    let by_function = rk4(Real(1.5), Real(0.25), Real(0.125), &equation);
    let by_integrator = RK4.step(Real(1.5), Real(0.25), Real(0.125), &equation);
    assert_eq!(by_function, by_integrator);
}

#[test]
fn in_place_operations_agree_with_the_operators() {
    let mut t = Real(1.5);
    Independent::add_assign(&mut t, Real(2.0));
    assert_eq!(t, Real(3.5));
    let mut x = Real(1.5);
    Dependent::add_assign(&mut x, Real(0.25));
    assert_eq!(x, Real(1.75));
    Dependent::mul_assign(&mut x, Real(4.0));
    assert_eq!(x, Real(7.0));
}

/// Two steps of the same length with any integrator.
fn two_steps<I, E>(integrator: &I, equation: &E, x0: Real, dt: Real) -> Real
where
    I: Integrator<E, Real, Real>,
    E: FirstOrderODE<Real, Real>,
{
    let x1 = integrator.step(x0, Real(0.0), dt, equation);
    integrator.step(x1, dt, dt, equation)
}

#[test]
fn integrators_are_interchangeable() {
    let growth = |x: Real, _t: Real| x;
    // Euler doubles twice: 1 -> 2 -> 4. Runge-Kutta multiplies by 1 + 1 + 1/2 + 1/6 + 1/24.
    assert_eq!(two_steps(&Euler, &growth, Real(1.0), Real(1.0)), Real(4.0));
    let factor: f64 = 1.0 + 1.0 + 0.5 + 1.0 / 6.0 + 1.0 / 24.0;
    let by_rk4 = two_steps(&RK4, &growth, Real(1.0), Real(1.0));
    assert!((by_rk4.0 - factor * factor).abs() < 1.0e-12);
}

#[test]
fn functions_and_closures_are_integrators() {
    let growth = |x: Real, _t: Real| x;
    assert_eq!(two_steps(&euler, &growth, Real(1.0), Real(1.0)), Real(4.0));
    assert_eq!(two_steps(&rk4, &growth, Real(1.0), Real(1.0)), two_steps(&RK4, &growth, Real(1.0), Real(1.0)));
    // The midpoint method, written on the spot.
    let midpoint = |x0: Real, t0: Real, h: Real, equation: &_| {
        let k1 = FirstOrderODE::derivative(equation, x0, t0);
        let k2 = FirstOrderODE::derivative(equation, Real(x0.0 + k1.0 * h.0 / 2.0), Real(t0.0 + h.0 / 2.0));
        Real(x0.0 + k2.0 * h.0)
    };
    // x -> x * (1 + h + h^2 / 2) = 2.5 x for h = 1
    assert_eq!(two_steps(&midpoint, &growth, Real(1.0), Real(1.0)), Real(6.25));
}

/// Exponential decay at a given rate, as an equation that is no closure.
struct Decay {
    rate: f64,
}

impl FirstOrderODE<Real, Real> for Decay {
    fn defined_at(&self, _dep: Real, _indep: Real) -> bool {
        true
    }

    fn yields(&self, dep: Real, _indep: Real, rate: Real) -> bool {
        rate.0 == -self.rate * dep.0
    }

    fn derivative(&self, dep: Real, _indep: Real) -> Real {
        Real(-self.rate * dep.0)
    }
}

#[test]
fn structs_are_equations() {
    let decay = Decay { rate: 0.5 };
    assert_eq!(euler(Real(8.0), Real(0.0), Real(1.0), &decay), Real(4.0));
    assert_eq!(Euler.step(Real(8.0), Real(0.0), Real(0.5), &decay), Real(6.0));
}
