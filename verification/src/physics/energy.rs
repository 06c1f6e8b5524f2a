//! What Euler's method does to the energy of a body on a spring.

use vstd::prelude::*;
use crate::physics::arithmetic::{
    is_exact, lemma_add, lemma_add_associates, lemma_add_cancels, lemma_add_interchange,
    lemma_add_keeps_lt_both_ways, lemma_mul, lemma_mul_distributes_left, lemma_mul_interchange,
    lemma_mul_keeps_lt_both_ways, lemma_square_of_opposite, lemma_square_of_sum, lemma_whole,
};
use crate::physics::body::{constraint_forces, BodyView};
use crate::physics::constraint::{BodyHandle, Constraint, ConstraintCalc, Spring};
use crate::physics::integrator::Independent;
use crate::physics::vector::Vec3;

verus! {

/// Twice the energy, along one axis, of a body on a spring whose other end rests at the
/// origin: `k x^2 + p^2 / m`, for the position `x`, the momentum `p`, the spring constant
/// `k`, and `w` for the inverse `1 / m` of the mass.
pub open spec fn spring_energy<T: Independent>(x: T, p: T, k: T, w: T) -> T {
    x.mul_spec(x).mul_spec(k).add_spec(p.mul_spec(p).mul_spec(w))
}

/// The part of its energy that a body on a spring gains in one Euler step: `k dt^2 / m`.
pub open spec fn energy_gain<T: Independent>(k: T, w: T, dt: T) -> T {
    k.mul_spec(w).mul_spec(dt.mul_spec(dt))
}

/// The position after one Euler step on a spring to the origin.
pub open spec fn position_after<T: Independent>(x: T, p: T, w: T, dt: T) -> T {
    x.add_spec(p.mul_spec(w).mul_spec(dt))
}

/// The momentum after one Euler step on a spring to the origin.
pub open spec fn momentum_after<T: Independent>(x: T, p: T, k: T, dt: T) -> T {
    p.add_spec(T::from_u16_spec(0).sub_spec(x).mul_spec(k).mul_spec(dt))
}

/// The cross terms of the two squares cancel: what the step adds to the position pulls the
/// energy one way, and what it adds to the momentum pulls it back by as much.
proof fn lemma_cross_terms_cancel<T: Independent>(x: T, p: T, k: T, w: T, dt: T)
    requires
        is_exact::<T>(),
    ensures
        ({
            let a = p.mul_spec(w).mul_spec(dt);
            let b = T::from_u16_spec(0).sub_spec(x).mul_spec(k).mul_spec(dt);
            x.mul_spec(a).mul_spec(k).add_spec(p.mul_spec(b).mul_spec(w)) == T::from_u16_spec(0)
        }),
{
    let zero = T::from_u16_spec(0);
    let n = zero.sub_spec(x);
    let q = p.mul_spec(w);
    let a = q.mul_spec(dt);
    let b = n.mul_spec(k).mul_spec(dt);
    let m = a.mul_spec(k);
    // x a k is m x.
    lemma_mul(x, a, k);
    lemma_mul(x, m, m);
    assert(x.mul_spec(a).mul_spec(k) == m.mul_spec(x));
    // p b w is m n.
    lemma_mul(b, p, w);
    lemma_mul(n, k, dt);
    lemma_mul(n, k.mul_spec(dt), q);
    lemma_mul(k.mul_spec(dt), q, q);
    lemma_mul(k, dt, dt);
    lemma_mul(q, dt, k);
    lemma_mul(n, m, m);
    assert(p.mul_spec(b).mul_spec(w) == m.mul_spec(n));
    // m x + m n is m (x + n), and x + n is zero.
    lemma_mul_distributes_left(x, n, m);
    lemma_add(zero, x);
    lemma_add(x, n);
    lemma_mul(m, zero, zero);
}

/// The square terms: what the step adds to the position and to the momentum carries the
/// energy of the other one, times the gain.
proof fn lemma_square_terms<T: Independent>(x: T, p: T, k: T, w: T, dt: T)
    requires
        is_exact::<T>(),
    ensures
        ({
            let a = p.mul_spec(w).mul_spec(dt);
            let b = T::from_u16_spec(0).sub_spec(x).mul_spec(k).mul_spec(dt);
            let gain = energy_gain(k, w, dt);
            &&& a.mul_spec(a).mul_spec(k) == p.mul_spec(p).mul_spec(w).mul_spec(gain)
            &&& b.mul_spec(b).mul_spec(w) == x.mul_spec(x).mul_spec(k).mul_spec(gain)
        }),
{
    let zero = T::from_u16_spec(0);
    let n = zero.sub_spec(x);
    let dd = dt.mul_spec(dt);
    let pp = p.mul_spec(p);
    let ww = w.mul_spec(w);
    let xx = x.mul_spec(x);
    let kk = k.mul_spec(k);
    // (p w dt)^2 k is (p^2 w) (k w dt^2).
    lemma_mul_interchange(p.mul_spec(w), dt, p.mul_spec(w), dt);
    lemma_mul_interchange(p, w, p, w);
    lemma_mul(pp.mul_spec(ww), dd, k);
    lemma_mul(pp, w, w);
    lemma_mul(pp.mul_spec(w), w, dd.mul_spec(k));
    lemma_mul(dd, k, k);
    lemma_mul(w, k, dd);
    // (n k dt)^2 w is (x^2 k) (k w dt^2), as n^2 is x^2.
    lemma_add(zero, x);
    lemma_square_of_opposite(x, n);
    lemma_mul_interchange(n.mul_spec(k), dt, n.mul_spec(k), dt);
    lemma_mul_interchange(n, k, n, k);
    lemma_mul(xx.mul_spec(kk), dd, w);
    lemma_mul(xx, k, k);
    lemma_mul(xx.mul_spec(k), k, dd.mul_spec(w));
    lemma_mul(dd, w, w);
    lemma_mul(k, w, dd);
}

/// In exact arithmetic one Euler step on a spring to the origin makes the energy grow by
/// the part `k dt^2 / m` of itself, whatever the position and the momentum were, and
/// however soft the spring or short the step. Euler's method does not let such a body come
/// to rest.
pub proof fn lemma_euler_step_on_spring<T: Independent>(x: T, p: T, k: T, w: T, dt: T)
    requires
        is_exact::<T>(),
    ensures
        spring_energy(position_after(x, p, w, dt), momentum_after(x, p, k, dt), k, w) == spring_energy(
            x,
            p,
            k,
            w,
        ).add_spec(spring_energy(x, p, k, w).mul_spec(energy_gain(k, w, dt))),
{
    let zero = T::from_u16_spec(0);
    let a = p.mul_spec(w).mul_spec(dt);
    let b = zero.sub_spec(x).mul_spec(k).mul_spec(dt);
    let gain = energy_gain(k, w, dt);
    // The terms of the two squares, each times its factor.
    let xk = x.mul_spec(x).mul_spec(k);
    let ak = x.mul_spec(a).mul_spec(k);
    let aak = a.mul_spec(a).mul_spec(k);
    let pw = p.mul_spec(p).mul_spec(w);
    let bw = p.mul_spec(b).mul_spec(w);
    let bbw = b.mul_spec(b).mul_spec(w);
    lemma_square_of_sum(x, a);
    lemma_mul(x.mul_spec(x).add_spec(x.mul_spec(a)), x.mul_spec(a).add_spec(a.mul_spec(a)), k);
    lemma_mul(x.mul_spec(x), x.mul_spec(a), k);
    lemma_mul(x.mul_spec(a), a.mul_spec(a), k);
    lemma_square_of_sum(p, b);
    lemma_mul(p.mul_spec(p).add_spec(p.mul_spec(b)), p.mul_spec(b).add_spec(b.mul_spec(b)), w);
    lemma_mul(p.mul_spec(p), p.mul_spec(b), w);
    lemma_mul(p.mul_spec(b), b.mul_spec(b), w);
    assert(spring_energy(position_after(x, p, w, dt), momentum_after(x, p, k, dt), k, w) == xk.add_spec(ak).add_spec(
        ak.add_spec(aak),
    ).add_spec(pw.add_spec(bw).add_spec(bw.add_spec(bbw))));
    // Sorted: the energy before, the cross terms twice, and the square terms.
    lemma_add_interchange(xk.add_spec(ak), ak.add_spec(aak), pw.add_spec(bw), bw.add_spec(bbw));
    lemma_add_interchange(xk, ak, pw, bw);
    lemma_add_interchange(ak, aak, bw, bbw);
    lemma_cross_terms_cancel(x, p, k, w, dt);
    lemma_square_terms(x, p, k, w, dt);
    lemma_add(xk.add_spec(pw), zero);
    lemma_add(aak.add_spec(bbw), zero);
    lemma_add(aak, bbw);
    lemma_mul(xk, pw, gain);
}

/// The energy that a body has, along the three axes, on a spring of constant `k` to the
/// origin.
pub open spec fn body_energy<T: Independent, C>(body: BodyView<T, C>, k: T) -> Vec3<T> {
    let phase = body.future.phase;
    Vec3 {
        x: spring_energy(phase.position.x, phase.momentum.x, k, body.inv_mass()),
        y: spring_energy(phase.position.y, phase.momentum.y, k, body.inv_mass()),
        z: spring_energy(phase.position.z, phase.momentum.z, k, body.inv_mass()),
    }
}

/// The position, along one axis, of a body on a spring to the origin after two Euler steps
/// from rest at `x`: the first step gives the body its momentum, and the second moves it.
pub open spec fn two_steps_from_rest<T: Independent>(x: T, k: T, w: T, dt: T) -> T {
    let zero = T::from_u16_spec(0);
    position_after(position_after(x, zero, w, dt), momentum_after(x, zero, k, dt), w, dt)
}

/// In exact arithmetic two Euler steps from rest at `x`, on a spring to the origin, end at
/// `x - x g`, where `g` is `k dt^2 / m`.
pub proof fn lemma_two_steps_from_rest<T: Independent>(x: T, k: T, w: T, dt: T)
    requires
        is_exact::<T>(),
    ensures
        two_steps_from_rest(x, k, w, dt) == x.sub_spec(x.mul_spec(energy_gain(k, w, dt))),
        position_after(x, T::from_u16_spec(0), w, dt) == x,
{
    let zero = T::from_u16_spec(0);
    let n = zero.sub_spec(x);
    let dd = dt.mul_spec(dt);
    let g = energy_gain(k, w, dt);
    let p = momentum_after(x, zero, k, dt);
    // At rest the first step leaves the body where it is.
    lemma_mul(w, zero, dt);
    lemma_mul(dt, zero, dt);
    lemma_add(x, x);
    assert(position_after(x, zero, w, dt) == x);
    // The momentum after it is that of the pull, n k dt.
    lemma_add(n.mul_spec(k).mul_spec(dt), zero);
    assert(p == n.mul_spec(k).mul_spec(dt));
    // What the second step adds to the position is n g.
    lemma_mul(n.mul_spec(k), dt, w);
    lemma_mul(n, k, dt.mul_spec(w));
    lemma_mul(n, k.mul_spec(dt.mul_spec(w)), dt);
    lemma_mul(k, dt.mul_spec(w), dt);
    lemma_mul(dt, w, dt);
    lemma_mul(w, dt, dt);
    lemma_mul(k, w, dd);
    assert(p.mul_spec(w).mul_spec(dt) == n.mul_spec(g));
    // And n g makes nothing with x g, as n does with x.
    lemma_mul(n, x, g);
    lemma_add(zero, x);
    lemma_mul(g, zero, g);
    lemma_add_associates(x, n.mul_spec(g), x.mul_spec(g));
    lemma_add(x, x.mul_spec(g));
    lemma_add_cancels(x.add_spec(n.mul_spec(g)), x.sub_spec(x.mul_spec(g)), x.mul_spec(g));
}

/// In exact arithmetic, for a body that starts at rest on the positive side of the origin:
/// two Euler steps leave it on the near side of its mirror image exactly where `k dt^2 / m`
/// is below two, and beyond the mirror image exactly where it is above two; and they leave
/// it below where it started exactly where `k dt^2 / m` is positive. So two is where the
/// body first comes to lie farther from the origin than it was.
pub proof fn lemma_two_steps_overshoot<T: Independent>(x: T, k: T, w: T, dt: T)
    requires
        is_exact::<T>(),
        T::from_u16_spec(0).lt_spec(x),
    ensures
        ({
            let zero = T::from_u16_spec(0);
            let two = T::from_u16_spec(2);
            let g = energy_gain(k, w, dt);
            let mirror = zero.sub_spec(x);
            let after = two_steps_from_rest(x, k, w, dt);
            &&& mirror.lt_spec(after) == g.lt_spec(two)
            &&& after.lt_spec(mirror) == two.lt_spec(g)
            &&& after.lt_spec(x) == zero.lt_spec(g)
        }),
{
    let zero = T::from_u16_spec(0);
    let one = T::from_u16_spec(1);
    let two = T::from_u16_spec(2);
    let g = energy_gain(k, w, dt);
    let xg = x.mul_spec(g);
    let mirror = zero.sub_spec(x);
    let after = two_steps_from_rest(x, k, w, dt);
    lemma_two_steps_from_rest(x, k, w, dt);
    // after + x g is x, and mirror + x is nothing.
    lemma_add(x, xg);
    lemma_add(zero, x);
    // x + x is 2 x.
    lemma_whole::<T>(1, 1);
    lemma_mul(one, one, x);
    lemma_mul(x, one, x);
    lemma_mul(x, two, x);
    assert(x.add_spec(x) == x.mul_spec(two));
    // g x and 2 x compare as g and 2 do.
    lemma_mul(g, x, x);
    lemma_mul_keeps_lt_both_ways(g, two, x);
    lemma_mul_keeps_lt_both_ways(two, g, x);
    // Against the mirror image: add x g, and then x, on both sides.
    lemma_add_keeps_lt_both_ways(mirror, after, xg);
    lemma_add_keeps_lt_both_ways(after, mirror, xg);
    lemma_add_keeps_lt_both_ways(mirror.add_spec(xg), x, x);
    lemma_add_keeps_lt_both_ways(x, mirror.add_spec(xg), x);
    lemma_add_associates(mirror, xg, x);
    lemma_add(xg, x);
    lemma_add_associates(mirror, x, xg);
    lemma_add(xg, zero);
    assert(mirror.add_spec(xg).add_spec(x) == xg);
    // Against the start: add x g on both sides; x g is positive where g is.
    lemma_add_keeps_lt_both_ways(after, x, xg);
    lemma_add_keeps_lt_both_ways(zero, xg, x);
    lemma_mul(x, zero, x);
    lemma_mul_keeps_lt_both_ways(zero, g, x);
}

/// Whether a body hangs by one spring of constant `k` on a partner that `positions` holds
/// at the origin, under no pending force.
pub open spec fn hangs_on_spring<T: Independent>(
    body: BodyView<T, Spring<T>>,
    positions: Seq<Vec3<T>>,
    anchor: BodyHandle,
    k: T,
) -> bool {
    &&& anchor.index < positions.len()
    &&& positions[anchor.index as int] == Vec3::<T>::zero_spec()
    &&& body.constraints == seq![Constraint { other: anchor, calc: Spring(k) }]
    &&& body.future.force == Vec3::<T>::zero_spec()
}

/// In exact arithmetic the step of a body that hangs on a spring is, along each axis, the
/// Euler step on a spring to the origin; and the body hangs on its spring after the step as
/// it did before.
pub proof fn lemma_step_on_spring<T: Independent>(
    body: BodyView<T, Spring<T>>,
    positions: Seq<Vec3<T>>,
    anchor: BodyHandle,
    k: T,
    dt: T,
)
    requires
        is_exact::<T>(),
        hangs_on_spring(body, positions, anchor, k),
    ensures
        ({
            let before = body.future.phase;
            let after = body.stepped_among(dt, positions);
            let w = body.inv_mass();
            &&& hangs_on_spring(after, positions, anchor, k)
            &&& after.inv_mass() == w
            &&& after.current == body.future
            &&& after.future.phase.position == (Vec3 {
                x: position_after(before.position.x, before.momentum.x, w, dt),
                y: position_after(before.position.y, before.momentum.y, w, dt),
                z: position_after(before.position.z, before.momentum.z, w, dt),
            })
            &&& after.future.phase.momentum == (Vec3 {
                x: momentum_after(before.position.x, before.momentum.x, k, dt),
                y: momentum_after(before.position.y, before.momentum.y, k, dt),
                z: momentum_after(before.position.z, before.momentum.z, k, dt),
            })
        }),
{
    let phase = body.future.phase;
    let zero = T::from_u16_spec(0);
    // The total force on the body is that of its one spring.
    assert(body.total_force(positions, 1) == body.total_force(positions, 0).add_spec(
        Spring(k).force_spec(phase.position, Vec3::<T>::zero_spec()),
    )) by {
        reveal_with_fuel(constraint_forces, 2);
    }
    assert(body.total_force(positions, 0) == Vec3::<T>::zero_spec());
    lemma_add(zero.sub_spec(phase.position.x).mul_spec(k), zero);
    lemma_add(zero.sub_spec(phase.position.y).mul_spec(k), zero);
    lemma_add(zero.sub_spec(phase.position.z).mul_spec(k), zero);
}

/// In exact arithmetic, a body that hangs on a spring and is at rest: after two steps it is,
/// along each axis, where two Euler steps from rest on a spring to the origin end, and its
/// current state, which is drawn at the fraction zero, is where it started.
pub proof fn lemma_spring_two_steps_from_rest<T: Independent>(
    body: BodyView<T, Spring<T>>,
    positions: Seq<Vec3<T>>,
    anchor: BodyHandle,
    k: T,
    dt: T,
)
    requires
        is_exact::<T>(),
        hangs_on_spring(body, positions, anchor, k),
        body.future.phase.momentum == Vec3::<T>::zero_spec(),
    ensures
        ({
            let start = body.future.phase.position;
            let after = body.stepped_among(dt, positions).stepped_among(dt, positions);
            let w = body.inv_mass();
            &&& after.current.phase.position == start
            &&& after.future.phase.position == (Vec3 {
                x: two_steps_from_rest(start.x, k, w, dt),
                y: two_steps_from_rest(start.y, k, w, dt),
                z: two_steps_from_rest(start.z, k, w, dt),
            })
        }),
{
    let start = body.future.phase.position;
    let w = body.inv_mass();
    lemma_step_on_spring(body, positions, anchor, k, dt);
    lemma_step_on_spring(body.stepped_among(dt, positions), positions, anchor, k, dt);
    lemma_two_steps_from_rest(start.x, k, w, dt);
    lemma_two_steps_from_rest(start.y, k, w, dt);
    lemma_two_steps_from_rest(start.z, k, w, dt);
}

/// In exact arithmetic, a body that hangs by one spring on a partner at the origin, under no
/// other force: every step makes its energy grow, along each axis, by the part `k dt^2 / m`
/// of itself. This holds for every spring constant and every length of the step, so that the
/// motion never decays, and the stiffer the spring the faster it grows.
pub proof fn lemma_spring_gains_energy<T: Independent>(
    body: BodyView<T, Spring<T>>,
    positions: Seq<Vec3<T>>,
    anchor: BodyHandle,
    k: T,
    dt: T,
)
    requires
        is_exact::<T>(),
        hangs_on_spring(body, positions, anchor, k),
    ensures
        ({
            let before = body_energy(body, k);
            let after = body_energy(body.stepped_among(dt, positions), k);
            let gain = energy_gain(k, body.inv_mass(), dt);
            after == before.add_spec(before.mul_spec(gain))
        }),
{
    let phase = body.future.phase;
    let w = body.inv_mass();
    lemma_step_on_spring(body, positions, anchor, k, dt);
    lemma_euler_step_on_spring(phase.position.x, phase.momentum.x, k, w, dt);
    lemma_euler_step_on_spring(phase.position.y, phase.momentum.y, k, w, dt);
    lemma_euler_step_on_spring(phase.position.z, phase.momentum.z, k, w, dt);
}

impl<T: Independent, C: ConstraintCalc<T>> BodyView<T, C> {
    /// The body `n` steps of length `dt` later, among bodies that stay at the given
    /// positions.
    pub open spec fn stepped_times_among(self, dt: T, positions: Seq<Vec3<T>>, n: nat) -> Self
        decreases n,
    {
        if n == 0 {
            self
        } else {
            self.stepped_times_among(dt, positions, (n - 1) as nat).stepped_among(dt, positions)
        }
    }
}

/// An energy after it has grown `n` times by the part `gain` of itself, along each axis.
pub open spec fn grown<T: Independent>(energy: Vec3<T>, gain: T, n: nat) -> Vec3<T>
    decreases n,
{
    if n == 0 {
        energy
    } else {
        let before = grown(energy, gain, (n - 1) as nat);
        before.add_spec(before.mul_spec(gain))
    }
}

/// In exact arithmetic, a body that hangs on a spring: after `n` steps its energy has grown
/// `n` times by the part `k dt^2 / m` of itself, and by no more. So the body swings ever
/// wider, and after `n` steps no wider than `(1 + k dt^2 / m)^n` allows its energy to be.
pub proof fn lemma_spring_energy_after<T: Independent>(
    body: BodyView<T, Spring<T>>,
    positions: Seq<Vec3<T>>,
    anchor: BodyHandle,
    k: T,
    dt: T,
    n: nat,
)
    requires
        is_exact::<T>(),
        hangs_on_spring(body, positions, anchor, k),
    ensures
        hangs_on_spring(body.stepped_times_among(dt, positions, n), positions, anchor, k),
        body.stepped_times_among(dt, positions, n).inv_mass() == body.inv_mass(),
        body_energy(body.stepped_times_among(dt, positions, n), k) == grown(
            body_energy(body, k),
            energy_gain(k, body.inv_mass(), dt),
            n,
        ),
    decreases n,
{
    if n > 0 {
        let before = body.stepped_times_among(dt, positions, (n - 1) as nat);
        lemma_spring_energy_after(body, positions, anchor, k, dt, (n - 1) as nat);
        lemma_step_on_spring(before, positions, anchor, k, dt);
        lemma_spring_gains_energy(before, positions, anchor, k, dt);
    }
}

} // verus!
