//! What the integrators do to a linear equation, `X' = c X`: growth for a positive `c` and
//! decay for a negative one.

use vstd::prelude::*;
use crate::physics::arithmetic::{
    is_exact, lemma_add, lemma_add_associates, lemma_like_terms, lemma_mul, lemma_mul_distributes_left,
    lemma_mul_interchange, lemma_order, lemma_quotient, lemma_sum4_add, lemma_whole, sum4,
};
use crate::physics::body::Phase;
use crate::physics::integrator::{
    euler_reaches, lemma_rk4_of_a_function, rk4_half, rk4_reaches, Dependent, FirstOrderODE, Independent,
};

verus! {

/// What one Euler step of length `h` multiplies the state of `X' = c X` by: `1 + c h`.
pub open spec fn euler_factor<T: Independent>(c: T, h: T) -> T {
    T::from_u16_spec(1).add_spec(c.mul_spec(h))
}

/// The slope of a Runge-Kutta stage of `X' = c X`, as a multiple of the state at the start
/// of the step, where the slope of the stage before was `q` and was followed for the time
/// `h`: `(1 + q h) c`.
pub open spec fn next_slope<T: Independent>(q: T, h: T, c: T) -> T {
    T::from_u16_spec(1).add_spec(q.mul_spec(h)).mul_spec(c)
}

/// What one Runge-Kutta step of length `h` multiplies the state of `X' = c X` by: one plus
/// the blend of the four slopes, each a multiple of the state at the start.
pub open spec fn rk4_factor<T: Independent>(c: T, h: T) -> T {
    let two = T::from_u16_spec(2);
    let h2 = rk4_half(h);
    let q1 = c;
    let q2 = next_slope(q1, h2, c);
    let q3 = next_slope(q2, h2, c);
    let q4 = next_slope(q3, h, c);
    T::from_u16_spec(1).add_spec(
        q1.add_spec(q2.mul_spec(two)).add_spec(q3.mul_spec(two)).add_spec(q4).mul_spec(
            h.div_spec(T::from_u16_spec(6)),
        ),
    )
}

/// What a Runge-Kutta step of length `h` makes of the scalar `x` under `X' = c X`.
pub open spec fn rk4_linear<T: Independent>(x: T, c: T, h: T) -> T {
    let two = T::from_u16_spec(2);
    let h2 = rk4_half(h);
    let k1 = x.mul_spec(c);
    let k2 = x.add_spec(k1.mul_spec(h2)).mul_spec(c);
    let k3 = x.add_spec(k2.mul_spec(h2)).mul_spec(c);
    let k4 = x.add_spec(k3.mul_spec(h)).mul_spec(c);
    x.add_spec(k1.add_spec(k2.mul_spec(two)).add_spec(k3.mul_spec(two)).add_spec(k4).mul_spec(h.div_spec(T::from_u16_spec(6))))
}

/// In exact arithmetic `x + (x q) h` is `x (1 + q h)`.
proof fn lemma_affine<T: Independent>(x: T, q: T, h: T)
    requires
        is_exact::<T>(),
    ensures
        x.add_spec(x.mul_spec(q).mul_spec(h)) == x.mul_spec(T::from_u16_spec(1).add_spec(q.mul_spec(h))),
{
    let one = T::from_u16_spec(1);
    lemma_mul(x, q, h);
    lemma_mul(x, one, h);
    lemma_mul_distributes_left(one, q.mul_spec(h), x);
}

/// In exact arithmetic the slope of a stage is the state at the start times `next_slope`.
proof fn lemma_next_slope<T: Independent>(x: T, q: T, h: T, c: T)
    requires
        is_exact::<T>(),
    ensures
        x.add_spec(x.mul_spec(q).mul_spec(h)).mul_spec(c) == x.mul_spec(next_slope(q, h, c)),
{
    lemma_affine(x, q, h);
    lemma_mul(x, T::from_u16_spec(1).add_spec(q.mul_spec(h)), c);
}

/// In exact arithmetic a Runge-Kutta step under `X' = c X` multiplies a scalar by
/// `rk4_factor(c, h)`, whatever the scalar is.
pub proof fn lemma_rk4_linear<T: Independent>(x: T, c: T, h: T)
    requires
        is_exact::<T>(),
    ensures
        rk4_linear(x, c, h) == x.mul_spec(rk4_factor(c, h)),
{
    let two = T::from_u16_spec(2);
    let h2 = rk4_half(h);
    let h6 = h.div_spec(T::from_u16_spec(6));
    let q1 = c;
    let q2 = next_slope(q1, h2, c);
    let q3 = next_slope(q2, h2, c);
    let q4 = next_slope(q3, h, c);
    lemma_next_slope(x, q1, h2, c);
    lemma_next_slope(x, q2, h2, c);
    lemma_next_slope(x, q3, h, c);
    // The blend of the slopes is the state times the blend of their multiples.
    lemma_mul(x, q2, two);
    lemma_mul(x, q3, two);
    lemma_mul_distributes_left(q1, q2.mul_spec(two), x);
    lemma_mul_distributes_left(q1.add_spec(q2.mul_spec(two)), q3.mul_spec(two), x);
    lemma_mul_distributes_left(q1.add_spec(q2.mul_spec(two)).add_spec(q3.mul_spec(two)), q4, x);
    lemma_affine(x, q1.add_spec(q2.mul_spec(two)).add_spec(q3.mul_spec(two)).add_spec(q4), h6);
}

/// The first five terms of the exponential series: `1 + (z + z^2/2 + z^3/6 + z^4/24)`.
pub open spec fn taylor4<T: Independent>(z: T) -> T {
    let zz = z.mul_spec(z);
    let zzz = zz.mul_spec(z);
    let zzzz = zzz.mul_spec(z);
    T::from_u16_spec(1).add_spec(
        sum4(
            z,
            zz.div_spec(T::from_u16_spec(2)),
            zzz.div_spec(T::from_u16_spec(6)),
            zzzz.div_spec(T::from_u16_spec(24)),
        ),
    )
}

/// In exact arithmetic `c h` is twice `c` times half of `h`, and six times `c` times a
/// sixth of `h`.
proof fn lemma_parts_of_the_step<T: Independent>(c: T, h: T)
    requires
        is_exact::<T>(),
    ensures
        c.mul_spec(rk4_half(h)).mul_spec(T::from_u16_spec(2)) == c.mul_spec(h),
        c.mul_spec(h.div_spec(T::from_u16_spec(6))).mul_spec(T::from_u16_spec(6)) == c.mul_spec(h),
{
    let zero = T::from_u16_spec(0);
    let two = T::from_u16_spec(2);
    let six = T::from_u16_spec(6);
    lemma_whole::<T>(0, 2);
    lemma_whole::<T>(0, 6);
    lemma_order(zero, zero, zero);
    lemma_mul(h, two, two);
    lemma_mul(h, six, six);
    lemma_mul(c, rk4_half(h), two);
    lemma_mul(c, h.div_spec(six), six);
}

/// The multiple of `c` times the state that the slope of the second stage is, with `u` for
/// `c h / 2`: `1 + u`.
spec fn stage2<T: Independent>(u: T) -> T {
    T::from_u16_spec(1).add_spec(u)
}

/// The multiple that the slope of the third stage is: one plus that of the second times
/// `u`.
spec fn stage3<T: Independent>(u: T) -> T {
    T::from_u16_spec(1).add_spec(stage2(u).mul_spec(u))
}

/// The multiple that the slope of the fourth stage is: one plus that of the third times
/// `c h`, which is twice `u`.
spec fn stage4<T: Independent>(u: T) -> T {
    T::from_u16_spec(1).add_spec(stage3(u).mul_spec(u.mul_spec(T::from_u16_spec(2))))
}

/// The blend of the four multiples, each with the weight of its stage: the first is one.
spec fn blend<T: Independent>(u: T) -> T {
    let two = T::from_u16_spec(2);
    T::from_u16_spec(1).add_spec(stage2(u).mul_spec(two)).add_spec(stage3(u).mul_spec(two)).add_spec(stage4(u))
}

/// In exact arithmetic the factor of a Runge-Kutta step is one plus the blend of the
/// multiples times a sixth of `c h`.
proof fn lemma_factor_is_blend<T: Independent>(c: T, h: T)
    requires
        is_exact::<T>(),
    ensures
        rk4_factor(c, h) == T::from_u16_spec(1).add_spec(
            blend(c.mul_spec(rk4_half(h))).mul_spec(c.mul_spec(h.div_spec(T::from_u16_spec(6)))),
        ),
{
    let one = T::from_u16_spec(1);
    let two = T::from_u16_spec(2);
    let h2 = rk4_half(h);
    let h6 = h.div_spec(T::from_u16_spec(6));
    let u = c.mul_spec(h2);
    let a = stage2(u);
    let b = stage3(u);
    let d = stage4(u);
    lemma_parts_of_the_step(c, h);
    // The slopes of the stages are the multiples times c.
    assert(next_slope(c, h2, c) == a.mul_spec(c));
    lemma_mul(a, c, h2);
    assert(next_slope(a.mul_spec(c), h2, c) == b.mul_spec(c));
    lemma_mul(b, c, h);
    assert(next_slope(b.mul_spec(c), h, c) == d.mul_spec(c));
    // Their blend is the blend of the multiples times c.
    lemma_mul(c, one, one);
    lemma_mul(a, c, two);
    lemma_mul(c, two, two);
    lemma_mul(a, two, c);
    lemma_mul(b, c, two);
    lemma_mul(b, two, c);
    lemma_mul(one, a.mul_spec(two), c);
    lemma_mul(one.add_spec(a.mul_spec(two)), b.mul_spec(two), c);
    lemma_mul(one.add_spec(a.mul_spec(two)).add_spec(b.mul_spec(two)), d, c);
    assert(c.add_spec(a.mul_spec(c).mul_spec(two)).add_spec(b.mul_spec(c).mul_spec(two)).add_spec(d.mul_spec(c))
        == blend(u).mul_spec(c));
    lemma_mul(blend(u), c, h6);
}

/// In exact arithmetic the blend of the multiples is `6 + 6 u + 4 u^2 + 2 u^3`.
proof fn lemma_blend_expands<T: Independent>(u: T)
    requires
        is_exact::<T>(),
    ensures
        blend(u) == sum4(
            T::from_u16_spec(6),
            u.mul_spec(T::from_u16_spec(6)),
            u.mul_spec(u).mul_spec(T::from_u16_spec(4)),
            u.mul_spec(u).mul_spec(u).mul_spec(T::from_u16_spec(2)),
        ),
{
    let zero = T::from_u16_spec(0);
    let one = T::from_u16_spec(1);
    let two = T::from_u16_spec(2);
    let uu = u.mul_spec(u);
    let uuu = uu.mul_spec(u);
    let u2 = u.mul_spec(two);
    let uu2 = uu.mul_spec(two);
    let uuu2 = uuu.mul_spec(two);
    let z = u2;
    // The second multiple, twice: 2 + 2 u.
    lemma_mul(one, u, two);
    lemma_mul(two, one, one);
    assert(stage2(u).mul_spec(two) == two.add_spec(u2));
    // The third multiple: 1 + (u + u^2); twice: 2 + (2 u + 2 u^2).
    lemma_mul(one, u, u);
    lemma_mul(u, one, one);
    assert(stage3(u) == one.add_spec(u.add_spec(uu)));
    lemma_mul(one, u.add_spec(uu), two);
    lemma_mul(u, uu, two);
    assert(stage3(u).mul_spec(two) == two.add_spec(u2.add_spec(uu2)));
    // The fourth multiple: 1 + (2 u + (2 u^2 + 2 u^3)).
    lemma_mul(one, u.add_spec(uu), z);
    lemma_mul(z, one, one);
    lemma_mul(u, uu, z);
    lemma_mul(u, u, two);
    lemma_mul(uu, u, two);
    assert(stage4(u) == one.add_spec(u2.add_spec(uu2.add_spec(uuu2))));
    // Each as a sum of four: constant, u, u^2, u^3.
    lemma_add_associates(one, two, u2);
    lemma_whole::<T>(1, 2);
    lemma_add(one.add_spec(two).add_spec(u2), zero);
    assert(one.add_spec(stage2(u).mul_spec(two)) == sum4(T::from_u16_spec(3), u2, zero, zero));
    lemma_add_associates(two, u2, uu2);
    lemma_add(two.add_spec(u2).add_spec(uu2), zero);
    assert(stage3(u).mul_spec(two) == sum4(two, u2, uu2, zero));
    lemma_add_associates(one, u2, uu2.add_spec(uuu2));
    lemma_add_associates(one.add_spec(u2), uu2, uuu2);
    assert(stage4(u) == sum4(one, u2, uu2, uuu2));
    // Added up term by term.
    lemma_sum4_add(T::from_u16_spec(3), u2, zero, zero, two, u2, uu2, zero);
    lemma_sum4_add(
        T::from_u16_spec(3).add_spec(two),
        u2.add_spec(u2),
        zero.add_spec(uu2),
        zero.add_spec(zero),
        one,
        u2,
        uu2,
        uuu2,
    );
    lemma_whole::<T>(3, 2);
    lemma_whole::<T>(5, 1);
    lemma_like_terms(u, 2, 2);
    lemma_like_terms(u, 4, 2);
    lemma_add(uu2, zero);
    lemma_like_terms(uu, 2, 2);
    lemma_add(zero, zero);
    lemma_add(uuu2, zero);
}

/// In exact arithmetic, with `z` for twice `u` and for six times `v`: the four terms of
/// `(6 + 6 u + 4 u^2 + 2 u^3) v` are `z`, `z^2 / 2`, `z^3 / 6` and `z^4 / 24`.
proof fn lemma_terms_of_the_series<T: Independent>(u: T, v: T, z: T)
    requires
        is_exact::<T>(),
        u.mul_spec(T::from_u16_spec(2)) == z,
        v.mul_spec(T::from_u16_spec(6)) == z,
    ensures
        T::from_u16_spec(6).mul_spec(v) == z,
        u.mul_spec(T::from_u16_spec(6)).mul_spec(v) == z.mul_spec(z).div_spec(T::from_u16_spec(2)),
        u.mul_spec(u).mul_spec(T::from_u16_spec(4)).mul_spec(v) == z.mul_spec(z).mul_spec(z).div_spec(
            T::from_u16_spec(6),
        ),
        u.mul_spec(u).mul_spec(u).mul_spec(T::from_u16_spec(2)).mul_spec(v) == z.mul_spec(z).mul_spec(z).mul_spec(
            z,
        ).div_spec(T::from_u16_spec(24)),
{
    let two = T::from_u16_spec(2);
    let four = T::from_u16_spec(4);
    let six = T::from_u16_spec(6);
    let uu = u.mul_spec(u);
    let uuu = uu.mul_spec(u);
    let zz = z.mul_spec(z);
    let zzz = zz.mul_spec(z);
    lemma_mul(six, v, v);
    // The second term: u z, twice of which is z z.
    lemma_mul(u, six, v);
    lemma_mul(u, z, two);
    lemma_mul(z, two, two);
    lemma_mul(u, two, z);
    lemma_quotient(zz, 2, u.mul_spec(z));
    // The third term: six times it is 4 u^2 z, which is z z z.
    lemma_mul_interchange(u, two, u, two);
    lemma_whole::<T>(2, 2);
    assert(zz == uu.mul_spec(four));
    lemma_mul(uu.mul_spec(four), v, six);
    lemma_quotient(zzz, 6, uu.mul_spec(four).mul_spec(v));
    // The fourth term: twenty-four times it is 8 u^3 z, which is z z z z.
    let t4 = uuu.mul_spec(two).mul_spec(v);
    lemma_whole::<T>(6, 4);
    lemma_mul(t4, six, four);
    lemma_mul(uuu.mul_spec(two), v, six);
    lemma_mul(uuu.mul_spec(two), z, four);
    lemma_mul_interchange(uuu, two, z, four);
    lemma_mul_interchange(uu.mul_spec(four), z, u, two);
    lemma_mul(uu, four, u);
    lemma_mul(four, u, u);
    lemma_mul(uu, u, four);
    lemma_mul_interchange(uuu, four, z, two);
    lemma_mul(two, four, four);
    assert(t4.mul_spec(T::from_u16_spec(24)) == zzz.mul_spec(z));
    lemma_quotient(zzz.mul_spec(z), 24, t4);
}

/// In exact arithmetic the factor of a Runge-Kutta step under `X' = c X` is the first five
/// terms of the exponential series of `c h`. The exponential itself, and how far the five
/// terms are from it, are beyond the arithmetic of the scalars.
pub proof fn lemma_rk4_factor_is_taylor<T: Independent>(c: T, h: T)
    requires
        is_exact::<T>(),
    ensures
        rk4_factor(c, h) == taylor4(c.mul_spec(h)),
{
    let six = T::from_u16_spec(6);
    let u = c.mul_spec(rk4_half(h));
    let v = c.mul_spec(h.div_spec(six));
    let z = c.mul_spec(h);
    let uu = u.mul_spec(u);
    let uuu = uu.mul_spec(u);
    let t1 = six;
    let t2 = u.mul_spec(six);
    let t3 = uu.mul_spec(T::from_u16_spec(4));
    let t4 = uuu.mul_spec(T::from_u16_spec(2));
    lemma_factor_is_blend(c, h);
    lemma_blend_expands(u);
    lemma_parts_of_the_step(c, h);
    lemma_terms_of_the_series(u, v, z);
    lemma_mul(t1.add_spec(t2).add_spec(t3), t4, v);
    lemma_mul(t1.add_spec(t2), t3, v);
    lemma_mul(t1, t2, v);
}

/// In exact arithmetic one Euler step under the linear equation `X' = c X` multiplies the
/// phase by `1 + c dt`.
pub proof fn lemma_euler_scales<E: FirstOrderODE<Phase<T>, T>, T: Independent>(
    equation: &E,
    c: T,
    x0: Phase<T>,
    t0: T,
    dt: T,
    x1: Phase<T>,
)
    requires
        is_exact::<T>(),
        forall|x: Phase<T>, t: T, rate: Phase<T>| #[trigger] equation.yields(x, t, rate) ==> rate == x.mul_spec(c),
        euler_reaches(equation, x0, t0, dt, x1),
    ensures
        x1 == x0.mul_spec(euler_factor(c, dt)),
{
    lemma_affine(x0.position.x, c, dt);
    lemma_affine(x0.position.y, c, dt);
    lemma_affine(x0.position.z, c, dt);
    lemma_affine(x0.momentum.x, c, dt);
    lemma_affine(x0.momentum.y, c, dt);
    lemma_affine(x0.momentum.z, c, dt);
}

/// In exact arithmetic one Runge-Kutta step under the linear equation `X' = c X` multiplies
/// the phase by `rk4_factor(c, h)`, which is the first five terms of the exponential series
/// of `c h`.
pub proof fn lemma_rk4_scales<E: FirstOrderODE<Phase<T>, T>, T: Independent>(
    equation: &E,
    c: T,
    x0: Phase<T>,
    t0: T,
    h: T,
    x1: Phase<T>,
)
    requires
        is_exact::<T>(),
        forall|x: Phase<T>, t: T, rate: Phase<T>| #[trigger] equation.yields(x, t, rate) ==> rate == x.mul_spec(c),
        rk4_reaches(equation, x0, t0, h, x1),
    ensures
        x1 == x0.mul_spec(rk4_factor(c, h)),
        x1 == x0.mul_spec(taylor4(c.mul_spec(h))),
{
    lemma_rk4_factor_is_taylor(c, h);
    lemma_rk4_of_a_function(equation, |x: Phase<T>, t: T| x.mul_spec(c), x0, t0, h, x1);
    lemma_rk4_linear(x0.position.x, c, h);
    lemma_rk4_linear(x0.position.y, c, h);
    lemma_rk4_linear(x0.position.z, c, h);
    lemma_rk4_linear(x0.momentum.x, c, h);
    lemma_rk4_linear(x0.momentum.y, c, h);
    lemma_rk4_linear(x0.momentum.z, c, h);
}

} // verus!
