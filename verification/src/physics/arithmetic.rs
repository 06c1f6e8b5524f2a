use vstd::prelude::*;
use crate::physics::integrator::Independent;

verus! {

/// `a` is not above `b`.
pub open spec fn at_most<T: Independent>(a: T, b: T) -> bool {
    !b.lt_spec(a)
}

/// The laws of exact arithmetic: those of an ordered field, as far as the laws of this crate
/// need them. Scalars add commutatively and associatively, zero adds nothing, and
/// subtraction undoes addition; the order is strict and total and is kept by adding the same
/// scalar on both sides and by multiplying both sides by a positive one; scalars multiply
/// commutatively and associatively, and a sum is multiplied term by term; zero times
/// anything is zero, one times anything is that thing, and division by anything but zero
/// undoes multiplication; the scalars that stand for whole numbers add, multiply and
/// compare as the whole numbers do.
///
/// No scalar of a program obeys these laws. They make every scalar lie below itself plus
/// one, so they need infinitely many scalars, and a scalar is `Copy`: a value of a fixed
/// size, of which there are finitely many. The rational numbers obey the laws, but only
/// with numerators and denominators of unbounded size, which are no `Independent`.
/// Floating-point numbers round, and break the laws at once.
///
/// What is proved under `is_exact` is therefore proved of the arithmetic that the scalars of
/// a program stand for, and of no run of the program: it says what the simulation computes
/// as far as its scalars are exact, as rationals are while their parts fit, and what it
/// aims at where they round. A law that is to hold of the scalars of a program is stated
/// under the few facts that it uses, which a scalar type can have: `unit_frame_arithmetic`
/// in the module of the system is one such.
///
/// The proofs take these laws one instance at a time, through the lemmas below.
#[verifier::opaque]
pub open spec fn is_exact<T: Independent>() -> bool {
    let zero = T::from_u16_spec(0);
    let one = T::from_u16_spec(1);
    &&& forall|a: T, b: T| #[trigger] a.add_spec(b) == b.add_spec(a)
    &&& forall|a: T, b: T, c: T| #[trigger] a.add_spec(b).add_spec(c) == a.add_spec(b.add_spec(c))
    &&& forall|a: T| #[trigger] a.add_spec(zero) == a
    &&& forall|a: T, b: T| #[trigger] a.sub_spec(b).add_spec(b) == a
    &&& forall|a: T| !#[trigger] a.lt_spec(a)
    &&& forall|a: T, b: T, c: T| #[trigger] a.lt_spec(b) && #[trigger] b.lt_spec(c) ==> a.lt_spec(c)
    &&& forall|a: T, b: T| #[trigger] a.lt_spec(b) || a == b || b.lt_spec(a)
    &&& forall|a: T, b: T, c: T| a.lt_spec(b) ==> #[trigger] a.add_spec(c).lt_spec(b.add_spec(c))
    &&& forall|a: T, b: T, c: T| a.lt_spec(b) && zero.lt_spec(c) ==> #[trigger] a.mul_spec(c).lt_spec(b.mul_spec(c))
    &&& forall|a: T, b: T| #[trigger] a.mul_spec(b) == b.mul_spec(a)
    &&& forall|a: T, b: T, c: T| #[trigger] a.mul_spec(b).mul_spec(c) == a.mul_spec(b.mul_spec(c))
    &&& forall|a: T, b: T, c: T| #[trigger] a.add_spec(b).mul_spec(c) == a.mul_spec(c).add_spec(b.mul_spec(c))
    &&& forall|a: T| #[trigger] zero.mul_spec(a) == zero
    &&& forall|a: T| #[trigger] one.mul_spec(a) == a
    &&& forall|a: T, b: T| b != zero ==> #[trigger] a.div_spec(b).mul_spec(b) == a
    &&& forall|m: u16, n: u16|
        m + n <= u16::MAX ==> #[trigger] T::from_u16_spec(m).add_spec(T::from_u16_spec(n)) == T::from_u16_spec(
            (m + n) as u16,
        )
    &&& forall|m: u16, n: u16|
        m * n <= u16::MAX ==> #[trigger] T::from_u16_spec(m).mul_spec(T::from_u16_spec(n)) == T::from_u16_spec(
            (m * n) as u16,
        )
    &&& forall|m: u16, n: u16| #[trigger] T::from_u16_spec(m).lt_spec(T::from_u16_spec(n)) == (m < n)
}

/// The laws of addition, for the given scalars.
pub proof fn lemma_add<T: Independent>(a: T, b: T)
    requires
        is_exact::<T>(),
    ensures
        a.add_spec(b) == b.add_spec(a),
        a.add_spec(T::from_u16_spec(0)) == a,
        T::from_u16_spec(0).add_spec(a) == a,
        a.sub_spec(b).add_spec(b) == a,
{
    reveal(is_exact);
    assert(T::from_u16_spec(0).add_spec(a) == a.add_spec(T::from_u16_spec(0)));
}

/// Sums may be regrouped.
pub proof fn lemma_add_associates<T: Independent>(a: T, b: T, c: T)
    requires
        is_exact::<T>(),
    ensures
        a.add_spec(b).add_spec(c) == a.add_spec(b.add_spec(c)),
{
    reveal(is_exact);
}

/// The laws of the order, for the given scalars.
pub proof fn lemma_order<T: Independent>(a: T, b: T, c: T)
    requires
        is_exact::<T>(),
    ensures
        !a.lt_spec(a),
        a.lt_spec(b) && b.lt_spec(c) ==> a.lt_spec(c),
        a.lt_spec(b) || a == b || b.lt_spec(a),
        a.lt_spec(b) ==> a.add_spec(c).lt_spec(b.add_spec(c)),
        a.lt_spec(b) && T::from_u16_spec(0).lt_spec(c) ==> a.mul_spec(c).lt_spec(b.mul_spec(c)),
{
    reveal(is_exact);
}

/// The laws of multiplication, for the given scalars.
pub proof fn lemma_mul<T: Independent>(a: T, b: T, c: T)
    requires
        is_exact::<T>(),
    ensures
        a.mul_spec(b) == b.mul_spec(a),
        a.mul_spec(b).mul_spec(c) == a.mul_spec(b.mul_spec(c)),
        a.add_spec(b).mul_spec(c) == a.mul_spec(c).add_spec(b.mul_spec(c)),
        T::from_u16_spec(0).mul_spec(a) == T::from_u16_spec(0),
        T::from_u16_spec(1).mul_spec(a) == a,
        b != T::from_u16_spec(0) ==> a.div_spec(b).mul_spec(b) == a,
{
    reveal(is_exact);
}

/// The laws of the scalars that stand for whole numbers, for the given numbers.
pub proof fn lemma_whole<T: Independent>(m: u16, n: u16)
    requires
        is_exact::<T>(),
    ensures
        m + n <= u16::MAX ==> T::from_u16_spec(m).add_spec(T::from_u16_spec(n)) == T::from_u16_spec((m + n) as u16),
        m * n <= u16::MAX ==> T::from_u16_spec(m).mul_spec(T::from_u16_spec(n)) == T::from_u16_spec((m * n) as u16),
        T::from_u16_spec(m).lt_spec(T::from_u16_spec(n)) == (m < n),
{
    reveal(is_exact);
}

/// Adding the same scalar on both sides keeps `at_most`.
pub proof fn lemma_add_keeps_at_most<T: Independent>(a: T, b: T, c: T)
    requires
        is_exact::<T>(),
        at_most(a, b),
    ensures
        at_most(a.add_spec(c), b.add_spec(c)),
{
    lemma_order(a, b, c);
    lemma_order(a.add_spec(c), b.add_spec(c), a.add_spec(c));
}

/// At most and below make below.
pub proof fn lemma_at_most_then_lt<T: Independent>(a: T, b: T, c: T)
    requires
        is_exact::<T>(),
        at_most(a, b),
        b.lt_spec(c),
    ensures
        a.lt_spec(c),
{
    lemma_order(a, b, c);
}

/// A scalar less itself is zero, and a scalar less zero is itself.
pub proof fn lemma_sub_self_and_zero<T: Independent>(a: T)
    requires
        is_exact::<T>(),
    ensures
        a.sub_spec(a) == T::from_u16_spec(0),
        a.sub_spec(T::from_u16_spec(0)) == a,
{
    let zero = T::from_u16_spec(0);
    let d = a.sub_spec(a);
    lemma_add(a, a);
    lemma_add(a, zero);
    lemma_add(a.sub_spec(zero), zero);
    lemma_order(d, zero, a);
    lemma_order(zero, d, a);
    lemma_order(a, a, a);
}

/// Multiplying both sides by the same positive scalar can be undone.
pub proof fn lemma_mul_cancels<T: Independent>(a: T, b: T, c: T)
    requires
        is_exact::<T>(),
        T::from_u16_spec(0).lt_spec(c),
        a.mul_spec(c) == b.mul_spec(c),
    ensures
        a == b,
{
    lemma_order(a, b, c);
    lemma_order(b, a, c);
    lemma_order(a.mul_spec(c), a.mul_spec(c), c);
}

/// One over a positive whole number is positive, and that many times it is one.
pub proof fn lemma_unit_fraction<T: Independent>(n: u16)
    requires
        is_exact::<T>(),
        n > 0,
    ensures
        T::from_u16_spec(0).lt_spec(T::from_u16_spec(1).div_spec(T::from_u16_spec(n))),
        T::from_u16_spec(1).div_spec(T::from_u16_spec(n)).mul_spec(T::from_u16_spec(n)) == T::from_u16_spec(1),
{
    let zero = T::from_u16_spec(0);
    let one = T::from_u16_spec(1);
    let whole = T::from_u16_spec(n);
    let part = one.div_spec(whole);
    lemma_whole::<T>(0, n);
    lemma_whole::<T>(0, 1);
    lemma_mul(one, whole, whole);
    lemma_order(part, zero, whole);
    lemma_order(zero, one, zero);
}

/// Adding the same scalar on both sides can be undone.
pub proof fn lemma_add_cancels<T: Independent>(a: T, b: T, c: T)
    requires
        is_exact::<T>(),
        a.add_spec(c) == b.add_spec(c),
    ensures
        a == b,
{
    lemma_order(a, b, c);
    lemma_order(b, a, c);
    lemma_order(a.add_spec(c), a.add_spec(c), c);
}

/// Two sums of two may trade their inner terms: `(a + b) + (c + d)` is `(a + c) + (b + d)`.
pub proof fn lemma_add_interchange<T: Independent>(a: T, b: T, c: T, d: T)
    requires
        is_exact::<T>(),
    ensures
        a.add_spec(b).add_spec(c.add_spec(d)) == a.add_spec(c).add_spec(b.add_spec(d)),
{
    lemma_add_associates(a, b, c.add_spec(d));
    lemma_add_associates(b, c, d);
    lemma_add(b, c);
    lemma_add_associates(c, b, d);
    lemma_add_associates(a, c, b.add_spec(d));
}

/// Two products of two may trade their inner factors: `(a b) (c d)` is `(a c) (b d)`.
pub proof fn lemma_mul_interchange<T: Independent>(a: T, b: T, c: T, d: T)
    requires
        is_exact::<T>(),
    ensures
        a.mul_spec(b).mul_spec(c.mul_spec(d)) == a.mul_spec(c).mul_spec(b.mul_spec(d)),
{
    lemma_mul(a, b, c.mul_spec(d));
    lemma_mul(b, c, d);
    lemma_mul(c, b, d);
    lemma_mul(a, c, b.mul_spec(d));
}

/// A product with a sum on the right is multiplied term by term as well.
pub proof fn lemma_mul_distributes_left<T: Independent>(a: T, b: T, c: T)
    requires
        is_exact::<T>(),
    ensures
        c.mul_spec(a.add_spec(b)) == c.mul_spec(a).add_spec(c.mul_spec(b)),
{
    lemma_mul(a, b, c);
    lemma_mul(c, a.add_spec(b), c);
    lemma_mul(c, a, c);
    lemma_mul(c, b, c);
}

/// The square of a sum: `(a + b)^2` is `(a^2 + a b) + (a b + b^2)`.
pub proof fn lemma_square_of_sum<T: Independent>(a: T, b: T)
    requires
        is_exact::<T>(),
    ensures
        a.add_spec(b).mul_spec(a.add_spec(b)) == a.mul_spec(a).add_spec(a.mul_spec(b)).add_spec(
            a.mul_spec(b).add_spec(b.mul_spec(b)),
        ),
{
    let s = a.add_spec(b);
    lemma_mul(a, b, s);
    lemma_mul_distributes_left(a, b, a);
    lemma_mul_distributes_left(a, b, b);
}

/// Two scalars that add up to zero have the same square.
pub proof fn lemma_square_of_opposite<T: Independent>(x: T, n: T)
    requires
        is_exact::<T>(),
        n.add_spec(x) == T::from_u16_spec(0),
    ensures
        n.mul_spec(n) == x.mul_spec(x),
{
    // n (n + x) and x (n + x) are both zero, so n n and x x both make zero with n x.
    lemma_mul_distributes_left(n, x, n);
    lemma_mul_distributes_left(n, x, x);
    lemma_mul(x, n, n);
    lemma_mul(n, T::from_u16_spec(0), n);
    lemma_mul(x, T::from_u16_spec(0), n);
    lemma_add(x.mul_spec(n), x.mul_spec(x));
    lemma_add_cancels(n.mul_spec(n), x.mul_spec(x), n.mul_spec(x));
}

/// Adding the same scalar on both sides neither makes nor breaks `below`.
pub proof fn lemma_add_keeps_lt_both_ways<T: Independent>(a: T, b: T, c: T)
    requires
        is_exact::<T>(),
    ensures
        a.lt_spec(b) == a.add_spec(c).lt_spec(b.add_spec(c)),
{
    lemma_order(a, b, c);
    lemma_order(b, a, c);
    lemma_order(a.add_spec(c), b.add_spec(c), a.add_spec(c));
}

/// Multiplying both sides by the same positive scalar neither makes nor breaks `below`.
pub proof fn lemma_mul_keeps_lt_both_ways<T: Independent>(a: T, b: T, c: T)
    requires
        is_exact::<T>(),
        T::from_u16_spec(0).lt_spec(c),
    ensures
        a.lt_spec(b) == a.mul_spec(c).lt_spec(b.mul_spec(c)),
{
    lemma_order(a, b, c);
    lemma_order(b, a, c);
    lemma_order(a.mul_spec(c), b.mul_spec(c), a.mul_spec(c));
}

/// Like terms add up: `a m + a n` is `a (m + n)` for whole numbers `m` and `n`.
pub proof fn lemma_like_terms<T: Independent>(a: T, m: u16, n: u16)
    requires
        is_exact::<T>(),
        m + n <= u16::MAX,
    ensures
        a.mul_spec(T::from_u16_spec(m)).add_spec(a.mul_spec(T::from_u16_spec(n))) == a.mul_spec(
            T::from_u16_spec((m + n) as u16),
        ),
{
    lemma_mul_distributes_left(T::from_u16_spec(m), T::from_u16_spec(n), a);
    lemma_whole::<T>(m, n);
}

/// What a quotient is: the one scalar that, times the divisor, makes the dividend.
pub proof fn lemma_quotient<T: Independent>(a: T, n: u16, q: T)
    requires
        is_exact::<T>(),
        n > 0,
        q.mul_spec(T::from_u16_spec(n)) == a,
    ensures
        a.div_spec(T::from_u16_spec(n)) == q,
{
    let d = T::from_u16_spec(n);
    lemma_whole::<T>(0, n);
    lemma_order(d, d, d);
    lemma_mul(a, d, d);
    lemma_mul_cancels(a.div_spec(d), q, d);
}

/// A sum of four terms, grouped from the left.
pub open spec fn sum4<T: Independent>(a: T, b: T, c: T, d: T) -> T {
    a.add_spec(b).add_spec(c).add_spec(d)
}

/// Two sums of four add term by term.
pub proof fn lemma_sum4_add<T: Independent>(a0: T, a1: T, a2: T, a3: T, b0: T, b1: T, b2: T, b3: T)
    requires
        is_exact::<T>(),
    ensures
        sum4(a0, a1, a2, a3).add_spec(sum4(b0, b1, b2, b3)) == sum4(
            a0.add_spec(b0),
            a1.add_spec(b1),
            a2.add_spec(b2),
            a3.add_spec(b3),
        ),
{
    lemma_add_interchange(a0.add_spec(a1).add_spec(a2), a3, b0.add_spec(b1).add_spec(b2), b3);
    lemma_add_interchange(a0.add_spec(a1), a2, b0.add_spec(b1), b2);
    lemma_add_interchange(a0, a1, b0, b1);
}

} // verus!
