//! The laws of exact arithmetic: those of a field for the scalars, with the
//! natural numbers embedded in it, and those of a vector space over it for
//! the points.
//!
//! Rounded arithmetic obeys them only up to its rounding errors. What is
//! proved from them holds of a curve over rounded numbers up to those.
//!
//! Each law is a predicate of its own, so that a proof takes in only the
//! laws it names, each through the lemma that applies it to given values.

use vstd::prelude::*;
use crate::markers::{Float, PVOps};

verus! {

/// The law `a b == b a`, of all values.
#[verifier::opaque]
pub open spec fn mul_comm_law<F: Float>() -> bool {
    forall|a: F, b: F| #[trigger] a.mul_spec(b) == b.mul_spec(a)
}

/// The law `(a b) c == a (b c)`, of all values.
#[verifier::opaque]
pub open spec fn mul_assoc_law<F: Float>() -> bool {
    forall|a: F, b: F, c: F| #[trigger] a.mul_spec(b).mul_spec(c) == a.mul_spec(b.mul_spec(c))
}

/// The law `a 1 == a`, of all values.
#[verifier::opaque]
pub open spec fn mul_one_law<F: Float>() -> bool {
    forall|a: F| #[trigger] a.mul_spec(F::one_spec()) == a
}

/// The law `a (b + c) == a b + a c`, of all values.
#[verifier::opaque]
pub open spec fn mul_add_law<F: Float>() -> bool {
    forall|a: F, b: F, c: F| #[trigger]
        a.mul_spec(b.add_spec(c)) == a.mul_spec(b).add_spec(a.mul_spec(c))
}

/// Multiplication of scalars is commutative and associative, has 1 as its
/// neutral element, and distributes over addition.
pub open spec fn mul_laws<F: Float>() -> bool {
    &&& mul_comm_law::<F>()
    &&& mul_assoc_law::<F>()
    &&& mul_one_law::<F>()
    &&& mul_add_law::<F>()
}

/// The law `(a + b) + c == a + (b + c)`, of all values.
#[verifier::opaque]
pub open spec fn add_assoc_law<F: Float>() -> bool {
    forall|a: F, b: F, c: F| #[trigger] a.add_spec(b).add_spec(c) == a.add_spec(b.add_spec(c))
}

/// The law `(a - b) + b == a`, of all values.
#[verifier::opaque]
pub open spec fn sub_add_law<F: Float>() -> bool {
    forall|a: F, b: F| #[trigger] a.sub_spec(b).add_spec(b) == a
}

/// The law `(a + b) - b == a`, of all values.
#[verifier::opaque]
pub open spec fn add_sub_law<F: Float>() -> bool {
    forall|a: F, b: F| #[trigger] a.add_spec(b).sub_spec(b) == a
}

/// The law `a (b - c) == a b - a c`, of all values.
#[verifier::opaque]
pub open spec fn mul_sub_law<F: Float>() -> bool {
    forall|a: F, b: F, c: F| #[trigger]
        a.mul_spec(b.sub_spec(c)) == a.mul_spec(b).sub_spec(a.mul_spec(c))
}

/// Addition is associative, subtraction undoes it, and multiplication
/// distributes over subtraction.
pub open spec fn sub_laws<F: Float>() -> bool {
    &&& add_assoc_law::<F>()
    &&& sub_add_law::<F>()
    &&& add_sub_law::<F>()
    &&& mul_sub_law::<F>()
}

/// The law `a (b / c) == (a b) / c`, of all values.
#[verifier::opaque]
pub open spec fn div_after_law<F: Float>() -> bool {
    forall|a: F, b: F, c: F| #[trigger] a.mul_spec(b.div_spec(c)) == a.mul_spec(b).div_spec(c)
}

/// The law `(a m) / m == a` for a natural number `m >= 1`, of all values.
#[verifier::opaque]
pub open spec fn div_undo_law<F: Float>() -> bool {
    forall|a: F, m: u64|
        m >= 1 ==> #[trigger] a.mul_spec(F::from_u64_spec(m)).div_spec(F::from_u64_spec(m)) == a
}

/// Division may be done after a multiplication as well as before it, and
/// undoes the multiplication with a positive natural number.
pub open spec fn div_laws<F: Float>() -> bool {
    &&& div_after_law::<F>()
    &&& div_undo_law::<F>()
}

/// The law that the natural number 1 is the scalar 1.
#[verifier::opaque]
pub open spec fn nat_one_law<F: Float>() -> bool {
    F::from_u64_spec(1) == F::one_spec()
}

/// The law that natural numbers keep their sums as scalars.
#[verifier::opaque]
pub open spec fn nat_add_law<F: Float>() -> bool {
    forall|a: u64, b: u64|
        a + b <= u64::MAX ==> #[trigger] F::from_u64_spec(a).add_spec(F::from_u64_spec(b))
            == F::from_u64_spec((a + b) as u64)
}

/// The law that natural numbers keep their products as scalars.
#[verifier::opaque]
pub open spec fn nat_mul_law<F: Float>() -> bool {
    forall|a: u64, b: u64|
        a * b <= u64::MAX ==> #[trigger] F::from_u64_spec(a).mul_spec(F::from_u64_spec(b))
            == F::from_u64_spec((a * b) as u64)
}

/// The natural numbers keep their sums and products as scalars.
pub open spec fn nat_laws<F: Float>() -> bool {
    &&& nat_one_law::<F>()
    &&& nat_add_law::<F>()
    &&& nat_mul_law::<F>()
}

/// The law `x^0 == 1`, of all values.
#[verifier::opaque]
pub open spec fn power_zero_law<F: Float>() -> bool {
    forall|x: F| #[trigger] x.powi_spec(0) == F::one_spec()
}

/// The law `x^(n + 1) == x^n x`, of all values.
#[verifier::opaque]
pub open spec fn power_next_law<F: Float>() -> bool {
    forall|x: F, n: u32|
        n < u32::MAX ==> #[trigger] x.powi_spec((n + 1) as u32) == x.powi_spec(n).mul_spec(x)
}

/// A power is a repeated multiplication.
pub open spec fn power_laws<F: Float>() -> bool {
    &&& power_zero_law::<F>()
    &&& power_next_law::<F>()
}

/// The law `p + q == q + p`, of all values.
#[verifier::opaque]
pub open spec fn plus_comm_law<F: Float, P: PVOps<F>>() -> bool {
    forall|p: P, q: P| #[trigger] p.plus_spec(q) == q.plus_spec(p)
}

/// The law `(p + q) + r == p + (q + r)`, of all values.
#[verifier::opaque]
pub open spec fn plus_assoc_law<F: Float, P: PVOps<F>>() -> bool {
    forall|p: P, q: P, r: P| #[trigger] p.plus_spec(q).plus_spec(r) == p.plus_spec(q.plus_spec(r))
}

/// The law `p + 0 == p`, of all values.
#[verifier::opaque]
pub open spec fn plus_zero_law<F: Float, P: PVOps<F>>() -> bool {
    forall|p: P| #[trigger] p.plus_spec(P::origin_spec()) == p
}

/// The law `p 1 == p`, of all values.
#[verifier::opaque]
pub open spec fn times_one_law<F: Float, P: PVOps<F>>() -> bool {
    forall|p: P| #[trigger] p.times_spec(F::one_spec()) == p
}

/// The law `0 a == 0`, of all values.
#[verifier::opaque]
pub open spec fn zero_times_law<F: Float, P: PVOps<F>>() -> bool {
    forall|a: F| #[trigger] P::origin_spec().times_spec(a) == P::origin_spec()
}

/// The law `(p a) b == p (a b)`, of all values.
#[verifier::opaque]
pub open spec fn times_times_law<F: Float, P: PVOps<F>>() -> bool {
    forall|p: P, a: F, b: F| #[trigger] p.times_spec(a).times_spec(b) == p.times_spec(a.mul_spec(b))
}

/// The law `p (a + b) == p a + p b`, of all values.
#[verifier::opaque]
pub open spec fn times_add_law<F: Float, P: PVOps<F>>() -> bool {
    forall|p: P, a: F, b: F| #[trigger]
        p.times_spec(a.add_spec(b)) == p.times_spec(a).plus_spec(p.times_spec(b))
}

/// The law `(p + q) a == p a + q a`, of all values.
#[verifier::opaque]
pub open spec fn plus_times_law<F: Float, P: PVOps<F>>() -> bool {
    forall|p: P, q: P, a: F| #[trigger]
        p.plus_spec(q).times_spec(a) == p.times_spec(a).plus_spec(q.times_spec(a))
}

/// The law `(p - q) + q == p`, of all values.
#[verifier::opaque]
pub open spec fn minus_plus_law<F: Float, P: PVOps<F>>() -> bool {
    forall|p: P, q: P| #[trigger] p.minus_spec(q).plus_spec(q) == p
}

/// The law `(p + q) - q == p`, of all values.
#[verifier::opaque]
pub open spec fn plus_minus_law<F: Float, P: PVOps<F>>() -> bool {
    forall|p: P, q: P| #[trigger] p.plus_spec(q).minus_spec(q) == p
}

/// The law `(p - q) a == p a - q a`, of all values.
#[verifier::opaque]
pub open spec fn minus_times_law<F: Float, P: PVOps<F>>() -> bool {
    forall|p: P, q: P, a: F| #[trigger]
        p.minus_spec(q).times_spec(a) == p.times_spec(a).minus_spec(q.times_spec(a))
}

/// The points form a vector space over the scalars.
pub open spec fn space_laws<F: Float, P: PVOps<F>>() -> bool {
    &&& minus_plus_law::<F, P>()
    &&& plus_minus_law::<F, P>()
    &&& minus_times_law::<F, P>()
    &&& plus_comm_law::<F, P>()
    &&& plus_assoc_law::<F, P>()
    &&& plus_zero_law::<F, P>()
    &&& times_one_law::<F, P>()
    &&& zero_times_law::<F, P>()
    &&& times_times_law::<F, P>()
    &&& times_add_law::<F, P>()
    &&& plus_times_law::<F, P>()
}

/// All the laws of exact arithmetic together.
pub open spec fn exact_arithmetic<F: Float, P: PVOps<F>>() -> bool {
    &&& mul_laws::<F>()
    &&& sub_laws::<F>()
    &&& div_laws::<F>()
    &&& nat_laws::<F>()
    &&& power_laws::<F>()
    &&& space_laws::<F, P>()
}

/// `a b == b a`
pub proof fn law_mul_comm<F: Float>(a: F, b: F)
    requires
        mul_laws::<F>(),
    ensures
        a.mul_spec(b) == b.mul_spec(a),
{
    reveal(mul_comm_law);
}

/// `(a b) c == a (b c)`
pub proof fn law_mul_assoc<F: Float>(a: F, b: F, c: F)
    requires
        mul_laws::<F>(),
    ensures
        a.mul_spec(b).mul_spec(c) == a.mul_spec(b.mul_spec(c)),
{
    reveal(mul_assoc_law);
}

/// `a 1 == a`
pub proof fn law_mul_one<F: Float>(a: F)
    requires
        mul_laws::<F>(),
    ensures
        a.mul_spec(F::one_spec()) == a,
{
    reveal(mul_one_law);
}

/// `a (b + c) == a b + a c`
pub proof fn law_mul_add<F: Float>(a: F, b: F, c: F)
    requires
        mul_laws::<F>(),
    ensures
        a.mul_spec(b.add_spec(c)) == a.mul_spec(b).add_spec(a.mul_spec(c)),
{
    reveal(mul_add_law);
}

/// `(a + b) + c == a + (b + c)`
pub proof fn law_add_assoc<F: Float>(a: F, b: F, c: F)
    requires
        sub_laws::<F>(),
    ensures
        a.add_spec(b).add_spec(c) == a.add_spec(b.add_spec(c)),
{
    reveal(add_assoc_law);
}

/// `(a - b) + b == a`
pub proof fn law_sub_add<F: Float>(a: F, b: F)
    requires
        sub_laws::<F>(),
    ensures
        a.sub_spec(b).add_spec(b) == a,
{
    reveal(sub_add_law);
}

/// `(a + b) - b == a`
pub proof fn law_add_sub<F: Float>(a: F, b: F)
    requires
        sub_laws::<F>(),
    ensures
        a.add_spec(b).sub_spec(b) == a,
{
    reveal(add_sub_law);
}

/// `a (b - c) == a b - a c`
pub proof fn law_mul_sub<F: Float>(a: F, b: F, c: F)
    requires
        sub_laws::<F>(),
    ensures
        a.mul_spec(b.sub_spec(c)) == a.mul_spec(b).sub_spec(a.mul_spec(c)),
{
    reveal(mul_sub_law);
}

/// `a (b / c) == (a b) / c`
pub proof fn law_div_after<F: Float>(a: F, b: F, c: F)
    requires
        div_laws::<F>(),
    ensures
        a.mul_spec(b.div_spec(c)) == a.mul_spec(b).div_spec(c),
{
    reveal(div_after_law);
}

/// `(a m) / m == a` for a natural number `m >= 1`
pub proof fn law_div_undo<F: Float>(a: F, m: u64)
    requires
        div_laws::<F>(),
        m >= 1,
    ensures
        a.mul_spec(F::from_u64_spec(m)).div_spec(F::from_u64_spec(m)) == a,
{
    reveal(div_undo_law);
}

/// The natural number 1 is the scalar 1
pub proof fn law_nat_one<F: Float>()
    requires
        nat_laws::<F>(),
    ensures
        F::from_u64_spec(1) == F::one_spec(),
{
    reveal(nat_one_law);
}

/// Natural numbers keep their sums as scalars
pub proof fn law_nat_add<F: Float>(a: u64, b: u64)
    requires
        nat_laws::<F>(),
        a + b <= u64::MAX,
    ensures
        F::from_u64_spec(a).add_spec(F::from_u64_spec(b)) == F::from_u64_spec((a + b) as u64),
{
    reveal(nat_add_law);
}

/// Natural numbers keep their products as scalars
pub proof fn law_nat_mul<F: Float>(a: u64, b: u64)
    requires
        nat_laws::<F>(),
        a * b <= u64::MAX,
    ensures
        F::from_u64_spec(a).mul_spec(F::from_u64_spec(b)) == F::from_u64_spec((a * b) as u64),
{
    reveal(nat_mul_law);
}

/// `x^0 == 1`
pub proof fn law_power_zero<F: Float>(x: F)
    requires
        power_laws::<F>(),
    ensures
        x.powi_spec(0) == F::one_spec(),
{
    reveal(power_zero_law);
}

/// `x^(n + 1) == x^n x`
pub proof fn law_power_next<F: Float>(x: F, n: u32)
    requires
        power_laws::<F>(),
        n < u32::MAX,
    ensures
        x.powi_spec((n + 1) as u32) == x.powi_spec(n).mul_spec(x),
{
    reveal(power_next_law);
}

/// `p + q == q + p`
pub proof fn law_plus_comm<F: Float, P: PVOps<F>>(p: P, q: P)
    requires
        space_laws::<F, P>(),
    ensures
        p.plus_spec(q) == q.plus_spec(p),
{
    reveal(plus_comm_law);
}

/// `(p + q) + r == p + (q + r)`
pub proof fn law_plus_assoc<F: Float, P: PVOps<F>>(p: P, q: P, r: P)
    requires
        space_laws::<F, P>(),
    ensures
        p.plus_spec(q).plus_spec(r) == p.plus_spec(q.plus_spec(r)),
{
    reveal(plus_assoc_law);
}

/// `p + 0 == p`
pub proof fn law_plus_zero<F: Float, P: PVOps<F>>(p: P)
    requires
        space_laws::<F, P>(),
    ensures
        p.plus_spec(P::origin_spec()) == p,
{
    reveal(plus_zero_law);
}

/// `p 1 == p`
pub proof fn law_times_one<F: Float, P: PVOps<F>>(p: P)
    requires
        space_laws::<F, P>(),
    ensures
        p.times_spec(F::one_spec()) == p,
{
    reveal(times_one_law);
}

/// `0 a == 0`
pub proof fn law_zero_times<F: Float, P: PVOps<F>>(a: F)
    requires
        space_laws::<F, P>(),
    ensures
        P::origin_spec().times_spec(a) == P::origin_spec(),
{
    reveal(zero_times_law);
}

/// `(p a) b == p (a b)`
pub proof fn law_times_times<F: Float, P: PVOps<F>>(p: P, a: F, b: F)
    requires
        space_laws::<F, P>(),
    ensures
        p.times_spec(a).times_spec(b) == p.times_spec(a.mul_spec(b)),
{
    reveal(times_times_law);
}

/// `p (a + b) == p a + p b`
pub proof fn law_times_add<F: Float, P: PVOps<F>>(p: P, a: F, b: F)
    requires
        space_laws::<F, P>(),
    ensures
        p.times_spec(a.add_spec(b)) == p.times_spec(a).plus_spec(p.times_spec(b)),
{
    reveal(times_add_law);
}

/// `(p + q) a == p a + q a`
pub proof fn law_plus_times<F: Float, P: PVOps<F>>(p: P, q: P, a: F)
    requires
        space_laws::<F, P>(),
    ensures
        p.plus_spec(q).times_spec(a) == p.times_spec(a).plus_spec(q.times_spec(a)),
{
    reveal(plus_times_law);
}

/// `(p - q) + q == p`
pub proof fn law_minus_plus<F: Float, P: PVOps<F>>(p: P, q: P)
    requires
        space_laws::<F, P>(),
    ensures
        p.minus_spec(q).plus_spec(q) == p,
{
    reveal(minus_plus_law);
}

/// `(p + q) - q == p`
pub proof fn law_plus_minus<F: Float, P: PVOps<F>>(p: P, q: P)
    requires
        space_laws::<F, P>(),
    ensures
        p.plus_spec(q).minus_spec(q) == p,
{
    reveal(plus_minus_law);
}

/// `(p - q) a == p a - q a`
pub proof fn law_minus_times<F: Float, P: PVOps<F>>(p: P, q: P, a: F)
    requires
        space_laws::<F, P>(),
    ensures
        p.minus_spec(q).times_spec(a) == p.times_spec(a).minus_spec(q.times_spec(a)),
{
    reveal(minus_times_law);
}

/// `0 + p == p`
pub proof fn lemma_zero_plus<F: Float, P: PVOps<F>>(p: P)
    requires
        space_laws::<F, P>(),
    ensures
        P::origin_spec().plus_spec(p) == p,
{
    law_plus_comm::<F, P>(P::origin_spec(), p);
    law_plus_zero::<F, P>(p);
}

/// `((p a) b) c == p ((a b) c)`
pub proof fn lemma_scalings<F: Float, P: PVOps<F>>(p: P, a: F, b: F, c: F)
    requires
        space_laws::<F, P>(),
    ensures
        p.times_spec(a).times_spec(b).times_spec(c) == p.times_spec(
            a.mul_spec(b).mul_spec(c),
        ),
{
    law_times_times(p, a, b);
    law_times_times(p, a.mul_spec(b), c);
}

/// `(a + b) + (c + d) == (a + c) + (b + d)`
pub proof fn lemma_plus_swap<F: Float, P: PVOps<F>>(a: P, b: P, c: P, d: P)
    requires
        space_laws::<F, P>(),
    ensures
        a.plus_spec(b).plus_spec(c.plus_spec(d)) == a.plus_spec(c).plus_spec(b.plus_spec(d)),
{
    law_plus_assoc::<F, P>(a, b, c.plus_spec(d));
    law_plus_assoc::<F, P>(b, c, d);
    law_plus_comm::<F, P>(b, c);
    law_plus_assoc::<F, P>(c, b, d);
    law_plus_assoc::<F, P>(a, c, b.plus_spec(d));
}

/// `0 + x u == (0 + x) u + 0 t`
pub proof fn lemma_first_sums<F: Float, P: PVOps<F>>(x: P, u: F, t: F)
    requires
        space_laws::<F, P>(),
    ensures
        P::origin_spec().plus_spec(x.times_spec(u)) == P::origin_spec().plus_spec(x).times_spec(
            u,
        ).plus_spec(P::origin_spec().times_spec(t)),
{
    lemma_zero_plus::<F, P>(x);
    lemma_zero_plus::<F, P>(x.times_spec(u));
    law_zero_times::<F, P>(t);
    law_plus_zero::<F, P>(x.times_spec(u));
}

/// `(sl u + sr t) + (tl u + tr t) == (sl + tl) u + (sr + tr) t`
pub proof fn lemma_sums_joined<F: Float, P: PVOps<F>>(sl: P, sr: P, tl: P, tr: P, u: F, t: F)
    requires
        space_laws::<F, P>(),
    ensures
        sl.times_spec(u).plus_spec(sr.times_spec(t)).plus_spec(
            tl.times_spec(u).plus_spec(tr.times_spec(t)),
        ) == sl.plus_spec(tl).times_spec(u).plus_spec(sr.plus_spec(tr).times_spec(t)),
{
    lemma_plus_swap::<F, P>(
        sl.times_spec(u),
        sr.times_spec(t),
        tl.times_spec(u),
        tr.times_spec(t),
    );
    law_plus_times(sl, tl, u);
    law_plus_times(sr, tr, t);
}

/// `(x + sr t) + tr t == x + (sr + tr) t`
pub proof fn lemma_last_sum<F: Float, P: PVOps<F>>(x: P, sr: P, tr: P, t: F)
    requires
        space_laws::<F, P>(),
    ensures
        x.plus_spec(sr.times_spec(t)).plus_spec(tr.times_spec(t)) == x.plus_spec(
            sr.plus_spec(tr).times_spec(t),
        ),
{
    law_plus_assoc::<F, P>(x, sr.times_spec(t), tr.times_spec(t));
    law_plus_times(sr, tr, t);
}

/// `(a (b c)) d == ((a b) d) c` and `((a c) b) d == ((a b) d) c`
pub proof fn lemma_weights_moved<F: Float>(a: F, b: F, c: F, d: F)
    requires
        mul_laws::<F>(),
    ensures
        a.mul_spec(b.mul_spec(c)).mul_spec(d) == a.mul_spec(b).mul_spec(d).mul_spec(c),
        a.mul_spec(c).mul_spec(b).mul_spec(d) == a.mul_spec(b).mul_spec(d).mul_spec(c),
{
    let ab = a.mul_spec(b);
    law_mul_assoc(a, b, c);
    law_mul_assoc(ab, c, d);
    law_mul_comm(c, d);
    law_mul_assoc(ab, d, c);
    law_mul_assoc(a, c, b);
    law_mul_comm(c, b);
}

/// `e ((x d) c) == (x (d e)) c`
pub proof fn lemma_weight_taken_in<F: Float>(x: F, c: F, d: F, e: F)
    requires
        mul_laws::<F>(),
    ensures
        e.mul_spec(x.mul_spec(d).mul_spec(c)) == x.mul_spec(d.mul_spec(e)).mul_spec(c),
{
    let xd = x.mul_spec(d);
    law_mul_comm(e, xd.mul_spec(c));
    law_mul_assoc(xd, c, e);
    law_mul_comm(c, e);
    law_mul_assoc(xd, e, c);
    law_mul_assoc(x, d, e);
}

/// `(a + b) c == a c + b c`
pub proof fn lemma_sum_times<F: Float>(a: F, b: F, c: F)
    requires
        mul_laws::<F>(),
    ensures
        a.add_spec(b).mul_spec(c) == a.mul_spec(c).add_spec(b.mul_spec(c)),
{
    law_mul_comm(a.add_spec(b), c);
    law_mul_add(c, a, b);
    law_mul_comm(c, a);
    law_mul_comm(c, b);
}

/// A scalar that makes 1 when `z` is added to it is `1 - z`.
pub proof fn lemma_rest_of_one<F: Float>(y: F, z: F)
    requires
        sub_laws::<F>(),
        y.add_spec(z) == F::one_spec(),
    ensures
        y == F::one_spec().sub_spec(z),
{
    law_add_sub(y, z);
}

/// `((1 - t) + t) c == c`
pub proof fn lemma_whole_of<F: Float>(t: F, c: F)
    requires
        mul_laws::<F>(),
        sub_laws::<F>(),
    ensures
        F::one_spec().sub_spec(t).mul_spec(c).add_spec(t.mul_spec(c)) == c,
{
    let u = F::one_spec().sub_spec(t);
    lemma_sum_times(u, t, c);
    law_sub_add(F::one_spec(), t);
    law_mul_comm(F::one_spec(), c);
    law_mul_one(c);
}

} // verus!
