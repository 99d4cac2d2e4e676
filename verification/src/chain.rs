//! Chains of curves of one order that share their end points, kept as one
//! flat sequence of points.

use std::marker::PhantomData;
use vstd::prelude::*;
use vstd::slice::{slice_subrange, slice_to_vec};
use crate::curve::{BezCurve, OrderStatic};
use crate::markers::Float;

verus! {

/// The number of whole curves of the order `order` in a chain of `len`
/// points: `floor((len - 1) / order)`. Points that are left over at the end
/// belong to no curve.
pub open spec fn curve_count_spec(len: nat, order: nat) -> nat {
    if len == 0 || order == 0 {
        0
    } else {
        ((len - 1) / (order as int)) as nat
    }
}

/// The control points of the curve `index` of a chain: the `order + 1`
/// points from `index * order` on.
pub open spec fn chain_curve<P>(points: Seq<P>, order: nat, index: nat) -> Seq<P> {
    points.subrange((index * order) as int, (index * order + order + 1) as int)
}

/// The curve `index` lies within a chain of `len` points.
pub proof fn lemma_curve_in_chain(len: nat, order: nat, index: nat)
    requires
        order >= 1,
        index < curve_count_spec(len, order),
    ensures
        index * order + order + 1 <= len,
{
    let count = curve_count_spec(len, order);
    assert(count * order <= len - 1) by (nonlinear_arith)
        requires
            count == (len - 1) / (order as int),
            order >= 1,
            len >= 1,
    ;
    assert((index + 1) * order <= count * order) by (nonlinear_arith)
        requires
            index + 1 <= count,
            order >= 1,
    ;
    assert((index + 1) * order == index * order + order) by (nonlinear_arith);
}

/// A chain of `k * order + 1` points holds exactly `k` curves.
pub proof fn lemma_curve_count_exact(k: nat, order: nat)
    requires
        order >= 1,
    ensures
        curve_count_spec(k * order + 1, order) == k,
{
    assert((k * order) as int / (order as int) == k) by (nonlinear_arith)
        requires
            order >= 1,
    ;
}

/// Each curve of a chain ends in the point in which the next one begins.
pub proof fn lemma_chain_shares_ends<P>(points: Seq<P>, order: nat, index: nat)
    requires
        order >= 1,
        index + 1 < curve_count_spec(points.len(), order),
    ensures
        chain_curve(points, order, index).last() == chain_curve(points, order, index + 1).first(),
        chain_curve(points, order, index).last() == points[((index + 1) * order) as int],
{
    lemma_curve_in_chain(points.len(), order, index);
    lemma_curve_in_chain(points.len(), order, index + 1);
    assert((index + 1) * order == index * order + order) by (nonlinear_arith);
}

/// A chain of `k * order + 1` points is parted into exactly `k` curves, and
/// each of them but the last ends in the point in which the next begins.
pub proof fn lemma_chain_partition<P>(points: Seq<P>, order: nat, k: nat)
    requires
        order >= 1,
        points.len() == k * order + 1,
    ensures
        curve_count_spec(points.len(), order) == k,
        forall|i: nat|
            i + 1 < k ==> (#[trigger] chain_curve(points, order, i)).last() == chain_curve(
                points,
                order,
                i + 1,
            ).first(),
{
    lemma_curve_count_exact(k, order);
    assert forall|i: nat| i + 1 < k implies (#[trigger] chain_curve(points, order, i)).last()
        == chain_curve(points, order, i + 1).first() by {
        lemma_chain_shares_ends(points, order, i);
    }
}

/// What is left of a chain when an iterator has taken a curve from it holds
/// the other curves of the chain: behind the first curve they come one
/// place earlier, before the last curve they keep their places. So the
/// curves come out the same from either end, in opposite orders.
pub proof fn lemma_chain_rest<P>(points: Seq<P>, order: nat, index: nat)
    requires
        order >= 1,
        index + 1 < curve_count_spec(points.len(), order),
    ensures
        chain_curve(points.skip(order as int), order, index) == chain_curve(
            points,
            order,
            index + 1,
        ),
        chain_curve(points.take(points.len() - order), order, index) == chain_curve(
            points,
            order,
            index,
        ),
{
    lemma_curve_in_chain(points.len(), order, index);
    lemma_curve_in_chain(points.len(), order, index + 1);
    assert((index + 1) * order == index * order + order) by (nonlinear_arith);
    assert(0 <= index * order) by (nonlinear_arith);
    assert(chain_curve(points.skip(order as int), order, index) =~= chain_curve(
        points,
        order,
        index + 1,
    ));
    assert(chain_curve(points.take(points.len() - order), order, index) =~= chain_curve(
        points,
        order,
        index,
    ));
}

/// Iterator over bezier curve chains
pub struct BezIter<'a, F: Float, B: BezCurve<F> + OrderStatic> {
    chain: &'a [B::Point],
    start: usize,
    len: usize,
    phantom: PhantomData<F>,
}

impl<'a, F: Float, B: BezCurve<F> + OrderStatic> BezIter<'a, F, B> {
    /// The iterator's window lies within the chain.
    pub closed spec fn wf(&self) -> bool {
        self.start + self.len <= self.chain@.len() <= usize::MAX
    }

    /// The points that the iterator has not passed yet.
    pub closed spec fn points(&self) -> Seq<B::Point> {
        self.chain@.subrange(self.start as int, self.start + self.len)
    }

    /// The number of curves that are left.
    pub open spec fn remaining(&self) -> nat {
        curve_count_spec(self.points().len(), B::order_static_spec())
    }

    /// The first curve that is left, or `None` when none is. The iterator
    /// then goes on behind that curve's points but the last.
    pub fn next(&mut self) -> (r: Option<B>)
        requires
            old(self).wf(),
            B::order_static_spec() >= 1,
        ensures
            final(self).wf(),
            old(self).remaining() == 0 ==> r.is_none() && final(self).points() == old(
                self,
            ).points(),
            old(self).remaining() > 0 ==> {
                &&& final(self).points() == old(self).points().skip(B::order_static_spec() as int)
                &&& final(self).remaining() == old(self).remaining() - 1
                &&& r.is_some() == B::accepts(B::order_static_spec() + 1)
                &&& r matches Some(c) ==> c.wf() && c.points() == chain_curve(
                    old(self).points(),
                    B::order_static_spec(),
                    0,
                )
            },
    {
        let order = B::order_static();
        if self.len <= order {
            proof {
                lemma_count_step(self.len as nat, order as nat);
            }
            None
        } else {
            proof {
                lemma_count_step(self.len as nat, order as nat);
                assert(0 * order == 0) by (nonlinear_arith);
            }
            let slice = slice_subrange(self.chain, self.start, self.start + order + 1);
            assert(slice@ =~= chain_curve(self.points(), order as nat, 0));
            self.start = self.start + order;
            self.len = self.len - order;
            assert(self.points() =~= old(self).points().skip(order as int));
            B::from_slice(slice)
        }
    }

    /// The number of curves that are left, as both bounds.
    pub fn size_hint(&self) -> (r: (usize, Option<usize>))
        requires
            self.wf(),
            B::order_static_spec() >= 1,
        ensures
            r.0 == self.remaining(),
            r.1 == Some(r.0),
    {
        let order = B::order_static();
        let size = if self.len == 0 {
            0
        } else {
            (self.len - 1) / order
        };
        (size, Some(size))
    }

    /// The last curve that is left, or `None` when none is. Points at the
    /// end that fill no curve are passed over.
    pub fn next_back(&mut self) -> (r: Option<B>)
        requires
            old(self).wf(),
            B::order_static_spec() >= 1,
        ensures
            final(self).wf(),
            old(self).remaining() == 0 ==> r.is_none() && final(self).points() == old(
                self,
            ).points(),
            old(self).remaining() > 0 ==> {
                &&& final(self).points() == old(self).points().take(
                    old(self).points().len() - B::order_static_spec(),
                )
                &&& final(self).remaining() == old(self).remaining() - 1
                &&& r.is_some() == B::accepts(B::order_static_spec() + 1)
                &&& r matches Some(c) ==> c.wf() && c.points() == chain_curve(
                    old(self).points(),
                    B::order_static_spec(),
                    (old(self).remaining() - 1) as nat,
                )
            },
    {
        let order = B::order_static();
        if self.len <= order {
            proof {
                lemma_count_step(self.len as nat, order as nat);
            }
            None
        } else {
            // If there are any control points in the iterator that can't be
            // used to create a full curve, ignore them.
            let end = self.len - (self.len - 1) % order;
            proof {
                lemma_count_step(self.len as nat, order as nat);
                lemma_last_curve(self.len as nat, order as nat);
            }
            let slice = slice_subrange(
                self.chain,
                self.start + (end - order - 1),
                self.start + end,
            );
            assert(slice@ =~= chain_curve(
                self.points(),
                order as nat,
                (self.remaining() - 1) as nat,
            ));
            self.len = self.len - order;
            assert(self.points() =~= old(self).points().take(old(self).len - order));
            B::from_slice(slice)
        }
    }
}

/// Taking `order` points away from a chain that holds a curve takes one
/// curve away.
pub proof fn lemma_count_step(len: nat, order: nat)
    requires
        order >= 1,
    ensures
        len <= order <==> curve_count_spec(len, order) == 0,
        len > order ==> curve_count_spec((len - order) as nat, order) == curve_count_spec(
            len,
            order,
        ) - 1,
{
    if len > order {
        assert((len - 1) / (order as int) >= 1 && (len - 1 - order) / (order as int) == (len - 1)
            / (order as int) - 1) by (nonlinear_arith)
            requires
                len > order,
                order >= 1,
        ;
    } else if len > 0 {
        assert((len - 1) / (order as int) == 0) by (nonlinear_arith)
            requires
                0 < len <= order,
        ;
    }
}

/// Where the last whole curve of a chain lies.
pub proof fn lemma_last_curve(len: nat, order: nat)
    requires
        order >= 1,
        len > order,
    ensures
        len - (len - 1) % (order as int) == curve_count_spec(len, order) * order + 1,
        order + 1 <= curve_count_spec(len, order) * order + 1 <= len,
        (curve_count_spec(len, order) - 1) * order == curve_count_spec(len, order) * order - order,
{
    let count = curve_count_spec(len, order);
    assert(count >= 1 && count * order <= len - 1) by (nonlinear_arith)
        requires
            count == (len - 1) / (order as int),
            order >= 1,
            len > order,
    ;
    assert(count * order >= order && (count - 1) * order == count * order - order)
        by (nonlinear_arith)
        requires
            count >= 1,
            order >= 1,
    ;
    assert((len - 1) == order * ((len - 1) / (order as int)) + (len - 1) % (order as int))
        by (nonlinear_arith)
        requires
            order >= 1,
    ;
    assert(order * ((len - 1) / (order as int)) == ((len - 1) / (order as int)) * order)
        by (nonlinear_arith);
}

/// A chain of bezier curves, with the last point of each curve being the
/// first point of the next.
#[derive(Debug)]
pub struct BezChain<F: Float, B: BezCurve<F> + OrderStatic> {
    points: Vec<B::Point>,
    phantom: PhantomData<F>,
}

impl<F: Float, B: BezCurve<F> + OrderStatic> BezChain<F, B> {
    /// The points of the chain.
    pub closed spec fn points(&self) -> Seq<B::Point> {
        self.points@
    }

    /// The number of curves in the chain.
    pub open spec fn curve_count_spec(&self) -> nat {
        curve_count_spec(self.points().len(), B::order_static_spec())
    }

    /// Create a new BezChain by wrapping around a container.
    #[inline]
    pub fn from_container(container: Vec<B::Point>) -> (r: BezChain<F, B>)
        ensures
            r.points() == container@,
    {
        BezChain { points: container, phantom: PhantomData }
    }

    /// The number of whole curves in the chain. Points at the end that fill
    /// no curve are not counted.
    pub fn curve_count(&self) -> (r: usize)
        requires
            B::order_static_spec() >= 1,
        ensures
            r == self.curve_count_spec(),
    {
        let len = self.points.len();
        let order = B::order_static();
        if len == 0 {
            0
        } else {
            (len - 1) / order
        }
    }

    /// Get the bezier curve that is `index` curves away from the start.
    /// Returns `None` if not enough points exist for the given curve index.
    pub fn get(&self, index: usize) -> (r: Option<B>)
        requires
            B::order_static_spec() >= 1,
        ensures
            r.is_some() == (index < self.curve_count_spec() && B::accepts(
                B::order_static_spec() + 1,
            )),
            r matches Some(c) ==> c.wf() && c.points() == chain_curve(
                self.points(),
                B::order_static_spec(),
                index as nat,
            ),
    {
        let order = B::order_static();
        if index >= self.curve_count() {
            None
        } else {
            proof {
                let len = self.points.len() as int;
                let count = (len - 1) / (order as int);
                assert(0 <= index * order && index * order + order + 1 <= len)
                    by (nonlinear_arith)
                    requires
                        count == (len - 1) / (order as int),
                        0 <= index < count,
                        order >= 1,
                        len >= 1,
                ;
            }
            let curve_index = index * order;
            let curve_end_index = curve_index + order + 1;
            B::from_slice(slice_subrange(self.points.as_slice(), curve_index, curve_end_index))
        }
    }

    /// Get an iterator over all curves in the chain.
    #[inline]
    pub fn iter(&self) -> (r: BezIter<'_, F, B>)
        ensures
            r.wf(),
            r.points() == self.points(),
    {
        let chain = self.points.as_slice();
        let r = BezIter { chain: chain, start: 0, len: chain.len(), phantom: PhantomData };
        assert(r.points() =~= self.points());
        r
    }

    /// Get the order of the chain's curves. Identical to order_static().
    #[inline]
    pub fn order(&self) -> (r: usize)
        ensures
            r == B::order_static_spec(),
    {
        B::order_static()
    }

    /// Unwrap the chain, returning the underlying container.
    #[inline]
    pub fn unwrap(self) -> (r: Vec<B::Point>)
        ensures
            r@ == self.points(),
    {
        self.points
    }

    /// The points of the chain.
    pub fn as_ref(&self) -> (r: &Vec<B::Point>)
        ensures
            r@ == self.points(),
    {
        &self.points
    }

    /// The points of the chain, to be changed in place. What is done to
    /// them is done to the chain: it keeps nothing else.
    pub fn as_mut(&mut self) -> (r: &mut Vec<B::Point>)
        ensures
            r@ == old(self).points(),
            final(self).points() == final(r)@,
    {
        &mut self.points
    }
}

impl<F: Float, B: BezCurve<F> + OrderStatic> Clone for BezChain<F, B> {
    fn clone(&self) -> (r: Self)
        ensures
            r.points() == self.points(),
    {
        BezChain { points: slice_to_vec(self.points.as_slice()), phantom: PhantomData }
    }
}

impl<F: Float, B: BezCurve<F> + OrderStatic> OrderStatic for BezChain<F, B> {
    open spec fn order_static_spec() -> nat {
        B::order_static_spec()
    }

    #[inline]
    fn order_static() -> (r: usize) {
        B::order_static()
    }
}

} // verus!
