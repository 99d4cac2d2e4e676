//! Bézier curves whose order is part of their type.

use std::marker::PhantomData;
use vstd::prelude::*;
use vstd::slice::slice_to_vec;
use crate::algebra::{elevate_points, interp_points, slope_points, split_points};
use crate::binomial::{coefficients, MAX_ORDER};
use crate::curve::{BezCurve, OrderStatic};
use crate::markers::{Float, Point};
use crate::nbez::NBez;

verus! {

/// A curve of the order `ORDER`, which has `ORDER + 1` control points. The
/// orders from 1 to `MAX_ORDER` are supported.
#[derive(Debug)]
pub struct Bez<F: Float, P: Point<F>, const ORDER: usize> {
    points: Vec<P>,
    phantom: PhantomData<F>,
}

/// Order 1 bezier curve: a straight segment
pub type Bez1o<F, P> = Bez<F, P, 1>;

/// Order 2 bezier curve
pub type Bez2o<F, P> = Bez<F, P, 2>;

/// Order 3 bezier curve
pub type Bez3o<F, P> = Bez<F, P, 3>;

/// Order 4 bezier curve
pub type Bez4o<F, P> = Bez<F, P, 4>;

/// Order 5 bezier curve
pub type Bez5o<F, P> = Bez<F, P, 5>;

/// Order 6 bezier curve
pub type Bez6o<F, P> = Bez<F, P, 6>;

impl<F: Float, P: Point<F>, const ORDER: usize> Bez<F, P, ORDER> {
    /// The control points.
    pub fn as_ref(&self) -> (r: &Vec<P>)
        ensures
            r@ == self.points(),
    {
        &self.points
    }

    /// Replaces the control point `index`.
    pub fn set(&mut self, index: usize, point: P)
        requires
            old(self).wf(),
            index < old(self).points().len(),
        ensures
            final(self).wf(),
            final(self).points() == old(self).points().update(index as int, point),
    {
        self.points.set(index, point);
    }
}

impl<F: Float, P: Point<F>> Bez<F, P, 1> {
    /// The curve through the given control points, first to last.
    pub fn new(start: P, end: P) -> (r: Self)
        ensures
            r.wf(),
            r.points() == seq![start, end],
    {
        Bez { points: vec![start, end], phantom: PhantomData }
    }
}

impl<F: Float, P: Point<F>> Bez<F, P, 2> {
    /// The curve through the given control points, first to last.
    pub fn new(start: P, ctrl: P, end: P) -> (r: Self)
        ensures
            r.wf(),
            r.points() == seq![start, ctrl, end],
    {
        Bez { points: vec![start, ctrl, end], phantom: PhantomData }
    }
}

impl<F: Float, P: Point<F>> Bez<F, P, 3> {
    /// The curve through the given control points, first to last.
    pub fn new(start: P, ctrl0: P, ctrl1: P, end: P) -> (r: Self)
        ensures
            r.wf(),
            r.points() == seq![start, ctrl0, ctrl1, end],
    {
        Bez { points: vec![start, ctrl0, ctrl1, end], phantom: PhantomData }
    }
}

impl<F: Float, P: Point<F>> Bez<F, P, 4> {
    /// The curve through the given control points, first to last.
    pub fn new(start: P, ctrl0: P, ctrl1: P, ctrl2: P, end: P) -> (r: Self)
        ensures
            r.wf(),
            r.points() == seq![start, ctrl0, ctrl1, ctrl2, end],
    {
        Bez { points: vec![start, ctrl0, ctrl1, ctrl2, end], phantom: PhantomData }
    }
}

impl<F: Float, P: Point<F>> Bez<F, P, 5> {
    /// The curve through the given control points, first to last.
    pub fn new(start: P, ctrl0: P, ctrl1: P, ctrl2: P, ctrl3: P, end: P) -> (r: Self)
        ensures
            r.wf(),
            r.points() == seq![start, ctrl0, ctrl1, ctrl2, ctrl3, end],
    {
        Bez { points: vec![start, ctrl0, ctrl1, ctrl2, ctrl3, end], phantom: PhantomData }
    }
}

impl<F: Float, P: Point<F>> Bez<F, P, 6> {
    /// The curve through the given control points, first to last.
    pub fn new(start: P, ctrl0: P, ctrl1: P, ctrl2: P, ctrl3: P, ctrl4: P, end: P) -> (r: Self)
        ensures
            r.wf(),
            r.points() == seq![start, ctrl0, ctrl1, ctrl2, ctrl3, ctrl4, end],
    {
        Bez { points: vec![start, ctrl0, ctrl1, ctrl2, ctrl3, ctrl4, end], phantom: PhantomData }
    }
}

impl<F: Float, P: Point<F>, const ORDER: usize> Clone for Bez<F, P, ORDER> {
    fn clone(&self) -> (r: Self)
        ensures
            r.points() == self.points(),
    {
        Bez { points: slice_to_vec(self.points.as_slice()), phantom: PhantomData }
    }
}

impl<F: Float, P: Point<F>, const ORDER: usize> BezCurve<F> for Bez<F, P, ORDER> {
    type Point = P;

    type Elevated = NBez<F, P>;

    closed spec fn points(&self) -> Seq<P> {
        self.points@
    }

    closed spec fn wf(&self) -> bool {
        &&& 1 <= ORDER <= MAX_ORDER
        &&& self.points@.len() == ORDER + 1
    }

    open spec fn raised_points(e: &NBez<F, P>) -> Seq<P> {
        e.points()
    }

    open spec fn raised_wf(e: &NBez<F, P>) -> bool {
        e.wf()
    }

    open spec fn accepts(len: nat) -> bool {
        1 <= ORDER <= MAX_ORDER && len == ORDER + 1
    }

    proof fn lemma_wf_len(&self) {
    }

    fn from_slice(slice: &[P]) -> (r: Option<Self>) {
        if ORDER < 1 || ORDER > MAX_ORDER || slice.len() != ORDER + 1 {
            None
        } else {
            Some(Bez { points: slice_to_vec(slice), phantom: PhantomData })
        }
    }

    fn interp_unbounded(&self, t: F) -> (r: P) {
        let factors = coefficients(ORDER);
        interp_points(self.points.as_slice(), factors.as_slice(), t)
    }

    fn slope_unbounded(&self, t: F) -> (r: P::Vector) {
        let dfactors = coefficients(ORDER - 1);
        slope_points(self.points.as_slice(), dfactors.as_slice(), t).into_vector()
    }

    fn elevate(&self) -> (r: NBez<F, P>) {
        NBez::from_container(elevate_points::<F, P>(self.points.as_slice()))
    }

    fn split_unbounded(&self, t: F) -> (r: (Self, Self)) {
        let (left, right) = split_points(self.points.as_slice(), t);
        (Bez { points: left, phantom: PhantomData }, Bez { points: right, phantom: PhantomData })
    }

    fn order(&self) -> (r: usize) {
        ORDER
    }
}

impl<F: Float, P: Point<F>, const ORDER: usize> OrderStatic for Bez<F, P, ORDER> {
    open spec fn order_static_spec() -> nat {
        ORDER as nat
    }

    #[inline]
    fn order_static() -> (r: usize) {
        ORDER
    }
}

} // verus!
