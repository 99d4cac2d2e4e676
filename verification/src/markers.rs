//! The arithmetic that the curve algebra needs from scalars, points and
//! vectors. Each operation has a specification function that names its
//! result, so that contracts elsewhere can state exactly which operations a
//! curve function performs, and in which order.

use vstd::prelude::*;

verus! {

/// A scalar: the type of a curve parameter `t` and of every weight.
///
/// An implementation promises that each operation is a function of its
/// arguments alone: the same arguments give the same result. The
/// specification functions name those results. Their signatures hold plain
/// Rust types only, so that unverified code can implement the trait;
/// compiled code never calls them.
pub trait Float: Sized + Copy {
    /// The additive identity.
    spec fn zero_spec() -> Self;

    /// The multiplicative identity.
    spec fn one_spec() -> Self;

    /// The scalar that stands for the integer `n`.
    spec fn from_u64_spec(n: u64) -> Self;

    /// Sum of two scalars.
    spec fn add_spec(self, rhs: Self) -> Self;

    /// Difference of two scalars.
    spec fn sub_spec(self, rhs: Self) -> Self;

    /// Product of two scalars.
    spec fn mul_spec(self, rhs: Self) -> Self;

    /// Quotient of two scalars.
    spec fn div_spec(self, rhs: Self) -> Self;

    /// Additive inverse.
    spec fn neg_spec(self) -> Self;

    /// `self` raised to the power `n`.
    spec fn powi_spec(self, n: u32) -> Self;

    /// The square root.
    spec fn sqrt_spec(self) -> Self;

    /// The order on scalars: `self <= rhs`.
    spec fn le_spec(self, rhs: Self) -> bool;

    fn zero() -> (r: Self)
        ensures
            r == Self::zero_spec(),
    ;

    fn one() -> (r: Self)
        ensures
            r == Self::one_spec(),
    ;

    fn from_u64(n: u64) -> (r: Self)
        ensures
            r == Self::from_u64_spec(n as u64),
    ;

    fn from_u32(n: u32) -> (r: Self)
        ensures
            r == Self::from_u64_spec(n as u64),
    ;

    fn from_usize(n: usize) -> (r: Self)
        ensures
            r == Self::from_u64_spec(n as u64),
    ;

    fn add(self, rhs: Self) -> (r: Self)
        ensures
            r == self.add_spec(rhs),
    ;

    fn sub(self, rhs: Self) -> (r: Self)
        ensures
            r == self.sub_spec(rhs),
    ;

    fn mul(self, rhs: Self) -> (r: Self)
        ensures
            r == self.mul_spec(rhs),
    ;

    fn div(self, rhs: Self) -> (r: Self)
        ensures
            r == self.div_spec(rhs),
    ;

    fn neg(self) -> (r: Self)
        ensures
            r == self.neg_spec(),
    ;

    fn powi(self, n: u32) -> (r: Self)
        ensures
            r == self.powi_spec(n),
    ;

    fn sqrt(self) -> (r: Self)
        ensures
            r == self.sqrt_spec(),
    ;

    fn le(self, rhs: Self) -> (r: bool)
        ensures
            r == self.le_spec(rhs),
    ;
}

/// The scalar that stands for the natural number `n`.
pub open spec fn scalar<F: Float>(n: nat) -> F {
    F::from_u64_spec(n as u64)
}

/// The power `base^n`.
pub open spec fn power<F: Float>(base: F, n: nat) -> F {
    base.powi_spec(n as u32)
}

/// The operations shared by points and vectors over the scalar `F`.
///
/// The names differ from those of `Float` because a scalar is itself a point
/// on the line, and a vector along it.
pub trait PVOps<F: Float>: Sized + Copy {
    /// The additive identity.
    spec fn origin_spec() -> Self;

    /// Componentwise sum.
    spec fn plus_spec(self, rhs: Self) -> Self;

    /// Componentwise difference.
    spec fn minus_spec(self, rhs: Self) -> Self;

    /// Every component multiplied by `rhs`.
    spec fn times_spec(self, rhs: F) -> Self;

    /// Every component divided by `rhs`.
    spec fn over_spec(self, rhs: F) -> Self;

    fn origin() -> (r: Self)
        ensures
            r == Self::origin_spec(),
    ;

    fn plus(self, rhs: Self) -> (r: Self)
        ensures
            r == self.plus_spec(rhs),
    ;

    fn minus(self, rhs: Self) -> (r: Self)
        ensures
            r == self.minus_spec(rhs),
    ;

    fn times(self, rhs: F) -> (r: Self)
        ensures
            r == self.times_spec(rhs),
    ;

    fn over(self, rhs: F) -> (r: Self)
        ensures
            r == self.over_spec(rhs),
    ;
}

/// A vector: a difference of points.
pub trait Vector<F: Float>: PVOps<F> {
}

/// A point, with the vector type that its differences have.
pub trait Point<F: Float>: PVOps<F> {
    type Vector: Vector<F>;

    /// The vector with the coordinates of this point.
    spec fn into_vector_spec(self) -> Self::Vector;

    fn into_vector(self) -> (r: Self::Vector)
        ensures
            r == self.into_vector_spec(),
    ;
}

impl<F: Float> PVOps<F> for F {
    open spec fn origin_spec() -> F {
        F::zero_spec()
    }

    open spec fn plus_spec(self, rhs: F) -> F {
        self.add_spec(rhs)
    }

    open spec fn minus_spec(self, rhs: F) -> F {
        self.sub_spec(rhs)
    }

    open spec fn times_spec(self, rhs: F) -> F {
        self.mul_spec(rhs)
    }

    open spec fn over_spec(self, rhs: F) -> F {
        self.div_spec(rhs)
    }

    fn origin() -> F {
        F::zero()
    }

    fn plus(self, rhs: F) -> F {
        self.add(rhs)
    }

    fn minus(self, rhs: F) -> F {
        self.sub(rhs)
    }

    fn times(self, rhs: F) -> F {
        self.mul(rhs)
    }

    fn over(self, rhs: F) -> F {
        self.div(rhs)
    }
}

impl<F: Float> Vector<F> for F {
}

impl<F: Float> Point<F> for F {
    type Vector = F;

    open spec fn into_vector_spec(self) -> F {
        self
    }

    fn into_vector(self) -> F {
        self
    }
}

} // verus!
