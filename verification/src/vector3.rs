//! Three-component vectors over a [`Scalar`].
use crate::scalar::{
    are_equal, deterministic, difference_of, negation_of, product_of, quotient_of, root_of, sum_of,
    zero, Scalar, ZERO_BITS,
};
use core::ops::{Add, AddAssign, Div, Mul, Neg, Sub, SubAssign};
use vstd::prelude::*;

verus! {

/// A point or a direction in space, held by its three components.
#[derive(Debug)]
pub struct Vector3<S> {
    pub x: S,
    pub y: S,
    pub z: S,
}

impl<S: Copy> Copy for Vector3<S> {}

impl<S: Copy> Clone for Vector3<S> {
    fn clone(&self) -> (r: Self)
        ensures
            r == *self,
    {
        *self
    }
}

impl<S: Scalar> Vector3<S> {
    /// The vector whose components are all zero.
    pub open spec fn origin() -> Self {
        Vector3 { x: zero(), y: zero(), z: zero() }
    }

    /// The component-wise sum of two vectors.
    pub open spec fn plus(self, rhs: Self) -> Self {
        Vector3 {
            x: sum_of(self.x, rhs.x),
            y: sum_of(self.y, rhs.y),
            z: sum_of(self.z, rhs.z),
        }
    }

    /// The component-wise difference of two vectors.
    pub open spec fn minus(self, rhs: Self) -> Self {
        Vector3 {
            x: difference_of(self.x, rhs.x),
            y: difference_of(self.y, rhs.y),
            z: difference_of(self.z, rhs.z),
        }
    }

    /// Each component multiplied by `k`.
    pub open spec fn scaled(self, k: S) -> Self {
        Vector3 { x: product_of(self.x, k), y: product_of(self.y, k), z: product_of(self.z, k) }
    }

    /// Each component divided by `k`.
    pub open spec fn divided(self, k: S) -> Self {
        Vector3 { x: quotient_of(self.x, k), y: quotient_of(self.y, k), z: quotient_of(self.z, k) }
    }

    /// Each component negated.
    pub open spec fn opposite(self) -> Self {
        Vector3 { x: negation_of(self.x), y: negation_of(self.y), z: negation_of(self.z) }
    }

    /// The squared length `x*x + y*y + z*z`, summed from left to right.
    pub open spec fn squared_length(self) -> S {
        sum_of(
            sum_of(product_of(self.x, self.x), product_of(self.y, self.y)),
            product_of(self.z, self.z),
        )
    }

    /// The length: the square root of the squared length.
    pub open spec fn length(self) -> S {
        root_of(self.squared_length())
    }

    /// The vector divided by its own length.
    pub open spec fn unit(self) -> Self {
        self.divided(self.length())
    }

    /// Whether two vectors agree in each component, as numbers.
    pub open spec fn agrees_with(self, rhs: Self) -> bool {
        are_equal(self.x, rhs.x) && are_equal(self.y, rhs.y) && are_equal(self.z, rhs.z)
    }

    /// A vector from its three components.
    pub fn new(x: S, y: S, z: S) -> (r: Self)
        ensures
            r == (Vector3 { x, y, z }),
    {
        Vector3 { x, y, z }
    }

    /// The vector whose three components are zero.
    pub fn zeroed() -> (r: Self)
        ensures
            deterministic::<S>() ==> r == Self::origin(),
    {
        Vector3 { x: S::from_bits(ZERO_BITS), y: S::from_bits(ZERO_BITS), z: S::from_bits(ZERO_BITS) }
    }

    /// The first component.
    pub fn x(&self) -> (r: S)
        ensures
            r == self.x,
    {
        self.x
    }

    /// The second component.
    pub fn y(&self) -> (r: S)
        ensures
            r == self.y,
    {
        self.y
    }

    /// The third component.
    pub fn z(&self) -> (r: S)
        ensures
            r == self.z,
    {
        self.z
    }

    /// The squared length of the vector; needs no square root.
    pub fn magnitude_sqr(&self) -> (r: S)
        ensures
            deterministic::<S>() ==> r == self.squared_length(),
    {
        self.x.times(self.x).plus(self.y.times(self.y)).plus(self.z.times(self.z))
    }

    /// The length of the vector.
    pub fn magnitude(&self) -> (r: S)
        ensures
            deterministic::<S>() ==> r == self.length(),
    {
        self.magnitude_sqr().root()
    }

    /// Divides the vector by its own length, in place. On a vector of length zero the components
    /// become whatever the arithmetic gives for a division by zero.
    pub fn normalize(&mut self)
        ensures
            deterministic::<S>() ==> *final(self) == old(self).unit(),
    {
        let mag = self.magnitude();
        self.x = self.x.over(mag);
        self.y = self.y.over(mag);
        self.z = self.z.over(mag);
    }

    /// The vector divided by its own length. On a vector of length zero the components are
    /// whatever the arithmetic gives for a division by zero.
    pub fn normalized(&self) -> (r: Self)
        ensures
            deterministic::<S>() ==> r == self.unit(),
    {
        Vector3 {
            x: self.x.over(self.magnitude()),
            y: self.y.over(self.magnitude()),
            z: self.z.over(self.magnitude()),
        }
    }
}

impl<S: Scalar> Default for Vector3<S> {
    /// The vector whose three components are zero.
    fn default() -> (r: Self)
        ensures
            deterministic::<S>() ==> r == Self::origin(),
    {
        Self::zeroed()
    }
}

impl<S: Scalar> PartialEq for Vector3<S> {
    /// Whether the two vectors agree in each component, as numbers.
    fn eq(&self, other: &Self) -> (r: bool) {
        self.x.equals(other.x) && self.y.equals(other.y) && self.z.equals(other.z)
    }
}

impl<S: Scalar> vstd::std_specs::cmp::PartialEqSpecImpl for Vector3<S> {
    open spec fn obeys_eq_spec() -> bool {
        deterministic::<S>()
    }

    open spec fn eq_spec(&self, other: &Self) -> bool {
        self.agrees_with(*other)
    }
}

impl<S: Scalar> Add for Vector3<S> {
    type Output = Vector3<S>;

    fn add(self, rhs: Vector3<S>) -> (r: Vector3<S>) {
        Vector3 { x: self.x.plus(rhs.x), y: self.y.plus(rhs.y), z: self.z.plus(rhs.z) }
    }
}

impl<S: Scalar> vstd::std_specs::ops::AddSpecImpl for Vector3<S> {
    open spec fn obeys_add_spec() -> bool {
        deterministic::<S>()
    }

    open spec fn add_req(self, rhs: Vector3<S>) -> bool {
        true
    }

    open spec fn add_spec(self, rhs: Vector3<S>) -> Vector3<S> {
        self.plus(rhs)
    }
}

impl<S: Scalar> AddAssign for Vector3<S> {
    fn add_assign(&mut self, rhs: Vector3<S>)
        ensures
            deterministic::<S>() ==> *final(self) == old(self).plus(rhs),
    {
        *self = Vector3 { x: self.x.plus(rhs.x), y: self.y.plus(rhs.y), z: self.z.plus(rhs.z) };
    }
}

impl<S: Scalar> Sub for Vector3<S> {
    type Output = Vector3<S>;

    fn sub(self, rhs: Vector3<S>) -> (r: Vector3<S>) {
        Vector3 { x: self.x.minus(rhs.x), y: self.y.minus(rhs.y), z: self.z.minus(rhs.z) }
    }
}

impl<S: Scalar> vstd::std_specs::ops::SubSpecImpl for Vector3<S> {
    open spec fn obeys_sub_spec() -> bool {
        deterministic::<S>()
    }

    open spec fn sub_req(self, rhs: Vector3<S>) -> bool {
        true
    }

    open spec fn sub_spec(self, rhs: Vector3<S>) -> Vector3<S> {
        self.minus(rhs)
    }
}

impl<S: Scalar> SubAssign for Vector3<S> {
    fn sub_assign(&mut self, rhs: Vector3<S>)
        ensures
            deterministic::<S>() ==> *final(self) == old(self).minus(rhs),
    {
        *self = Vector3 { x: self.x.minus(rhs.x), y: self.y.minus(rhs.y), z: self.z.minus(rhs.z) };
    }
}

impl<S: Scalar> Mul<S> for Vector3<S> {
    type Output = Vector3<S>;

    fn mul(self, rhs: S) -> (r: Vector3<S>) {
        Vector3 { x: self.x.times(rhs), y: self.y.times(rhs), z: self.z.times(rhs) }
    }
}

impl<S: Scalar> vstd::std_specs::ops::MulSpecImpl<S> for Vector3<S> {
    open spec fn obeys_mul_spec() -> bool {
        deterministic::<S>()
    }

    open spec fn mul_req(self, rhs: S) -> bool {
        true
    }

    open spec fn mul_spec(self, rhs: S) -> Vector3<S> {
        self.scaled(rhs)
    }
}

impl<S: Scalar> Div<S> for Vector3<S> {
    type Output = Vector3<S>;

    fn div(self, rhs: S) -> (r: Vector3<S>) {
        Vector3 { x: self.x.over(rhs), y: self.y.over(rhs), z: self.z.over(rhs) }
    }
}

impl<S: Scalar> vstd::std_specs::ops::DivSpecImpl<S> for Vector3<S> {
    open spec fn obeys_div_spec() -> bool {
        deterministic::<S>()
    }

    open spec fn div_req(self, rhs: S) -> bool {
        true
    }

    open spec fn div_spec(self, rhs: S) -> Vector3<S> {
        self.divided(rhs)
    }
}

impl<S: Scalar> Neg for Vector3<S> {
    type Output = Vector3<S>;

    fn neg(self) -> (r: Vector3<S>) {
        Vector3 { x: self.x.negated(), y: self.y.negated(), z: self.z.negated() }
    }
}

impl<S: Scalar> vstd::std_specs::ops::NegSpecImpl for Vector3<S> {
    open spec fn obeys_neg_spec() -> bool {
        deterministic::<S>()
    }

    open spec fn neg_req(self) -> bool {
        true
    }

    open spec fn neg_spec(self) -> Vector3<S> {
        self.opposite()
    }
}

} // verus!
