//! The arithmetic the simulation is carried out in.
//!
//! The simulation works on double-precision numbers, but it never looks inside one: it builds
//! them from their bit patterns and combines them with the handful of operations of [`Scalar`].
//! Everything the library proves is stated over the values those operations return.
use vstd::prelude::*;

verus! {

/// A number type with the operations of IEEE 754 double-precision arithmetic.
///
/// An implementation maps each method to the machine operation of the same meaning. None of the
/// operations may fail: dividing by zero or taking the root of a negative number returns whatever
/// the arithmetic defines for it (an infinity or a not-a-number value).
pub trait Scalar: Copy {
    /// The number whose binary64 encoding is `bits`.
    fn from_bits(bits: u64) -> Self;

    /// `self + rhs`.
    fn plus(self, rhs: Self) -> Self;

    /// `self - rhs`.
    fn minus(self, rhs: Self) -> Self;

    /// `self * rhs`.
    fn times(self, rhs: Self) -> Self;

    /// `self / rhs`.
    fn over(self, rhs: Self) -> Self;

    /// `-self`.
    fn negated(self) -> Self;

    /// The square root of `self`.
    fn root(self) -> Self;

    /// Whether `self` and `rhs` compare equal as numbers (positive and negative zero do).
    fn equals(self, rhs: Self) -> bool;

    /// Whether `self` is strictly below `rhs`.
    fn less_than(self, rhs: Self) -> bool;
}

/// The bit pattern of the number zero.
pub const ZERO_BITS: u64 = 0;

/// What `S::from_bits(bits)` evaluates to.
pub open spec fn of_bits<S: Scalar>(bits: u64) -> S {
    choose|r: S| call_ensures(S::from_bits, (bits,), r)
}

/// What `a.plus(b)` evaluates to.
pub open spec fn sum_of<S: Scalar>(a: S, b: S) -> S {
    choose|r: S| call_ensures(S::plus, (a, b), r)
}

/// What `a.minus(b)` evaluates to.
pub open spec fn difference_of<S: Scalar>(a: S, b: S) -> S {
    choose|r: S| call_ensures(S::minus, (a, b), r)
}

/// What `a.times(b)` evaluates to.
pub open spec fn product_of<S: Scalar>(a: S, b: S) -> S {
    choose|r: S| call_ensures(S::times, (a, b), r)
}

/// What `a.over(b)` evaluates to.
pub open spec fn quotient_of<S: Scalar>(a: S, b: S) -> S {
    choose|r: S| call_ensures(S::over, (a, b), r)
}

/// What `a.negated()` evaluates to.
pub open spec fn negation_of<S: Scalar>(a: S) -> S {
    choose|r: S| call_ensures(S::negated, (a,), r)
}

/// What `a.root()` evaluates to.
pub open spec fn root_of<S: Scalar>(a: S) -> S {
    choose|r: S| call_ensures(S::root, (a,), r)
}

/// What `a.equals(b)` evaluates to.
pub open spec fn are_equal<S: Scalar>(a: S, b: S) -> bool {
    choose|r: bool| call_ensures(S::equals, (a, b), r)
}

/// What `a.less_than(b)` evaluates to.
pub open spec fn is_less<S: Scalar>(a: S, b: S) -> bool {
    choose|r: bool| call_ensures(S::less_than, (a, b), r)
}

/// The number zero.
pub open spec fn zero<S: Scalar>() -> S {
    of_bits(ZERO_BITS)
}

/// The larger of two numbers: the second where the first is below it, else the first.
pub open spec fn larger_of<S: Scalar>(a: S, b: S) -> S {
    if is_less(a, b) {
        b
    } else {
        a
    }
}

/// Every operation of `S` is a function of its operands: evaluating it twice on the same
/// operands gives the same result, so that the names above denote what the calls return.
pub open spec fn deterministic<S: Scalar>() -> bool {
    &&& forall|bits: u64, r: S| #[trigger] call_ensures(S::from_bits, (bits,), r) ==> r == of_bits::<S>(bits)
    &&& forall|a: S, b: S, r: S| #[trigger] call_ensures(S::plus, (a, b), r) ==> r == sum_of(a, b)
    &&& forall|a: S, b: S, r: S| #[trigger] call_ensures(S::minus, (a, b), r) ==> r == difference_of(a, b)
    &&& forall|a: S, b: S, r: S| #[trigger] call_ensures(S::times, (a, b), r) ==> r == product_of(a, b)
    &&& forall|a: S, b: S, r: S| #[trigger] call_ensures(S::over, (a, b), r) ==> r == quotient_of(a, b)
    &&& forall|a: S, r: S| #[trigger] call_ensures(S::negated, (a,), r) ==> r == negation_of(a)
    &&& forall|a: S, r: S| #[trigger] call_ensures(S::root, (a,), r) ==> r == root_of(a)
    &&& forall|a: S, b: S, r: bool| #[trigger] call_ensures(S::equals, (a, b), r) ==> r == are_equal(a, b)
    &&& forall|a: S, b: S, r: bool| #[trigger] call_ensures(S::less_than, (a, b), r) ==> r == is_less(a, b)
}

/// The larger of two numbers, found with [`Scalar::less_than`].
pub fn larger<S: Scalar>(a: S, b: S) -> (r: S)
    ensures
        r == a || r == b,
        deterministic::<S>() ==> r == larger_of(a, b),
{
    if a.less_than(b) {
        b
    } else {
        a
    }
}

} // verus!
