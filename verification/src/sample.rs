//! The arithmetic that the signal path performs on samples and parameters.
//!
//! The engine is written once, over any number type that implements
//! [`Sample`]. Every operation is a total function of its operands, and each
//! executable method returns exactly what its specification function names,
//! so the contracts of the filters can say which value comes out without
//! fixing how numbers are represented.
use vstd::prelude::*;

verus! {

/// A number type on which the filters can run.
///
/// Each executable method has a specification function of the same name with
/// `_spec` appended, and must return that function's value. An
/// implementation may round, saturate or produce special values as it sees
/// fit, as long as it does so as a function of the operands alone.
pub trait Sample: Copy {
    /// The number that stands for `num / den` in the type.
    spec fn ratio_spec(num: i64, den: i64) -> Self;

    /// The sum of two numbers.
    spec fn plus_spec(self, rhs: Self) -> Self;

    /// The difference of two numbers.
    spec fn minus_spec(self, rhs: Self) -> Self;

    /// The product of two numbers.
    spec fn times_spec(self, rhs: Self) -> Self;

    /// The quotient of two numbers.
    spec fn over_spec(self, rhs: Self) -> Self;

    /// Ten raised to the power `self`.
    spec fn exp10_spec(self) -> Self;

    /// The whole number nearest to `self`.
    spec fn round_spec(self) -> Self;

    /// The whole part of a number as a count.
    spec fn truncate_spec(self) -> usize;

    /// Whether `self` is strictly below `rhs`.
    spec fn lt_spec(self, rhs: Self) -> bool;

    fn ratio(num: i64, den: i64) -> (r: Self)
        ensures
            r == Self::ratio_spec(num, den),
    ;

    fn plus(self, rhs: Self) -> (r: Self)
        ensures
            r == self.plus_spec(rhs),
    ;

    fn minus(self, rhs: Self) -> (r: Self)
        ensures
            r == self.minus_spec(rhs),
    ;

    fn times(self, rhs: Self) -> (r: Self)
        ensures
            r == self.times_spec(rhs),
    ;

    fn over(self, rhs: Self) -> (r: Self)
        ensures
            r == self.over_spec(rhs),
    ;

    fn exp10(self) -> (r: Self)
        ensures
            r == self.exp10_spec(),
    ;

    fn round(self) -> (r: Self)
        ensures
            r == self.round_spec(),
    ;

    fn truncate(self) -> (r: usize)
        ensures
            r == self.truncate_spec(),
    ;

    fn lt(self, rhs: Self) -> (r: bool)
        ensures
            r == self.lt_spec(rhs),
    ;
}

/// The number zero.
pub open spec fn zero<T: Sample>() -> T {
    T::ratio_spec(0, 1)
}

/// The number one.
pub open spec fn one<T: Sample>() -> T {
    T::ratio_spec(1, 1)
}

/// Whether zero and one are in `T` what they are among the numbers: adding
/// or taking away zero changes nothing, a product with zero is zero, a
/// product with one is the other factor, and one is not below itself.
///
/// Arithmetic that rounds or saturates can still have all of this; what is
/// shown of the filters under this condition holds of every such type.
pub open spec fn has_neutral_elements<T: Sample>() -> bool {
    &&& forall|a: T| #[trigger] zero::<T>().plus_spec(a) == a
    &&& forall|a: T| #[trigger] a.plus_spec(zero::<T>()) == a
    &&& forall|a: T| #[trigger] a.minus_spec(zero::<T>()) == a
    &&& forall|a: T| #[trigger] zero::<T>().times_spec(a) == zero::<T>()
    &&& forall|a: T| #[trigger] a.times_spec(zero::<T>()) == zero::<T>()
    &&& forall|a: T| #[trigger] a.times_spec(one::<T>()) == a
    &&& !one::<T>().lt_spec(one::<T>())
}

/// `x` held between `lo` and `hi`: `lo` where `x` is below it, `hi` where `x`
/// is above it, and `x` itself otherwise.
pub open spec fn clamp_spec<T: Sample>(x: T, lo: T, hi: T) -> T {
    if x.lt_spec(lo) {
        lo
    } else if hi.lt_spec(x) {
        hi
    } else {
        x
    }
}

/// Holds `x` between `lo` and `hi`.
pub fn clamp<T: Sample>(x: T, lo: T, hi: T) -> (r: T)
    ensures
        r == clamp_spec(x, lo, hi),
{
    if x.lt(lo) {
        lo
    } else if hi.lt(x) {
        hi
    } else {
        x
    }
}

} // verus!
