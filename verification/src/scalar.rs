use vstd::prelude::*;

verus! {

/// The element type of all tensors in this crate.
///
/// The training core never interprets the numeric value of an element:
/// every arithmetic step goes through this interface, and the caller
/// chooses the concrete number type when instantiating the components.
///
/// Each executable operation is paired with an abstract specification
/// twin (`plus` with `plus_spec`, and so on). The twins are uninterpreted:
/// nothing in this crate says what they compute, only that each operation
/// returns exactly the value its twin names — that is, that the operation
/// is a function of its arguments. On top of these twins the crate's
/// contracts pin down, element by element, *which* operations every
/// component applies to *which* operands, while what the operations
/// compute (ordinary real arithmetic, in the intended instantiation)
/// remains the implementing type's own affair.
pub trait Scalar: Sized + Copy {
    /// The additive identity of the number type.
    spec fn zero_spec() -> Self;

    /// The number `n` embedded into the type.
    spec fn of_usize_spec(n: usize) -> Self;

    spec fn plus_spec(self, other: Self) -> Self;

    spec fn minus_spec(self, other: Self) -> Self;

    spec fn times_spec(self, other: Self) -> Self;

    spec fn div_by_spec(self, other: Self) -> Self;

    spec fn neg_spec(self) -> Self;

    spec fn max_with_spec(self, other: Self) -> Self;

    spec fn is_positive_spec(self) -> bool;

    spec fn exp_spec(self) -> Self;

    spec fn ln_spec(self) -> Self;

    spec fn sqrt_spec(self) -> Self;

    /// The additive identity of the number type.
    fn zero() -> (r: Self)
        ensures
            r == Self::zero_spec(),
    ;

    /// The number `n` embedded into the type (used for counts such as a
    /// batch size, and for fixed rationals such as the logarithm guard).
    fn of_usize(n: usize) -> (r: Self)
        ensures
            r == Self::of_usize_spec(n),
    ;

    fn plus(self, other: Self) -> (r: Self)
        ensures
            r == self.plus_spec(other),
    ;

    fn minus(self, other: Self) -> (r: Self)
        ensures
            r == self.minus_spec(other),
    ;

    fn times(self, other: Self) -> (r: Self)
        ensures
            r == self.times_spec(other),
    ;

    fn div_by(self, other: Self) -> (r: Self)
        ensures
            r == self.div_by_spec(other),
    ;

    fn neg(self) -> (r: Self)
        ensures
            r == self.neg_spec(),
    ;

    /// The larger of the two values.
    fn max_with(self, other: Self) -> (r: Self)
        ensures
            r == self.max_with_spec(other),
    ;

    /// Whether the value is strictly greater than zero.
    fn is_positive(self) -> (r: bool)
        ensures
            r == self.is_positive_spec(),
    ;

    fn exp(self) -> (r: Self)
        ensures
            r == self.exp_spec(),
    ;

    fn ln(self) -> (r: Self)
        ensures
            r == self.ln_spec(),
    ;

    fn sqrt(self) -> (r: Self)
        ensures
            r == self.sqrt_spec(),
    ;
}

/// A caller-owned source of randomness for parameter initialization.
///
/// The initializer scales these draws itself, so an implementation only has
/// to produce draws from the standard normal distribution (mean 0,
/// standard deviation 1). No contract constrains the draws: nothing can be
/// promised of a random value.
pub trait RandomSource<A: Scalar> {
    fn sample_standard_normal(&mut self) -> A;
}

} // verus!
