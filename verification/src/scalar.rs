use vstd::prelude::*;

verus! {

/// A decimal number written with digits: `mantissa * 10^exponent`, negated
/// where `negative` is set.
#[derive(Clone, Copy, Debug, PartialEq, Eq, Structural)]
pub struct Decimal {
    pub negative: bool,
    pub mantissa: u64,
    pub exponent: i32,
}

/// The numbers that the engine calculates with.
///
/// Every operation is total and is a function of its operands: the `spec_`
/// function beside each executable one is its mathematical model, and the
/// contracts of this crate are stated over these models. An implementation
/// meets the contracts by letting each operation return what its model
/// returns; to code that is compiled without the verifier the models are
/// functions like the others, to be implemented beside them.
pub trait Scalar: Sized + Copy {
    /// The neutral element of addition.
    spec fn spec_zero() -> Self;

    fn zero() -> (r: Self)
        ensures
            r == Self::spec_zero(),
    ;

    /// The neutral element of multiplication.
    spec fn spec_one() -> Self;

    fn one() -> (r: Self)
        ensures
            r == Self::spec_one(),
    ;

    /// The number of the type that stands for a decimal literal.
    spec fn spec_from_decimal(d: Decimal) -> Self;

    fn from_decimal(d: Decimal) -> (r: Self)
        ensures
            r == Self::spec_from_decimal(d),
    ;

    spec fn spec_plus(self, rhs: Self) -> Self;

    fn plus(self, rhs: Self) -> (r: Self)
        ensures
            r == self.spec_plus(rhs),
    ;

    spec fn spec_minus(self, rhs: Self) -> Self;

    fn minus(self, rhs: Self) -> (r: Self)
        ensures
            r == self.spec_minus(rhs),
    ;

    spec fn spec_times(self, rhs: Self) -> Self;

    fn times(self, rhs: Self) -> (r: Self)
        ensures
            r == self.spec_times(rhs),
    ;

    spec fn spec_over(self, rhs: Self) -> Self;

    fn over(self, rhs: Self) -> (r: Self)
        ensures
            r == self.spec_over(rhs),
    ;

    spec fn spec_negated(self) -> Self;

    fn negated(self) -> (r: Self)
        ensures
            r == self.spec_negated(),
    ;

    /// The absolute value.
    spec fn spec_magnitude(self) -> Self;

    fn magnitude(self) -> (r: Self)
        ensures
            r == self.spec_magnitude(),
    ;

    /// Whether the number compares equal to zero.
    spec fn spec_is_zero(self) -> bool;

    fn is_zero(self) -> (r: bool)
        ensures
            r == self.spec_is_zero(),
    ;

    /// Whether the number compares equal to one.
    spec fn spec_is_one(self) -> bool;

    fn is_one(self) -> (r: bool)
        ensures
            r == self.spec_is_one(),
    ;

    /// Whether the number is less than zero.
    spec fn spec_is_negative(self) -> bool;

    fn is_negative(self) -> (r: bool)
        ensures
            r == self.spec_is_negative(),
    ;

    /// The number in decimal notation with exactly three digits after the point.
    spec fn spec_to_fixed(self) -> String;

    fn to_fixed(self) -> (r: String)
        ensures
            r@ == self.spec_to_fixed()@,
    ;

    /// The number in its shortest decimal notation.
    spec fn spec_to_text(self) -> String;

    fn to_text(self) -> (r: String)
        ensures
            r@ == self.spec_to_text()@,
    ;
}

} // verus!
