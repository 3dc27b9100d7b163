use vstd::prelude::*;

verus! {

/// The element type of a matrix: a copyable value with a zero, a one, an
/// addition and a multiplication.
///
/// Every operation is a deterministic function of its arguments, named by the
/// spec functions of the trait. Matrix products are stated over those names,
/// so the three multiplication strategies can be compared exactly, whatever
/// the element type.
pub trait Scalar: Copy + Send + Sync + Sized {
    spec fn zero_spec() -> Self;

    spec fn one_spec() -> Self;

    spec fn plus_spec(a: Self, b: Self) -> Self;

    spec fn times_spec(a: Self, b: Self) -> Self;

    fn zero() -> (r: Self)
        ensures
            r == Self::zero_spec(),
    ;

    fn one() -> (r: Self)
        ensures
            r == Self::one_spec(),
    ;

    fn plus(self, other: Self) -> (r: Self)
        ensures
            r == Self::plus_spec(self, other),
    ;

    fn times(self, other: Self) -> (r: Self)
        ensures
            r == Self::times_spec(self, other),
    ;
}

/// Signed 64-bit integers with two's-complement (wrapping) arithmetic.
impl Scalar for i64 {
    open spec fn zero_spec() -> i64 {
        0
    }

    open spec fn one_spec() -> i64 {
        1
    }

    open spec fn plus_spec(a: i64, b: i64) -> i64 {
        vstd::wrapping::i64_specs::wrapping_add(a, b)
    }

    open spec fn times_spec(a: i64, b: i64) -> i64 {
        vstd::wrapping::i64_specs::wrapping_mul(a, b)
    }

    fn zero() -> (r: i64) {
        0
    }

    fn one() -> (r: i64) {
        1
    }

    fn plus(self, other: i64) -> (r: i64) {
        self.wrapping_add(other)
    }

    fn times(self, other: i64) -> (r: i64) {
        self.wrapping_mul(other)
    }
}

} // verus!
