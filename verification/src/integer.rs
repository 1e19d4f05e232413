//! What an operand type has to offer: a bounded range of integers with
//! checked-by-contract arithmetic.
use crate::truncating::{trunc_div, trunc_rem};
use vstd::prelude::*;

verus! {

/// A type of bounded integers.
///
/// Each value stands for one mathematical integer, [`Integer::as_int`], and
/// the type holds every integer from [`Integer::min_int`] to
/// [`Integer::max_int`]. The operations compute over those integers; each
/// asks that its result lies in the range, so none of them wraps or stops
/// the program. Division and remainder round toward zero.
pub trait Integer: Copy + Sized {
    /// The integer that the value stands for.
    spec fn as_int(self) -> int;

    /// The least integer of the type.
    spec fn min_int() -> int;

    /// The greatest integer of the type.
    spec fn max_int() -> int;

    /// Every value lies between the two limits.
    proof fn lemma_range(self)
        ensures
            Self::min_int() <= self.as_int() <= Self::max_int(),
    ;

    /// The range holds zero and one.
    proof fn lemma_limits()
        ensures
            Self::min_int() <= 0,
            1 <= Self::max_int(),
    ;

    /// The additive identity.
    fn zero() -> (r: Self)
        ensures
            r.as_int() == 0,
    ;

    /// The multiplicative identity.
    fn one() -> (r: Self)
        ensures
            r.as_int() == 1,
    ;

    /// The value that stands for `n`, where the type holds it.
    fn from_i8(n: i8) -> (r: Option<Self>)
        ensures
            r.is_some() <==> Self::min_int() <= n <= Self::max_int(),
            r matches Some(v) ==> v.as_int() == n,
    ;

    /// The value that stands for `n`, where the type holds it.
    fn from_u128(n: u128) -> (r: Option<Self>)
        ensures
            r.is_some() <==> n <= Self::max_int(),
            r matches Some(v) ==> v.as_int() == n,
    ;

    /// Whether two values stand for the same integer.
    fn equals(self, rhs: Self) -> (r: bool)
        ensures
            r == (self.as_int() == rhs.as_int()),
    ;

    /// The sum.
    fn plus(self, rhs: Self) -> (r: Self)
        requires
            Self::min_int() <= self.as_int() + rhs.as_int() <= Self::max_int(),
        ensures
            r.as_int() == self.as_int() + rhs.as_int(),
    ;

    /// The difference.
    fn minus(self, rhs: Self) -> (r: Self)
        requires
            Self::min_int() <= self.as_int() - rhs.as_int() <= Self::max_int(),
        ensures
            r.as_int() == self.as_int() - rhs.as_int(),
    ;

    /// The product.
    fn times(self, rhs: Self) -> (r: Self)
        requires
            Self::min_int() <= self.as_int() * rhs.as_int() <= Self::max_int(),
        ensures
            r.as_int() == self.as_int() * rhs.as_int(),
    ;

    /// The quotient, rounded toward zero.
    fn quotient(self, rhs: Self) -> (r: Self)
        requires
            rhs.as_int() != 0,
            Self::min_int() <= trunc_div(self.as_int(), rhs.as_int()) <= Self::max_int(),
        ensures
            r.as_int() == trunc_div(self.as_int(), rhs.as_int()),
    ;

    /// The remainder of the division that rounds toward zero. It asks what
    /// the quotient asks: the machine computes neither where the quotient is
    /// out of range.
    fn remainder(self, rhs: Self) -> (r: Self)
        requires
            rhs.as_int() != 0,
            Self::min_int() <= trunc_div(self.as_int(), rhs.as_int()) <= Self::max_int(),
        ensures
            r.as_int() == trunc_rem(self.as_int(), rhs.as_int()),
    ;
}

/// Whether `T` holds the integer `x`.
pub open spec fn in_range<T: Integer>(x: int) -> bool {
    T::min_int() <= x <= T::max_int()
}

/// An [`Integer`] type whose range is that of a two's complement machine
/// integer: it reaches one further below zero than above.
pub trait Signed: Integer {
    /// The least integer is the negation of the greatest, less one.
    proof fn lemma_signed()
        ensures
            Self::min_int() == -Self::max_int() - 1,
    ;
}

/// An [`Integer`] type without negative values, no wider than 128 bits.
pub trait Unsigned: Integer {
    /// The least integer is zero.
    proof fn lemma_unsigned()
        ensures
            Self::min_int() == 0,
    ;

    /// The same integer in the widest unsigned machine type.
    fn to_u128(self) -> (r: u128)
        ensures
            r == self.as_int(),
    ;
}

} // verus!
