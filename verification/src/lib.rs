//! # Modular arithmetic
//!
//! Modular arithmetic on bounded integer types, each operation with a
//! contract over the mathematical integers:
//! - [`Constrain`]: the canonical residue of an integer.
//! - [`AddMod`], [`SubMod`], [`MulMod`]: sum, difference and product, reduced.
//! - [`DivMod`]: division by an invertible operand.
//! - [`PowMod`]: exponentiation by repeated squaring.
//! - [`EqMod`]: congruence.
//! - [`Egcd`]: the extended Euclidean algorithm.
//! - [`Invert`]: the multiplicative inverse.
//!
//! Operands are of an [`Integer`] type, signed or unsigned; a modulus is of
//! an unsigned type ([`Modulus`]) and is always taken to be positive. No
//! operation detects overflow: each states in its precondition how much room
//! the operand type must have.
//!
//! # Example
//! ```
//! use modicum::{AddMod, DivMod, EqMod, MulMod, SubMod};
//!
//! let a = 5_i8;
//! let b = 3_i8;
//! let modulus = 7_u32;
//! assert_eq!(a.add_mod(b, modulus), 1);
//! assert_eq!(a.sub_mod(b, modulus), 2);
//! assert_eq!(a.mul_mod(b, modulus), 1);
//! assert_eq!(a.div_mod(b, modulus), Some(4));
//! assert!(a.eq_mod(5, modulus));
//! assert!(a.ne_mod(6, modulus));
//! ```
use vstd::prelude::*;

pub mod divisibility;
pub mod egcd;
pub mod integer;
pub mod invert;
pub mod modulus;
pub mod power;
mod signed_primitives;
pub mod truncating;
mod unsigned_primitives;

pub use crate::egcd::{egcd, Egcd};
pub use crate::integer::{Integer, Signed, Unsigned};
pub use crate::invert::{invert, Invert};
pub use crate::modulus::Modulus;

use crate::divisibility::gcd;
use crate::egcd::{bezout, lemma_bezout_gcd, lemma_bezout_sign};
use crate::integer::in_range;
use crate::invert::{inverse, invert_fits, lemma_division_from_inverse, lemma_inverse_inverts};
use crate::power::{
    lemma_pow_mod_step, lemma_pow_steps_fit_when_wide, mul_mod_fits, pow_mod_fits, pow_mod_value,
    pow_steps_fit,
};
use crate::truncating::{
    lemma_trunc_div_positive_divisor, lemma_trunc_rem_residue, magnitude, trunc_rem,
};
use vstd::arithmetic::div_mod::{lemma_mod_bound, lemma_mod_twice, lemma_small_mod};
use vstd::arithmetic::power::{lemma_pow0, lemma_pow1, pow};

verus! {

/// The canonical residue of `value` modulo a positive `modulus`: the one
/// integer of `0 .. modulus` congruent to it.
pub open spec fn residue(value: int, modulus: int) -> int {
    value % modulus
}

/// Whether `T` has room to reduce `value` modulo `modulus`: the modulus is
/// positive and a value of `T`, and so is the sum of the modulus and the
/// truncating remainder, which the reduction forms on its way.
pub open spec fn can_constrain<T: Integer>(value: int, modulus: int) -> bool {
    &&& 0 < modulus <= T::max_int()
    &&& trunc_rem(value, modulus) + modulus <= T::max_int()
}

/// A residue lies in `0 .. modulus`, and reducing it again changes nothing.
pub proof fn lemma_residue_canonical(value: int, modulus: int)
    requires
        0 < modulus,
    ensures
        0 <= residue(value, modulus) < modulus,
        residue(residue(value, modulus), modulus) == residue(value, modulus),
{
    lemma_mod_bound(value, modulus);
    lemma_mod_twice(value, modulus);
}

/// Reduction to the canonical residue.
pub trait Constrain<M: Modulus<Self>>: Integer {
    /// The canonical residue of `self`: never negative, whatever the sign of
    /// `self`.
    fn constrain(self, modulus: M) -> (r: Self)
        requires
            can_constrain::<Self>(self.as_int(), modulus.as_int()),
        ensures
            r.as_int() == residue(self.as_int(), modulus.as_int()),
            0 <= r.as_int() < modulus.as_int(),
            residue(r.as_int(), modulus.as_int()) == r.as_int(),
    ;
}

impl<T: Integer, M: Modulus<T>> Constrain<M> for T {
    fn constrain(self, modulus: M) -> (r: Self) {
        let modulus = modulus.cast();
        proof {
            self.lemma_range();
            T::lemma_limits();
            lemma_residue_canonical(self.as_int(), modulus.as_int());
            lemma_trunc_div_positive_divisor(self.as_int(), modulus.as_int());
            lemma_trunc_rem_residue(self.as_int(), modulus.as_int());
            lemma_trunc_div_positive_divisor(
                trunc_rem(self.as_int(), modulus.as_int()) + modulus.as_int(),
                modulus.as_int(),
            );
        }
        self.remainder(modulus).plus(modulus).remainder(modulus)
    }
}

/// Addition modulo a modulus.
pub trait AddMod<M: Modulus<Self>>: Integer {
    /// The residue of `self + rhs`. The sum itself has to be a value of the
    /// type.
    fn add_mod(self, rhs: Self, modulus: M) -> (r: Self)
        requires
            in_range::<Self>(self.as_int() + rhs.as_int()),
            can_constrain::<Self>(self.as_int() + rhs.as_int(), modulus.as_int()),
        ensures
            r.as_int() == residue(self.as_int() + rhs.as_int(), modulus.as_int()),
    ;
}

impl<T: Integer, M: Modulus<T>> AddMod<M> for T {
    fn add_mod(self, rhs: Self, modulus: M) -> (r: Self) {
        self.plus(rhs).constrain(modulus)
    }
}

/// Subtraction modulo a modulus.
pub trait SubMod<M: Modulus<Self>>: Integer {
    /// The residue of `self - rhs`. The difference itself has to be a value
    /// of the type.
    fn sub_mod(self, rhs: Self, modulus: M) -> (r: Self)
        requires
            in_range::<Self>(self.as_int() - rhs.as_int()),
            can_constrain::<Self>(self.as_int() - rhs.as_int(), modulus.as_int()),
        ensures
            r.as_int() == residue(self.as_int() - rhs.as_int(), modulus.as_int()),
    ;
}

impl<T: Integer, M: Modulus<T>> SubMod<M> for T {
    fn sub_mod(self, rhs: Self, modulus: M) -> (r: Self) {
        self.minus(rhs).constrain(modulus)
    }
}

/// Multiplication modulo a modulus.
pub trait MulMod<M: Modulus<Self>>: Integer {
    /// The residue of `self * rhs`. The product itself has to be a value of
    /// the type.
    fn mul_mod(self, rhs: Self, modulus: M) -> (r: Self)
        requires
            mul_mod_fits::<Self>(self.as_int(), rhs.as_int(), modulus.as_int()),
        ensures
            r.as_int() == residue(self.as_int() * rhs.as_int(), modulus.as_int()),
    ;
}

impl<T: Integer, M: Modulus<T>> MulMod<M> for T {
    fn mul_mod(self, rhs: Self, modulus: M) -> (r: Self) {
        self.times(rhs).constrain(modulus)
    }
}

/// The quotient of `a` by an invertible `b` modulo `m`: the residue of the
/// product of `a` and the inverse of `b`.
pub open spec fn quotient_mod(a: int, b: int, m: int) -> int {
    residue(inverse(b, m) * a, m)
}

/// The quotient by an invertible `b`, multiplied by `b`, is congruent to the
/// dividend.
pub proof fn lemma_quotient_mod_divides(a: int, b: int, m: int)
    requires
        0 < m,
        gcd(residue(b, m), m) == 1,
    ensures
        0 <= quotient_mod(a, b, m) < m,
        residue(b * quotient_mod(a, b, m), m) == residue(a, m),
{
    lemma_mod_bound(inverse(b, m) * a, m);
    lemma_inverse_inverts(b, m);
    lemma_division_from_inverse(a, b, inverse(b, m), m);
}

/// Whether `T` has room to divide `a` by `b` modulo `m`: to invert `b` and,
/// where the inverse exists, to multiply it by `a` and reduce the product. A
/// type that holds twice the modulus and the product of the modulus and the
/// magnitude of `a` has room for every `b`; a narrower type has room where
/// the product at hand fits.
pub open spec fn div_mod_fits<T: Integer>(a: int, b: int, m: int) -> bool {
    &&& invert_fits::<T>(b, m)
    &&& ((2 * m <= T::max_int() && m * magnitude(a) <= T::max_int()) || (bezout(residue(b, m), m).0
        == 1 ==> mul_mod_fits::<T>(inverse(b, m), a, m)))
}

/// Division modulo a modulus.
pub trait DivMod<M: Modulus<Self>>: Invert {
    /// The residue `q` with `rhs * q` congruent to `self`: the product of
    /// `self` and the inverse of `rhs`. It exists where `rhs` is invertible,
    /// and only there.
    fn div_mod(self, rhs: Self, modulus: M) -> (r: Option<Self>)
        requires
            div_mod_fits::<Self>(self.as_int(), rhs.as_int(), modulus.as_int()),
        ensures
            r.is_none() <==> gcd(residue(rhs.as_int(), modulus.as_int()), modulus.as_int()) != 1,
            r matches Some(q) ==> q.as_int() == quotient_mod(
                self.as_int(),
                rhs.as_int(),
                modulus.as_int(),
            ),
            r matches Some(q) ==> 0 <= q.as_int() < modulus.as_int() && residue(
                rhs.as_int() * q.as_int(),
                modulus.as_int(),
            ) == residue(self.as_int(), modulus.as_int()),
    ;
}

impl<T: Invert, M: Modulus<T>> DivMod<M> for T {
    fn div_mod(self, rhs: Self, modulus: M) -> (r: Option<Self>) {
        let inverse = rhs.invert(modulus)?;
        proof {
            let a = self.as_int();
            let x = inverse.as_int();
            let m = modulus.as_int();
            let n = residue(rhs.as_int(), m);
            T::lemma_signed();
            self.lemma_range();
            lemma_mod_bound(rhs.as_int(), m);
            lemma_bezout_gcd(n, m);
            lemma_bezout_sign(n, m);
            lemma_trunc_rem_residue(x * a, m);
            assert(magnitude(x * a) <= m * magnitude(a)) by (nonlinear_arith)
                requires
                    0 <= x < m,
            ;
            lemma_division_from_inverse(a, rhs.as_int(), x, m);
        }
        Some(inverse.times(self).constrain(modulus))
    }
}

/// Any base to the power zero is one, whatever the modulus, and to the power
/// one it is the residue of the base.
pub proof fn lemma_pow_mod_small_exponents(a: int, m: int)
    ensures
        pow_mod_value(a, 0, m) == 1,
        pow_mod_value(a, 1, m) == residue(a, m),
{
    lemma_pow1(a);
}

/// Exponentiation modulo a modulus.
pub trait PowMod<M: Modulus<Self>>: Integer {
    /// `self` to the power `rhs`, which is not negative: the residue of the
    /// power, and one for the exponent zero.
    fn pow_mod(self, rhs: Self, modulus: M) -> (r: Self)
        requires
            pow_mod_fits::<Self>(self.as_int(), rhs.as_int(), modulus.as_int()),
        ensures
            r.as_int() == pow_mod_value(self.as_int(), rhs.as_int(), modulus.as_int()),
    ;
}

impl<T: Integer, M: Modulus<T>> PowMod<M> for T {
    fn pow_mod(self, rhs: Self, modulus: M) -> (r: Self) {
        let ghost a = self.as_int();
        let ghost m = modulus.as_int();
        let ghost exponent = rhs.as_int();
        let ghost mut untouched = true;
        proof {
            T::lemma_limits();
            self.lemma_range();
            if 0 < m && in_range::<T>(a * a) && m * m <= T::max_int() {
                lemma_pow_steps_fit_when_wide::<T>(1, a, exponent, m);
            }
            assert(1 * pow(a, exponent as nat) == pow(a, exponent as nat)) by (nonlinear_arith);
        }
        let two = T::from_i8(2).expect("two");
        let mut rhs = rhs;
        let mut result = T::one();
        let mut base = self;
        while !rhs.equals(T::zero())
            invariant
                0 < exponent ==> 0 < m <= T::max_int(),
                m == modulus.as_int(),
                two.as_int() == 2,
                0 <= rhs.as_int() <= exponent,
                pow_steps_fit::<T>(result.as_int(), base.as_int(), rhs.as_int(), m),
                residue(result.as_int() * pow(base.as_int(), rhs.as_int() as nat), m) == residue(
                    pow(a, exponent as nat),
                    m,
                ),
                untouched ==> result.as_int() == 1 && (rhs.as_int() >= 1 || exponent == 0),
                !untouched ==> 0 <= result.as_int() < m && 1 <= exponent,
            decreases rhs.as_int(),
        {
            proof {
                T::lemma_limits();
                rhs.lemma_range();
                lemma_trunc_div_positive_divisor(rhs.as_int(), 2);
                lemma_pow_mod_step(result.as_int(), base.as_int(), rhs.as_int(), m);
            }
            if rhs.remainder(two).equals(T::one()) {
                result = result.mul_mod(base, modulus);
                proof {
                    untouched = false;
                }
            }
            base = base.mul_mod(base, modulus);
            rhs = rhs.quotient(two);
        }
        proof {
            lemma_pow0(base.as_int());
            assert(result.as_int() * 1 == result.as_int()) by (nonlinear_arith);
            if !untouched {
                lemma_small_mod(result.as_int() as nat, m as nat);
            }
        }
        result
    }
}

/// Whether `a` and `b` are congruent modulo `m`: they have the same residue.
pub open spec fn congruent(a: int, b: int, m: int) -> bool {
    residue(a, m) == residue(b, m)
}

/// Whether `a` and `b` are not congruent modulo `m`: their residues differ.
pub open spec fn incongruent(a: int, b: int, m: int) -> bool {
    residue(a, m) != residue(b, m)
}

/// Two integers are congruent exactly where they are not incongruent.
pub proof fn lemma_congruent_or_incongruent(a: int, b: int, m: int)
    ensures
        congruent(a, b, m) == !incongruent(a, b, m),
{
}

/// Congruence modulo a modulus.
pub trait EqMod<M: Modulus<Self>>: Integer {
    /// Whether `self` and `rhs` are congruent.
    fn eq_mod(self, rhs: Self, modulus: M) -> (r: bool)
        requires
            can_constrain::<Self>(self.as_int(), modulus.as_int()),
            can_constrain::<Self>(rhs.as_int(), modulus.as_int()),
        ensures
            r == congruent(self.as_int(), rhs.as_int(), modulus.as_int()),
    ;

    /// Whether `self` and `rhs` are not congruent.
    fn ne_mod(self, rhs: Self, modulus: M) -> (r: bool)
        requires
            can_constrain::<Self>(self.as_int(), modulus.as_int()),
            can_constrain::<Self>(rhs.as_int(), modulus.as_int()),
        ensures
            r == incongruent(self.as_int(), rhs.as_int(), modulus.as_int()),
    ;
}

impl<T: Integer, M: Modulus<T>> EqMod<M> for T {
    fn eq_mod(self, rhs: Self, modulus: M) -> (r: bool) {
        self.constrain(modulus).equals(rhs.constrain(modulus))
    }

    fn ne_mod(self, rhs: Self, modulus: M) -> (r: bool) {
        !self.constrain(modulus).equals(rhs.constrain(modulus))
    }
}

} // verus!
