//! The multiplicative inverse modulo a positive modulus.
use crate::divisibility::{gcd, lemma_gcd_from_combination};
use crate::egcd::{
    bezout, lemma_bezout_bounds, lemma_bezout_gcd, lemma_bezout_identity, lemma_bezout_sign, Egcd,
};
use crate::integer::Integer;
use crate::modulus::Modulus;
use crate::truncating::{magnitude, trunc_rem};
use crate::{can_constrain, residue, Constrain};
use vstd::arithmetic::div_mod::{
    lemma_fundamental_div_mod, lemma_mod_bound, lemma_mod_multiples_vanish, lemma_mod_twice,
    lemma_mul_mod_noop_general, lemma_small_mod,
};
use vstd::prelude::*;

verus! {

/// Whether `T` has room to invert `a` modulo `p`. The operand is reduced
/// first, and so is, where the inverse exists, the coefficient that the
/// extended Euclidean algorithm yields for the reduced operand. That
/// coefficient is at most half the modulus, so a type that holds one and a
/// half times the modulus has room for every operand; a narrower type has
/// room where the coefficient at hand is small enough.
pub open spec fn invert_fits<T: Integer>(a: int, p: int) -> bool {
    &&& can_constrain::<T>(a, p)
    &&& (p + p / 2 <= T::max_int() || (bezout(residue(a, p), p).0 == 1 ==> can_constrain::<T>(
        bezout(residue(a, p), p).1,
        p,
    )))
}

/// The inverse that [`invert`] yields for an invertible `a`: the reduced
/// coefficient of the extended Euclidean algorithm.
pub open spec fn inverse(a: int, p: int) -> int {
    residue(bezout(residue(a, p), p).1, p)
}

/// The coefficient of the first argument is at most half the second
/// argument in magnitude, so with a positive second argument it is its own
/// truncating remainder.
pub proof fn lemma_bezout_coefficient_small(a: int, p: int)
    requires
        p > 0,
    ensures
        2 * magnitude(bezout(a, p).1) <= p,
        trunc_rem(bezout(a, p).1, p) == bezout(a, p).1,
{
    let (d, x, y) = bezout(a, p);
    lemma_bezout_bounds(a, p);
    if trunc_rem(a, p) != 0 {
        assert(2 * magnitude(x) <= p) by (nonlinear_arith)
            requires
                d != 0,
                p > 0,
                2 * magnitude(x * d) <= p,
        ;
    }
    lemma_small_mod(magnitude(x) as nat, p as nat);
}

/// Where a combination of the reduced operand and the modulus is one, the
/// reduced coefficient of the operand is its inverse.
pub proof fn lemma_inverse_from_combination(a: int, p: int, x: int, y: int)
    requires
        p > 0,
        residue(a, p) * x + p * y == 1,
    ensures
        residue(a * residue(x, p), p) == residue(1, p),
{
    let r = residue(a, p);
    lemma_mod_multiples_vanish(y, r * x, p);
    assert((r * x) % p == 1int % p);
    lemma_mul_mod_noop_general(a, x, p);
    lemma_mul_mod_noop_general(a, x % p, p);
    lemma_mod_twice(x, p);
}

/// Multiplying by the inverse of `b` divides by `b`: the product `q` of `a`
/// and the inverse, reduced, has `b * q` congruent to `a`.
pub proof fn lemma_division_from_inverse(a: int, b: int, x: int, m: int)
    requires
        m > 0,
        residue(b * x, m) == residue(1, m),
    ensures
        residue(b * residue(x * a, m), m) == residue(a, m),
{
    lemma_mul_mod_noop_general(b, x * a, m);
    assert(b * (x * a) == (b * x) * a) by (nonlinear_arith);
    lemma_mul_mod_noop_general(b * x, a, m);
    lemma_mul_mod_noop_general(1, a, m);
    assert(1 * a == a) by (nonlinear_arith);
}

/// Where the residue of `a` and the modulus have no common divisor but one,
/// [`inverse`] is a residue, and its product with `a` is congruent to one;
/// with a modulus above one the residue of that product is one itself.
pub proof fn lemma_inverse_inverts(a: int, p: int)
    requires
        0 < p,
        gcd(residue(a, p), p) == 1,
    ensures
        0 <= inverse(a, p) < p,
        residue(a * inverse(a, p), p) == residue(1, p),
        1 < p ==> residue(a * inverse(a, p), p) == 1,
{
    let n = residue(a, p);
    let (d, x, y) = bezout(n, p);
    lemma_mod_bound(a, p);
    lemma_mod_bound(x, p);
    lemma_bezout_identity(n, p);
    lemma_bezout_gcd(n, p);
    lemma_bezout_sign(n, p);
    lemma_inverse_from_combination(a, p, x, y);
    if 1 < p {
        lemma_small_mod(1, p as nat);
    }
}

/// Among the residues an inverse is unique.
pub proof fn lemma_inverse_unique(a: int, p: int, x: int, y: int)
    requires
        0 < p,
        0 <= x < p,
        0 <= y < p,
        residue(a * x, p) == residue(1, p),
        residue(a * y, p) == residue(1, p),
    ensures
        x == y,
{
    lemma_mul_mod_noop_general(x, a * y, p);
    lemma_mul_mod_noop_general(x, 1, p);
    lemma_mul_mod_noop_general(a * x, y, p);
    lemma_mul_mod_noop_general(1, y, p);
    assert(x * (a * y) == (a * x) * y) by (nonlinear_arith);
    assert(x * 1 == x && 1 * y == y) by (nonlinear_arith);
    lemma_small_mod(x as nat, p as nat);
    lemma_small_mod(y as nat, p as nat);
}

/// An integer has an inverse modulo `p` exactly where its residue and `p`
/// have no common divisor but one.
pub proof fn lemma_invertible_iff_coprime(a: int, p: int)
    requires
        0 < p,
    ensures
        (exists|x: int| #[trigger] residue(a * x, p) == residue(1, p)) <==> gcd(residue(a, p), p)
            == 1,
{
    let n = residue(a, p);
    if gcd(n, p) == 1 {
        lemma_inverse_inverts(a, p);
        assert(residue(a * inverse(a, p), p) == residue(1, p));
    }
    if exists|x: int| #[trigger] residue(a * x, p) == residue(1, p) {
        let x = choose|x: int| #[trigger] residue(a * x, p) == residue(1, p);
        lemma_mul_mod_noop_general(a, x, p);
        lemma_fundamental_div_mod(n * x, p);
        lemma_fundamental_div_mod(1, p);
        let k = (n * x) / p;
        let j = 1int / p;
        assert(n * x + p * (j - k) == 1) by (nonlinear_arith)
            requires
                n * x == p * k + (n * x) % p,
                1 == p * j + 1int % p,
                (n * x) % p == 1int % p,
        ;
        lemma_gcd_from_combination(1, n, p, x, j - k);
    }
}

/// The multiplicative inverse on a signed type.
pub trait Invert: Egcd {
    /// The inverse of `self` modulo `p`: the residue `x` with
    /// `self * x` congruent to one. It exists where the residue of `self`
    /// and `p` have no common divisor but one, and only there.
    fn invert<P: Modulus<Self>>(self, p: P) -> (r: Option<Self>)
        requires
            invert_fits::<Self>(self.as_int(), p.as_int()),
        ensures
            r.is_none() <==> gcd(residue(self.as_int(), p.as_int()), p.as_int()) != 1,
            r matches Some(x) ==> 0 <= x.as_int() < p.as_int() && residue(
                self.as_int() * x.as_int(),
                p.as_int(),
            ) == residue(1, p.as_int()),
            r matches Some(x) ==> x.as_int() == inverse(self.as_int(), p.as_int()),
    ;
}

impl<T: Egcd> Invert for T {
    fn invert<P: Modulus<Self>>(self, p: P) -> (r: Option<Self>) {
        invert(self, p)
    }
}

/// The inverse of `a` modulo `p`: the residue `x` with `a * x` congruent to
/// one. It exists where the residue of `a` and `p` have no common divisor
/// but one, and only there.
pub fn invert<T: Egcd, P: Modulus<T>>(a: T, p: P) -> (r: Option<T>)
    requires
        invert_fits::<T>(a.as_int(), p.as_int()),
    ensures
        r.is_none() <==> gcd(residue(a.as_int(), p.as_int()), p.as_int()) != 1,
        r matches Some(x) ==> 0 <= x.as_int() < p.as_int() && residue(
            a.as_int() * x.as_int(),
            p.as_int(),
        ) == residue(1, p.as_int()),
        r matches Some(x) ==> x.as_int() == inverse(a.as_int(), p.as_int()),
{
    proof {
        let n = residue(a.as_int(), p.as_int());
        T::lemma_limits();
        lemma_mod_bound(a.as_int(), p.as_int());
        lemma_bezout_identity(n, p.as_int());
        lemma_bezout_gcd(n, p.as_int());
        lemma_bezout_sign(n, p.as_int());
        lemma_bezout_coefficient_small(n, p.as_int());
    }
    let (d, x, _) = a.constrain(p).egcd(p.cast());
    if !d.equals(T::one()) {
        return None;
    }
    proof {
        let y = bezout(residue(a.as_int(), p.as_int()), p.as_int()).2;
        lemma_inverse_from_combination(a.as_int(), p.as_int(), x.as_int(), y);
    }
    Some(x.constrain(p))
}

} // verus!
