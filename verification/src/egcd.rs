//! The extended Euclidean algorithm.
use crate::divisibility::{
    divides, gcd, is_gcd, lemma_divides_combination, lemma_gcd_from_combination,
    lemma_gcd_of_magnitudes, lemma_multiple_divides,
};
use crate::integer::Signed;
use crate::truncating::{
    lemma_magnitude_product, lemma_trunc_div_negative_one, lemma_trunc_div_rem, magnitude,
    trunc_div, trunc_rem,
};
use vstd::prelude::*;

verus! {

/// The triple `(d, x, y)` that the extended Euclidean algorithm yields for
/// `a` and `b`, with division that rounds toward zero: `(a, 1, 0)` when `b`
/// is zero, and otherwise `(d, y', x' - (a / b) * y')` where `(d, x', y')` is
/// the triple of `b` and the remainder of `a` by `b`.
pub open spec fn bezout(a: int, b: int) -> (int, int, int)
    decreases magnitude(b),
{
    if b == 0 {
        (a, 1, 0)
    } else {
        let rest = bezout(b, trunc_rem(a, b));
        (rest.0, rest.2, rest.1 - trunc_div(a, b) * rest.2)
    }
}

/// Bezout's identity: the coefficients combine `a` and `b` into `d`.
pub proof fn lemma_bezout_identity(a: int, b: int)
    ensures
        a * bezout(a, b).1 + b * bezout(a, b).2 == bezout(a, b).0,
    decreases magnitude(b),
{
    if b != 0 {
        let q = trunc_div(a, b);
        let r = trunc_rem(a, b);
        let (d, x, y) = bezout(b, r);
        lemma_trunc_div_rem(a, b);
        lemma_bezout_identity(b, r);
        assert(a * y + b * (x - q * y) == d) by (nonlinear_arith)
            requires
                a == q * b + r,
                b * x + r * y == d,
        ;
    }
}

/// The first component divides both arguments.
pub proof fn lemma_bezout_divides(a: int, b: int)
    ensures
        divides(bezout(a, b).0, a),
        divides(bezout(a, b).0, b),
    decreases magnitude(b),
{
    if b == 0 {
        lemma_multiple_divides(a, 1);
        lemma_multiple_divides(a, 0);
    } else {
        let q = trunc_div(a, b);
        let r = trunc_rem(a, b);
        let d = bezout(b, r).0;
        lemma_trunc_div_rem(a, b);
        lemma_bezout_divides(b, r);
        lemma_divides_combination(d, b, r, q, 1);
        assert(b * q + r * 1 == a) by (nonlinear_arith)
            requires
                a == q * b + r,
        ;
    }
}

/// Up to its sign, the first component is the greatest common divisor.
pub proof fn lemma_bezout_gcd(a: int, b: int)
    ensures
        is_gcd(magnitude(bezout(a, b).0), a, b),
        magnitude(bezout(a, b).0) == gcd(a, b),
        magnitude(bezout(a, b).0) == gcd(magnitude(a), magnitude(b)),
{
    let (d, x, y) = bezout(a, b);
    lemma_bezout_identity(a, b);
    lemma_bezout_divides(a, b);
    lemma_gcd_from_combination(d, a, b, x, y);
    lemma_gcd_of_magnitudes(magnitude(d), a, b);
}

/// Every pair of integers has a greatest common divisor, so [`gcd`] is one.
pub proof fn lemma_gcd_exists(a: int, b: int)
    ensures
        is_gcd(gcd(a, b), a, b),
{
    lemma_bezout_gcd(a, b);
}

/// The first component is one of the remainders of the division chain, and
/// those alternate between the sign of `a` and the sign of `b`: it is not
/// negative when neither argument is, and not positive when neither is.
pub proof fn lemma_bezout_sign(a: int, b: int)
    ensures
        a >= 0 && b >= 0 ==> bezout(a, b).0 >= 0,
        a <= 0 && b <= 0 ==> bezout(a, b).0 <= 0,
    decreases magnitude(b),
{
    if b != 0 {
        lemma_trunc_div_rem(a, b);
        lemma_bezout_sign(b, trunc_rem(a, b));
    }
}

/// What the extended Euclidean algorithm achieves, for every pair of
/// integers: the coefficients combine the arguments into `d`, and the
/// magnitude of `d` is the greatest common divisor of the magnitudes. `d`
/// itself is that divisor exactly where it is not negative, as it is
/// whenever neither argument is negative.
pub proof fn lemma_bezout_correct(a: int, b: int)
    ensures
        a * bezout(a, b).1 + b * bezout(a, b).2 == bezout(a, b).0,
        magnitude(bezout(a, b).0) == gcd(magnitude(a), magnitude(b)),
        bezout(a, b).0 == gcd(magnitude(a), magnitude(b)) <==> bezout(a, b).0 >= 0,
        a >= 0 && b >= 0 ==> bezout(a, b).0 == gcd(magnitude(a), magnitude(b)),
{
    lemma_bezout_identity(a, b);
    lemma_bezout_gcd(a, b);
    lemma_bezout_sign(a, b);
}

/// How large the coefficients can be. With `b == 0` they are `1` and `0`.
/// Where `b` divides `a` they are `0` and `1`. Everywhere else twice the
/// product of a coefficient and `d` stays within the other argument.
pub proof fn lemma_bezout_bounds(a: int, b: int)
    ensures
        b != 0 ==> bezout(a, b).0 != 0,
        b != 0 && trunc_rem(a, b) == 0 ==> bezout(a, b) == (b, 0int, 1int),
        b != 0 && trunc_rem(a, b) != 0 ==> 2 * magnitude(bezout(a, b).1 * bezout(a, b).0)
            <= magnitude(b) && 2 * magnitude(bezout(a, b).2 * bezout(a, b).0) <= magnitude(a),
    decreases magnitude(b),
{
    if b != 0 {
        let q = trunc_div(a, b);
        let r = trunc_rem(a, b);
        let (d, x, y) = bezout(b, r);
        lemma_trunc_div_rem(a, b);
        lemma_bezout_bounds(b, r);
        if r != 0 {
            let s = trunc_rem(b, r);
            if s == 0 {
                let k = trunc_div(b, r);
                lemma_trunc_div_rem(b, r);
                assert(2 * magnitude(1 * r) <= magnitude(b) && 2 * magnitude((0 - q * 1) * r)
                    <= magnitude(a)) by (nonlinear_arith)
                    requires
                        r != 0,
                        magnitude(b) == magnitude(k) * magnitude(r),
                        magnitude(r) < magnitude(b),
                        magnitude(a) == magnitude(q) * magnitude(b) + magnitude(r),
                ;
            } else {
                assert(2 * magnitude((x - q * y) * d) <= magnitude(a)) by (nonlinear_arith)
                    requires
                        2 * magnitude(x * d) <= magnitude(r),
                        2 * magnitude(y * d) <= magnitude(b),
                        magnitude(a) == magnitude(q) * magnitude(b) + magnitude(r),
                ;
            }
        }
    }
}

/// One step of the algorithm stays within a two's complement range
/// `-max - 1 ..= max`, but for the two pairs whose quotient is `max + 1`:
/// the arguments can be divided, the pair handed on is again no such pair,
/// and the product and the difference that make the last coefficient fit.
pub proof fn lemma_bezout_step_fits(a: int, b: int, max: int)
    requires
        1 <= max,
        -max - 1 <= a <= max,
        -max - 1 <= b <= max,
        b != 0,
        !(a == -max - 1 && b == -1),
        !(a == -1 && b == -max - 1),
    ensures
        -max - 1 <= trunc_div(a, b) <= max,
        -max - 1 <= trunc_rem(a, b) <= max,
        !(b == -max - 1 && trunc_rem(a, b) == -1),
        !(b == -1 && trunc_rem(a, b) == -max - 1),
        -max - 1 <= trunc_div(a, b) * bezout(b, trunc_rem(a, b)).2 <= max,
        -max - 1 <= bezout(a, b).2 <= max,
{
    let q = trunc_div(a, b);
    let r = trunc_rem(a, b);
    let (d, x, y) = bezout(b, r);
    let qm = magnitude(q);
    let bm = magnitude(b);
    lemma_trunc_div_rem(a, b);
    lemma_trunc_div_negative_one(a);
    assert(magnitude(a) == qm * bm + magnitude(r));
    if bm >= 2 {
        assert(2 * qm <= magnitude(a)) by (nonlinear_arith)
            requires
                qm >= 0,
                bm >= 2,
                magnitude(a) >= qm * bm,
        ;
    } else if b == 1 {
        assert(q * 1 == q) by (nonlinear_arith);
    }
    if b == -max - 1 && r == -1 {
        if qm >= 1 {
            assert(qm * bm >= bm) by (nonlinear_arith)
                requires
                    qm >= 1,
                    bm >= 0,
            ;
        } else {
            assert(q * b == 0) by (nonlinear_arith)
                requires
                    q == 0,
            ;
        }
    }
    lemma_bezout_bounds(b, r);
    lemma_bezout_bounds(a, b);
    if r != 0 {
        lemma_magnitude_product(q, y);
        lemma_magnitude_product(y, d);
        lemma_magnitude_product(x - q * y, d);
        let ym = magnitude(y);
        let dm = magnitude(d);
        assert(2 * (qm * ym) <= magnitude(a)) by (nonlinear_arith)
            requires
                qm >= 0,
                ym >= 0,
                dm >= 1,
                bm >= 2,
                ym == 1 || 2 * (ym * dm) <= bm,
                magnitude(a) >= qm * bm,
        ;
        let zm = magnitude(x - q * y);
        assert(2 * zm <= magnitude(a)) by (nonlinear_arith)
            requires
                zm >= 0,
                dm >= 1,
                2 * (zm * dm) <= magnitude(a),
        ;
    } else {
        assert(q * 0 == 0) by (nonlinear_arith);
    }
}

/// The extended Euclidean algorithm on a signed type.
pub trait Egcd: Signed {
    /// The triple `(d, x, y)` of [`bezout`] for `self` and `other`: `d` is,
    /// up to its sign, their greatest common divisor, and
    /// `self * x + other * y == d`. The sign of `d` is that of the arguments
    /// where they agree in sign.
    ///
    /// The two pairs left out are those of the least value and minus one,
    /// which the machine cannot divide. On every other pair no intermediate
    /// result leaves the type.
    fn egcd(self, other: Self) -> (r: (Self, Self, Self))
        requires
            !(self.as_int() == Self::min_int() && other.as_int() == -1),
            !(self.as_int() == -1 && other.as_int() == Self::min_int()),
        ensures
            (r.0.as_int(), r.1.as_int(), r.2.as_int()) == bezout(self.as_int(), other.as_int()),
            self.as_int() * r.1.as_int() + other.as_int() * r.2.as_int() == r.0.as_int(),
            is_gcd(magnitude(r.0.as_int()), self.as_int(), other.as_int()),
            magnitude(r.0.as_int()) == gcd(magnitude(self.as_int()), magnitude(other.as_int())),
            self.as_int() >= 0 && other.as_int() >= 0 ==> r.0.as_int() >= 0,
            self.as_int() <= 0 && other.as_int() <= 0 ==> r.0.as_int() <= 0,
    ;
}

impl<T: Signed> Egcd for T {
    fn egcd(self, other: Self) -> (r: (Self, Self, Self)) {
        egcd(self, other)
    }
}

/// The triple `(d, x, y)` of [`bezout`] for `a` and `b`: `d` is, up to its
/// sign, their greatest common divisor, and `a * x + b * y == d`. The sign
/// of `d` is that of the arguments where they agree in sign.
///
/// The two pairs left out are those of the least value and minus one, which
/// the machine cannot divide. On every other pair no intermediate result
/// leaves the type.
pub fn egcd<T: Signed>(a: T, b: T) -> (r: (T, T, T))
    requires
        !(a.as_int() == T::min_int() && b.as_int() == -1),
        !(a.as_int() == -1 && b.as_int() == T::min_int()),
    ensures
        (r.0.as_int(), r.1.as_int(), r.2.as_int()) == bezout(a.as_int(), b.as_int()),
        a.as_int() * r.1.as_int() + b.as_int() * r.2.as_int() == r.0.as_int(),
        is_gcd(magnitude(r.0.as_int()), a.as_int(), b.as_int()),
        magnitude(r.0.as_int()) == gcd(magnitude(a.as_int()), magnitude(b.as_int())),
        a.as_int() >= 0 && b.as_int() >= 0 ==> r.0.as_int() >= 0,
        a.as_int() <= 0 && b.as_int() <= 0 ==> r.0.as_int() <= 0,
    decreases magnitude(b.as_int()),
{
    proof {
        T::lemma_signed();
        T::lemma_limits();
        a.lemma_range();
        b.lemma_range();
        lemma_bezout_identity(a.as_int(), b.as_int());
        lemma_bezout_gcd(a.as_int(), b.as_int());
        lemma_bezout_sign(a.as_int(), b.as_int());
    }
    if b.equals(T::zero()) {
        return (a, T::one(), T::zero());
    }
    proof {
        lemma_bezout_step_fits(a.as_int(), b.as_int(), T::max_int());
        lemma_trunc_div_rem(a.as_int(), b.as_int());
    }
    let (d, x, y) = egcd(b, a.remainder(b));
    (d, y, x.minus(a.quotient(b).times(y)))
}

} // verus!
