//! Divisibility and the greatest common divisor over the mathematical
//! integers.
use crate::truncating::magnitude;
use vstd::arithmetic::div_mod::{lemma_fundamental_div_mod, lemma_mod_multiples_basic};
use vstd::prelude::*;

verus! {

/// `d` divides `n`: some multiple of `d` is `n`. Zero divides only zero.
pub open spec fn divides(d: int, n: int) -> bool {
    if d == 0 {
        n == 0
    } else {
        n % d == 0
    }
}

/// `g` is the greatest common divisor of `a` and `b`: a common divisor that
/// every common divisor divides, taken non-negative. For `a == b == 0` that
/// is zero.
pub open spec fn is_gcd(g: int, a: int, b: int) -> bool {
    &&& g >= 0
    &&& divides(g, a)
    &&& divides(g, b)
    &&& forall|c: int| divides(c, a) && divides(c, b) ==> #[trigger] divides(c, g)
}

/// The greatest common divisor of `a` and `b`.
pub open spec fn gcd(a: int, b: int) -> int {
    choose|g: int| is_gcd(g, a, b)
}

/// A multiple of `d` is divisible by `d`.
pub proof fn lemma_multiple_divides(d: int, k: int)
    ensures
        divides(d, k * d),
{
    if d == 0 {
        assert(k * d == 0) by (nonlinear_arith)
            requires
                d == 0,
        ;
    } else if d > 0 {
        lemma_mod_multiples_basic(k, d);
    } else {
        lemma_multiple_of_negative(k * d, d, k);
    }
}

/// What is divisible by `d` is a multiple of `d`.
pub proof fn lemma_divides_multiple(d: int, n: int) -> (k: int)
    requires
        divides(d, n),
    ensures
        n == k * d,
{
    if d == 0 {
        0
    } else {
        lemma_fundamental_div_mod(n, d);
        assert(d * (n / d) == (n / d) * d) by (nonlinear_arith);
        n / d
    }
}

/// Divisibility does not see the sign of the divisor.
pub proof fn lemma_divides_negated(d: int, n: int)
    requires
        divides(d, n),
    ensures
        divides(-d, n),
        divides(magnitude(d), n),
{
    if d != 0 {
        let k = lemma_divides_multiple(d, n);
        assert(n == (-k) * (-d)) by (nonlinear_arith)
            requires
                n == k * d,
        ;
        if d < 0 {
            lemma_mod_multiples_basic(-k, -d);
        } else {
            lemma_multiple_of_negative(n, -d, -k);
        }
    }
}

/// A multiple of a negative divisor leaves no Euclidean remainder.
proof fn lemma_multiple_of_negative(n: int, d: int, k: int)
    requires
        d < 0,
        n == k * d,
    ensures
        n % d == 0,
{
    assert(n % d == 0) by (nonlinear_arith)
        requires
            d < 0,
            n == k * d,
    ;
}

/// A common divisor of `a` and `b` divides every combination `a*x + b*y`.
pub proof fn lemma_divides_combination(d: int, a: int, b: int, x: int, y: int)
    requires
        divides(d, a),
        divides(d, b),
    ensures
        divides(d, a * x + b * y),
{
    let i = lemma_divides_multiple(d, a);
    let j = lemma_divides_multiple(d, b);
    assert(a * x + b * y == (i * x + j * y) * d) by (nonlinear_arith)
        requires
            a == i * d,
            b == j * d,
    ;
    lemma_multiple_divides(d, i * x + j * y);
}

/// Two non-negative numbers that divide each other are equal.
pub proof fn lemma_divides_antisymmetric(g: int, h: int)
    requires
        g >= 0,
        h >= 0,
        divides(g, h),
        divides(h, g),
    ensures
        g == h,
{
    let i = lemma_divides_multiple(g, h);
    let j = lemma_divides_multiple(h, g);
    assert(g == h) by (nonlinear_arith)
        requires
            g >= 0,
            h >= 0,
            h == i * g,
            g == j * h,
    ;
}

/// There is at most one greatest common divisor.
pub proof fn lemma_gcd_unique(g: int, h: int, a: int, b: int)
    requires
        is_gcd(g, a, b),
        is_gcd(h, a, b),
    ensures
        g == h,
{
    assert(divides(g, h));
    assert(divides(h, g));
    lemma_divides_antisymmetric(g, h);
}

/// Whatever meets the definition is the value of [`gcd`].
pub proof fn lemma_gcd_is(g: int, a: int, b: int)
    requires
        is_gcd(g, a, b),
    ensures
        gcd(a, b) == g,
        is_gcd(gcd(a, b), a, b),
{
    lemma_gcd_unique(gcd(a, b), g, a, b);
}

/// A combination of `a` and `b` that divides both is, up to its sign, their
/// greatest common divisor.
pub proof fn lemma_gcd_from_combination(d: int, a: int, b: int, x: int, y: int)
    requires
        d == a * x + b * y,
        divides(d, a),
        divides(d, b),
    ensures
        is_gcd(magnitude(d), a, b),
        gcd(a, b) == magnitude(d),
{
    let g = magnitude(d);
    lemma_divides_negated(d, a);
    lemma_divides_negated(d, b);
    assert forall|c: int| divides(c, a) && divides(c, b) implies #[trigger] divides(c, g) by {
        lemma_divides_combination(c, a, b, x, y);
        if d < 0 {
            lemma_divides_combination(c, a, b, -x, -y);
            assert(a * (-x) + b * (-y) == -(a * x + b * y)) by (nonlinear_arith);
        }
    }
    lemma_gcd_is(g, a, b);
}

/// The greatest common divisor does not see the signs of its arguments.
pub proof fn lemma_gcd_of_magnitudes(g: int, a: int, b: int)
    requires
        is_gcd(g, a, b),
    ensures
        is_gcd(g, magnitude(a), magnitude(b)),
        gcd(magnitude(a), magnitude(b)) == g,
{
    let p = magnitude(a);
    let q = magnitude(b);
    lemma_divides_sign_of_dividend(g, a);
    lemma_divides_sign_of_dividend(g, b);
    assert forall|c: int| divides(c, p) && divides(c, q) implies #[trigger] divides(c, g) by {
        lemma_divides_sign_of_dividend(c, p);
        lemma_divides_sign_of_dividend(c, q);
        assert(divides(c, a));
        assert(divides(c, b));
    }
    lemma_gcd_is(g, p, q);
}

/// Divisibility does not see the sign of the dividend.
pub proof fn lemma_divides_sign_of_dividend(d: int, n: int)
    requires
        divides(d, n),
    ensures
        divides(d, -n),
        divides(d, magnitude(n)),
{
    let k = lemma_divides_multiple(d, n);
    assert(-n == (-k) * d) by (nonlinear_arith)
        requires
            n == k * d,
    ;
    lemma_multiple_divides(d, -k);
}

} // verus!
