//! Division that rounds toward zero, as machine integers divide, stated over
//! the mathematical integers.
use vstd::arithmetic::div_mod::{
    lemma_mod_add_multiples_vanish, lemma_mod_bound, lemma_mod_multiples_vanish,
};
use vstd::prelude::*;

verus! {

/// The magnitude of `x`.
pub open spec fn magnitude(x: int) -> int {
    if x >= 0 {
        x
    } else {
        -x
    }
}

/// The magnitude of a product is the product of the magnitudes.
pub proof fn lemma_magnitude_product(x: int, y: int)
    ensures
        magnitude(x * y) == magnitude(x) * magnitude(y),
{
    assert(magnitude(x * y) == magnitude(x) * magnitude(y)) by (nonlinear_arith);
}

/// The quotient of `a` by `b`, rounded toward zero.
pub open spec fn trunc_div(a: int, b: int) -> int {
    if a >= 0 {
        a / b
    } else {
        -((-a) / b)
    }
}

/// The remainder that goes with [`trunc_div`]: it has the sign of `a`.
pub open spec fn trunc_rem(a: int, b: int) -> int {
    if a >= 0 {
        a % b
    } else {
        -((-a) % b)
    }
}

/// Quotient and remainder rebuild the dividend, the remainder is smaller in
/// magnitude than the divisor and carries the dividend's sign.
pub proof fn lemma_trunc_div_rem(a: int, b: int)
    requires
        b != 0,
    ensures
        a == trunc_div(a, b) * b + trunc_rem(a, b),
        magnitude(trunc_rem(a, b)) < magnitude(b),
        a >= 0 ==> trunc_rem(a, b) >= 0,
        a <= 0 ==> trunc_rem(a, b) <= 0,
        magnitude(a) == magnitude(trunc_div(a, b)) * magnitude(b) + magnitude(trunc_rem(a, b)),
        magnitude(trunc_div(a, b)) <= magnitude(a),
{
    let n = magnitude(a);
    let q = n / b;
    let r = n % b;
    assert(n == q * b + r && 0 <= r < magnitude(b) && magnitude(q) * magnitude(b) + r == n
        && magnitude(q) <= n) by (nonlinear_arith)
        requires
            n >= 0,
            b != 0,
            q == n / b,
            r == n % b,
    ;
    if a < 0 {
        assert((-q) * b == -(q * b)) by (nonlinear_arith);
    }
}

/// With a positive divisor the Euclidean remainder is the truncating one,
/// moved up by the divisor when it is negative.
pub proof fn lemma_trunc_rem_residue(a: int, m: int)
    requires
        m > 0,
    ensures
        a % m == (trunc_rem(a, m) + m) % m,
        0 <= a % m < m,
        -m < trunc_rem(a, m) < m,
{
    lemma_trunc_div_rem(a, m);
    let q = trunc_div(a, m);
    let r = trunc_rem(a, m);
    assert(q * m == m * q) by (nonlinear_arith);
    lemma_mod_multiples_vanish(q, r, m);
    lemma_mod_add_multiples_vanish(r, m);
    lemma_mod_bound(a, m);
}

/// With a positive divisor the quotient lies between zero and the dividend.
pub proof fn lemma_trunc_div_positive_divisor(a: int, m: int)
    requires
        m > 0,
    ensures
        a >= 0 ==> 0 <= trunc_div(a, m) <= a,
        a <= 0 ==> a <= trunc_div(a, m) <= 0,
{
    lemma_trunc_div_rem(a, m);
    let n = magnitude(a);
    assert(0 <= n / m) by (nonlinear_arith)
        requires
            n >= 0,
            m > 0,
    ;
}

/// Dividing by minus one negates.
pub proof fn lemma_trunc_div_negative_one(a: int)
    ensures
        trunc_div(a, -1) == -a,
{
    let n = magnitude(a);
    assert(n / (-1int) == -n) by (nonlinear_arith);
}

} // verus!
