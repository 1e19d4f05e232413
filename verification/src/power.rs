//! Powers modulo a positive modulus, by repeated squaring.
use crate::integer::{in_range, Integer};
use crate::truncating::lemma_trunc_rem_residue;
use crate::{can_constrain, residue};
use vstd::arithmetic::div_mod::{lemma_mod_bound, lemma_mul_mod_noop_general};
use vstd::arithmetic::power::{
    lemma_pow1, lemma_pow_adds, lemma_pow_mod_noop, lemma_pow_multiplies, lemma_square_is_pow2,
    pow,
};
use vstd::prelude::*;

verus! {

/// What exponentiation modulo `m` yields for a base `a` and an exponent `e`
/// that is not negative: the residue of the power, but for the exponent
/// zero, where it is one whatever the modulus.
pub open spec fn pow_mod_value(a: int, e: int, m: int) -> int {
    if e <= 0 {
        1
    } else {
        residue(pow(a, e as nat), m)
    }
}

/// Whether `T` has room to multiply `a` by `b` and reduce the product.
pub open spec fn mul_mod_fits<T: Integer>(a: int, b: int, m: int) -> bool {
    &&& in_range::<T>(a * b)
    &&& can_constrain::<T>(a * b, m)
}

/// Whether `T` has room for every product that repeated squaring forms from
/// the state `result`, `base` for the rest `e` of the exponent: at each
/// binary digit it squares the base, and at each digit that is one it first
/// multiplies the result by the base.
pub open spec fn pow_steps_fit<T: Integer>(result: int, base: int, e: int, m: int) -> bool
    decreases e,
{
    if e <= 0 {
        true
    } else {
        &&& e % 2 == 1 ==> mul_mod_fits::<T>(result, base, m)
        &&& mul_mod_fits::<T>(base, base, m)
        &&& pow_steps_fit::<T>(
            if e % 2 == 1 {
                residue(result * base, m)
            } else {
                result
            },
            residue(base * base, m),
            e / 2,
            m,
        )
    }
}

/// Whether `T` has room to raise `a` to the power `e` modulo `m`. The
/// exponent is not negative, and `T` holds two, which the exponent is halved
/// by. With the exponent zero nothing else is asked: the modulus is not even
/// looked at. Otherwise the modulus is positive and a value of `T`. A type
/// that holds the square of the base and the square of the modulus then has
/// room for every exponent; a narrower type has room where the products of
/// the run at hand fit.
pub open spec fn pow_mod_fits<T: Integer>(a: int, e: int, m: int) -> bool {
    &&& 0 <= e
    &&& 2 <= T::max_int()
    &&& e > 0 ==> {
        &&& 0 < m <= T::max_int()
        &&& ((in_range::<T>(a * a) && m * m <= T::max_int()) || pow_steps_fit::<T>(1, a, e, m))
    }
}

/// A type that holds the square of the modulus has room for every run from
/// a state of residues, and from the first state, where the result is one
/// and the base is any value whose square the type holds.
pub proof fn lemma_pow_steps_fit_when_wide<T: Integer>(result: int, base: int, e: int, m: int)
    requires
        0 < m,
        m * m <= T::max_int(),
        (0 <= base < m && (0 <= result < m || result == 1)) || (result == 1 && in_range::<T>(base)
            && in_range::<T>(base * base)),
    ensures
        pow_steps_fit::<T>(result, base, e, m),
    decreases e,
{
    if e > 0 {
        T::lemma_limits();
        let next_result = if e % 2 == 1 {
            residue(result * base, m)
        } else {
            result
        };
        let next_base = residue(base * base, m);
        lemma_mod_bound(result * base, m);
        lemma_mod_bound(base * base, m);
        lemma_trunc_rem_residue(result * base, m);
        lemma_trunc_rem_residue(base * base, m);
        assert(2 * m - 1 <= m * m) by (nonlinear_arith);
        assert(0 <= base * base) by (nonlinear_arith);
        if 0 <= base < m {
            assert(0 <= result * base <= m * m && base * base <= m * m) by (nonlinear_arith)
                requires
                    0 <= base < m,
                    0 <= result < m || result == 1,
            ;
        } else {
            assert(result * base == base) by (nonlinear_arith)
                requires
                    result == 1,
            ;
        }
        lemma_pow_steps_fit_when_wide::<T>(next_result, next_base, e / 2, m);
    }
}

/// One round of repeated squaring keeps the residue of `result * base^e`.
pub proof fn lemma_pow_mod_step(result: int, base: int, e: int, m: int)
    requires
        0 < e,
        0 < m,
    ensures
        e % 2 == 1 ==> residue(
            residue(result * base, m) * pow(residue(base * base, m), (e / 2) as nat),
            m,
        ) == residue(result * pow(base, e as nat), m),
        e % 2 == 0 ==> residue(result * pow(residue(base * base, m), (e / 2) as nat), m)
            == residue(result * pow(base, e as nat), m),
{
    let k = (e / 2) as nat;
    let square = base * base;
    let rest = pow(square, k);
    let reduced = pow(residue(square, m), k);
    lemma_square_is_pow2(base);
    lemma_pow_multiplies(base, 2, k);
    assert(pow(base, 2 * k) == rest);
    lemma_pow_mod_noop(square, k, m);
    assert(reduced % m == rest % m);
    if e % 2 == 1 {
        assert(e as nat == 2 * k + 1);
        lemma_pow_adds(base, 2 * k, 1);
        lemma_pow1(base);
        assert(pow(base, e as nat) == rest * base);
        lemma_mul_mod_noop_general(result * base, reduced, m);
        lemma_mul_mod_noop_general(result * base, rest, m);
        assert((result * base) * rest == result * (rest * base)) by (nonlinear_arith);
    } else {
        assert(e as nat == 2 * k);
        lemma_mul_mod_noop_general(result, reduced, m);
        lemma_mul_mod_noop_general(result, rest, m);
    }
}

} // verus!
