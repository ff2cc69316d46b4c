//! The hyperoperation hierarchy over arbitrary-precision naturals.
//!
//! Order 0 is the successor, order 1 addition, order 2 multiplication,
//! order 3 exponentiation, order 4 tetration, and each further order
//! applies the one below it `exp` times, right-associated.

use vstd::prelude::*;
use num_bigint::BigUint;
use crate::big::big_value;
use crate::big::big_from_u64;
use crate::big::big_clone;
use crate::big::big_add;
use crate::big::big_sub;
use crate::big::big_mul;
use crate::big::big_is_zero;
use crate::big::big_eq;
use crate::power::pow_model;
use crate::power::lemma_pow_two_lower_bound;
use crate::power::lemma_pow_model_one_exp;
use crate::power::pow;

verus! {

/// The `n`-th hyperoperation of `b` and `e`.
///
/// Order 3 goes through [`pow_model`], so it shares the zero-base corner of
/// the exponentiation component: `hyper(3, 0, 0) == 0`.
pub open spec fn hyper(n: nat, b: nat, e: nat) -> nat
    decreases n, e,
{
    if n == 0 {
        e + 1
    } else if n == 1 {
        b + e
    } else if n == 2 {
        b * e
    } else if n == 3 {
        pow_model(b, e)
    } else if e == 0 {
        1
    } else {
        hyper((n - 1) as nat, b, hyper(n, b, (e - 1) as nat))
    }
}

/// From order 2 on, `b` is the right identity seed: `hyper(n, b, 1) == b`.
pub proof fn lemma_hyper_one(n: nat, b: nat)
    ensures
        n >= 2 ==> hyper(n, b, 1) == b,
    decreases n,
{
    if n == 2 {
        assert(hyper(2, b, 1) == b * 1);
    } else if n == 3 {
        lemma_pow_model_one_exp(b);
    } else if n >= 4 {
        lemma_hyper_one((n - 1) as nat, b);
        assert(hyper(n, b, 1) == hyper((n - 1) as nat, b, hyper(n, b, 0)));
        assert(hyper(n, b, 0) == 1);
    }
}

/// With base `2` and an exponent of at least `2`, every hyperoperation
/// exceeds its exponent: `hyper(n, 2, e) >= e + 1`.
pub proof fn lemma_hyper_two_lower_bound(n: nat, e: nat)
    requires
        e >= 2,
    ensures
        hyper(n, 2, e) >= e + 1,
    decreases n, e,
{
    if n == 2 {
        assert(hyper(2, 2, e) == 2 * e);
    } else if n == 3 {
        lemma_pow_two_lower_bound(e);
    } else if n >= 4 {
        lemma_hyper_one(n, 2);
        if e == 2 {
            assert(hyper(n, 2, 2) == hyper((n - 1) as nat, 2, hyper(n, 2, 1)));
            lemma_hyper_two_lower_bound((n - 1) as nat, 2);
        } else {
            lemma_hyper_two_lower_bound(n, (e - 1) as nat);
            let inner = hyper(n, 2, (e - 1) as nat);
            assert(hyper(n, 2, e) == hyper((n - 1) as nat, 2, inner));
            lemma_hyper_two_lower_bound((n - 1) as nat, inner);
        }
    }
}

/// Order 0 is the successor of the exponent: `hyper(0, b, e) == e + 1`.
pub proof fn lemma_hyper_order_zero(b: nat, e: nat)
    ensures
        hyper(0, b, e) == e + 1,
{
}

/// Order 0 ignores the base entirely.
pub proof fn lemma_hyper_order_zero_ignores_base(b1: nat, b2: nat, e: nat)
    ensures
        hyper(0, b1, e) == hyper(0, b2, e),
{
}

/// Order 1 is addition: `hyper(1, b, e) == b + e`.
pub proof fn lemma_hyper_order_one(b: nat, e: nat)
    ensures
        hyper(1, b, e) == b + e,
{
}

/// Order 2 is multiplication: `hyper(2, b, e) == b * e`.
pub proof fn lemma_hyper_order_two(b: nat, e: nat)
    ensures
        hyper(2, b, e) == b * e,
{
}

/// Order 3 is exponentiation, exactly as [`pow`] computes it.
pub proof fn lemma_hyper_order_three(b: nat, e: nat)
    ensures
        hyper(3, b, e) == pow_model(b, e),
{
}

/// At order 4 and beyond, a zero exponent yields the identity `1`.
pub proof fn lemma_hyper_zero_exp(n: nat, b: nat)
    ensures
        n >= 4 ==> hyper(n, b, 0) == 1,
{
}

/// Calculates the `n`-th hyperoperation of `base` and `exp`.
///
/// Recursion runs only over the order `n`; the exponent dimension is a
/// loop, so the call depth is bounded by `n` itself.
pub fn hyper_op(n: &BigUint, base: &BigUint, exp: &BigUint) -> (r: BigUint)
    ensures
        big_value(&r) == hyper(big_value(n), big_value(base), big_value(exp)),
    decreases big_value(n),
{
    let ghost nv: nat = big_value(n);
    let ghost bv: nat = big_value(base);
    let ghost ev: nat = big_value(exp);
    let n0 = big_from_u64(0);
    let n1 = big_from_u64(1);
    if big_eq(n, &n0) {
        return big_add(exp, &n1);
    }
    if big_eq(n, &n1) {
        return big_add(base, exp);
    }
    let n2 = big_add(&n1, &n1);
    if big_eq(n, &n2) {
        return big_mul(base, exp);
    }
    let n3 = big_add(&n2, &n1);
    if big_eq(n, &n3) {
        return pow(big_clone(base), big_clone(exp));
    }
    if big_is_zero(exp) {
        return n1;
    }
    let nm1 = big_sub(n, &n1);
    let mut out = big_clone(base);
    let mut e = big_sub(exp, &n1);
    proof {
        lemma_hyper_one(nv, bv);
    }
    while !big_is_zero(&e)
        invariant
            nv >= 4,
            ev >= 1,
            big_value(&n1) == 1,
            big_value(&nm1) == nv - 1,
            big_value(n) == nv,
            big_value(base) == bv,
            big_value(exp) == ev,
            big_value(&e) <= ev - 1,
            big_value(&out) == hyper(nv, bv, (ev - big_value(&e)) as nat),
        decreases big_value(&e),
    {
        let ghost k: nat = (ev - big_value(&e)) as nat;
        out = hyper_op(&nm1, base, &out);
        e = big_sub(&e, &n1);
        proof {
            assert(hyper(nv, bv, k + 1) == hyper((nv - 1) as nat, bv, hyper(nv, bv, k)));
        }
    }
    out
}

} // verus!
