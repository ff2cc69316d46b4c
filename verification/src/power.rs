//! Exponentiation over arbitrary-precision naturals, by repeated squaring.

use vstd::prelude::*;
use num_bigint::BigUint;
use crate::big::big_value;
use crate::big::big_from_u64;
use crate::big::big_clone;
use crate::big::big_mul;
use crate::big::big_is_zero;
use crate::big::big_is_one;
use crate::big::big_gt;
use crate::big::big_bit0;
use crate::big::big_half;

verus! {

/// `b` multiplied by itself `e` times, with the empty product equal to `1`.
pub open spec fn pow_nat(b: nat, e: nat) -> nat
    decreases e,
{
    if e == 0 {
        1
    } else {
        b * pow_nat(b, (e - 1) as nat)
    }
}

/// What [`pow`] returns: `b^e`, except that a zero base is returned
/// unchanged, so the zero-base, zero-exponent corner yields `0`.
pub open spec fn pow_model(b: nat, e: nat) -> nat {
    if b == 0 && e == 0 {
        0
    } else {
        pow_nat(b, e)
    }
}

/// A power of `1` is `1`.
pub proof fn lemma_pow_one_base(e: nat)
    ensures
        pow_nat(1, e) == 1,
    decreases e,
{
    if e > 0 {
        lemma_pow_one_base((e - 1) as nat);
    }
}

/// A positive power of `0` is `0`.
pub proof fn lemma_pow_zero_base(e: nat)
    ensures
        e > 0 ==> pow_nat(0, e) == 0,
{
}

/// Powers with added exponents multiply.
pub proof fn lemma_pow_adds(b: nat, x: nat, y: nat)
    ensures
        pow_nat(b, x + y) == pow_nat(b, x) * pow_nat(b, y),
    decreases x,
{
    if x == 0 {
        assert(pow_nat(b, 0) == 1);
    } else {
        lemma_pow_adds(b, (x - 1) as nat, y);
        assert(pow_nat(b, x + y) == b * pow_nat(b, (x + y - 1) as nat));
        assert(b * (pow_nat(b, (x - 1) as nat) * pow_nat(b, y)) == (b * pow_nat(
            b,
            (x - 1) as nat,
        )) * pow_nat(b, y)) by (nonlinear_arith);
    }
}

/// A power of the square is the power of the doubled exponent.
pub proof fn lemma_pow_square(b: nat, k: nat)
    ensures
        pow_nat(b * b, k) == pow_nat(b, 2 * k),
    decreases k,
{
    if k > 0 {
        lemma_pow_square(b, (k - 1) as nat);
        assert(pow_nat(b, 2 * k) == b * pow_nat(b, (2 * k - 1) as nat));
        assert(pow_nat(b, (2 * k - 1) as nat) == b * pow_nat(b, (2 * k - 2) as nat));
        assert((b * b) * pow_nat(b, (2 * k - 2) as nat) == b * (b * pow_nat(
            b,
            (2 * k - 2) as nat,
        ))) by (nonlinear_arith);
    }
}

/// Powers of two outgrow the exponent: `2^e >= e + 1`.
pub proof fn lemma_pow_two_lower_bound(e: nat)
    ensures
        pow_nat(2, e) >= e + 1,
    decreases e,
{
    if e > 0 {
        lemma_pow_two_lower_bound((e - 1) as nat);
    }
}

/// Peeling one factor off a power: for a positive exponent,
/// `pow(b, e) = b * pow(b, e - 1)` — exponentiation is repeated
/// multiplication, also through the zero-base corner of [`pow_model`].
pub proof fn lemma_pow_model_unfold(b: nat, e: nat)
    ensures
        e > 0 ==> pow_model(b, e) == b * pow_model(b, (e - 1) as nat),
{
    if e > 0 && b == 0 {
        lemma_pow_zero_base(e);
    }
}

/// `pow(b, 0) = 1` for a non-zero base.
pub proof fn lemma_pow_model_zero_exp(b: nat)
    ensures
        b != 0 ==> pow_model(b, 0) == 1,
{
}

/// `pow(0, e) = 0` for a positive exponent.
pub proof fn lemma_pow_model_zero_base(e: nat)
    ensures
        e > 0 ==> pow_model(0, e) == 0,
{
    lemma_pow_zero_base(e);
}

/// `pow(b, 1) = b`.
pub proof fn lemma_pow_model_one_exp(b: nat)
    ensures
        pow_model(b, 1) == b,
{
    assert(pow_nat(b, 0) == 1);
    assert(pow_nat(b, 1) == b * pow_nat(b, 0));
    assert(pow_nat(b, 1) == b);
    assert(pow_model(b, 1) == pow_nat(b, 1));
}

/// Calculates `base ^ exp` by binary exponentiation: square the base and
/// halve the exponent at each step, multiplying the accumulator in whenever
/// the low bit of the exponent is set.
///
/// A zero base is returned unchanged, so `pow(0, 0)` is `0`; every other
/// input yields the exact mathematical power.
pub fn pow(base: BigUint, exp: BigUint) -> (r: BigUint)
    ensures
        big_value(&r) == pow_model(big_value(&base), big_value(&exp)),
{
    let ghost b0: nat = big_value(&base);
    let ghost e0: nat = big_value(&exp);
    if big_is_zero(&base) || big_is_one(&exp) {
        proof {
            if b0 == 0 {
                lemma_pow_model_zero_base(e0);
            } else {
                lemma_pow_model_one_exp(b0);
            }
        }
        return base;
    }
    let n1 = big_from_u64(1);
    if big_is_one(&base) || big_is_zero(&exp) {
        proof {
            if b0 == 1 {
                lemma_pow_one_base(e0);
            }
        }
        return n1;
    }
    let mut out = big_clone(&n1);
    let mut b = base;
    let mut e = exp;
    while big_gt(&e, &n1)
        invariant
            b0 >= 2,
            e0 >= 2,
            big_value(&n1) == 1,
            big_value(&e) >= 1,
            pow_nat(b0, e0) == big_value(&out) * pow_nat(big_value(&b), big_value(&e)),
        decreases big_value(&e),
    {
        let ghost ov: nat = big_value(&out);
        let ghost bv: nat = big_value(&b);
        let ghost ev: nat = big_value(&e);
        if big_bit0(&e) {
            out = big_mul(&out, &b);
        }
        e = big_half(&e);
        b = big_mul(&b, &b);
        proof {
            lemma_pow_square(bv, ev / 2);
            if ev % 2 == 1 {
                lemma_pow_adds(bv, 1, 2 * (ev / 2));
                assert(pow_nat(bv, 1) == bv * pow_nat(bv, 0));
                assert((ov * bv) * pow_nat(bv, 2 * (ev / 2)) == ov * (bv * pow_nat(
                    bv,
                    2 * (ev / 2),
                ))) by (nonlinear_arith);
            }
        }
    }
    let r = big_mul(&out, &b);
    proof {
        assert(big_value(&e) == 1);
        assert(pow_nat(big_value(&b), 0) == 1);
        assert(pow_nat(big_value(&b), 1) == big_value(&b) * pow_nat(big_value(&b), 0));
        assert(pow_nat(big_value(&b), 1) == big_value(&b));
        assert(pow_model(b0, e0) == pow_nat(b0, e0));
    }
    r
}

} // verus!
