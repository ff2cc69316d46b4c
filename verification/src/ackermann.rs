//! The Ackermann–Péter function, through the hyperoperation hierarchy.
//!
//! The identity `A(m, n) = hyper(m, 2, n + 3) - 3` maps the two-argument
//! Ackermann function onto a single hyperoperation call, so the recursion
//! depth is bounded by `m` instead of blowing up with the result.

use vstd::prelude::*;
use num_bigint::BigUint;
use crate::big::big_value;
use crate::big::big_from_u64;
use crate::big::big_add;
use crate::big::big_sub;
use crate::hyper::hyper;
use crate::hyper::hyper_op;
use crate::hyper::lemma_hyper_two_lower_bound;
use crate::power::pow_nat;

verus! {

/// The Ackermann–Péter function: `A(m, n) = hyper(m, 2, n + 3) - 3`.
///
/// The result plus `3` is exactly the hyperoperation of order `m` applied
/// to `2` and `n + 3`; the subtraction never underflows, since that
/// hyperoperation is at least `n + 4`.
#[allow(non_snake_case)]
pub fn A(m: BigUint, n: BigUint) -> (r: BigUint)
    ensures
        big_value(&r) + 3 == hyper(big_value(&m), 2, (big_value(&n) + 3) as nat),
{
    let n2 = big_from_u64(2);
    let n3 = big_from_u64(3);
    let e = big_add(&n, &n3);
    let h = hyper_op(&m, &n2, &e);
    proof {
        lemma_hyper_two_lower_bound(big_value(&m), (big_value(&n) + 3) as nat);
    }
    big_sub(&h, &n3)
}

/// `A(0, n) = n + 1`: at order 0 the Ackermann value is the successor.
pub proof fn lemma_ackermann_order_zero(n: nat)
    ensures
        hyper(0, 2, n + 3) == (n + 1) + 3,
{
}

/// `A(1, n) = n + 2`.
pub proof fn lemma_ackermann_order_one(n: nat)
    ensures
        hyper(1, 2, n + 3) == (n + 2) + 3,
{
}

/// `A(2, n) = 2 * n + 3`.
pub proof fn lemma_ackermann_order_two(n: nat)
    ensures
        hyper(2, 2, n + 3) == (2 * n + 3) + 3,
{
}

/// `A(3, n) = 2^(n + 3) - 3`.
pub proof fn lemma_ackermann_order_three(n: nat)
    ensures
        hyper(3, 2, n + 3) == pow_nat(2, n + 3),
{
}

} // verus!
