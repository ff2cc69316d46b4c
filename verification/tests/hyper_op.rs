use ackermann::hyper_op;
use ackermann::pow;
use num_bigint::BigUint;

fn u(x: u64) -> BigUint {
    BigUint::from(x)
}

#[test]
fn order_zero_is_successor() {
    for e in 0u64..10 {
        assert_eq!(hyper_op(&u(0), &u(7), &u(e)), u(e + 1));
    }
}

#[test]
fn order_zero_ignores_base() {
    let expected = hyper_op(&u(0), &u(0), &u(9));
    for b in [0u64, 1, 2, 17, 100000] {
        assert_eq!(hyper_op(&u(0), &u(b), &u(9)), expected);
    }
}

#[test]
fn order_one_is_addition() {
    for b in 0u64..8 {
        for e in 0u64..8 {
            assert_eq!(hyper_op(&u(1), &u(b), &u(e)), u(b + e));
        }
    }
}

#[test]
fn order_two_is_multiplication() {
    for b in 0u64..8 {
        for e in 0u64..8 {
            assert_eq!(hyper_op(&u(2), &u(b), &u(e)), u(b * e));
        }
    }
}

#[test]
fn order_three_matches_pow() {
    for b in 0u64..6 {
        for e in 0u64..6 {
            assert_eq!(hyper_op(&u(3), &u(b), &u(e)), pow(u(b), u(e)));
        }
    }
}

#[test]
fn tetration_two_two_is_four() {
    assert_eq!(hyper_op(&u(4), &u(2), &u(2)), u(4));
}

#[test]
fn tetration_two_three_is_sixteen() {
    assert_eq!(hyper_op(&u(4), &u(2), &u(3)), u(16));
}

#[test]
fn tetration_three_two_is_twenty_seven() {
    assert_eq!(hyper_op(&u(4), &u(3), &u(2)), u(27));
}

#[test]
fn high_order_zero_exponent_is_one() {
    for order in 4u64..9 {
        assert_eq!(hyper_op(&u(order), &u(11), &u(0)), u(1));
    }
}

#[test]
fn high_order_exponent_one_is_base() {
    for order in 4u64..9 {
        assert_eq!(hyper_op(&u(order), &u(11), &u(1)), u(11));
    }
}

#[test]
fn pentation_two_three_is_65536() {
    assert_eq!(hyper_op(&u(5), &u(2), &u(3)), u(65536));
}
