use ackermann::pow;
use num_bigint::BigUint;

fn u(x: u64) -> BigUint {
    BigUint::from(x)
}

#[test]
fn pow_matches_repeated_multiplication() {
    for b in 0u64..7 {
        for e in 1u64..9 {
            let mut expected = BigUint::from(1u64);
            for _ in 0..e {
                expected *= u(b);
            }
            assert_eq!(pow(u(b), u(e)), expected);
        }
    }
}

#[test]
fn pow_zero_exponent_is_one_for_nonzero_base() {
    for b in 1u64..10 {
        assert_eq!(pow(u(b), u(0)), u(1));
    }
}

#[test]
fn pow_zero_base_is_zero_for_nonzero_exponent() {
    for e in 1u64..10 {
        assert_eq!(pow(u(0), u(e)), u(0));
    }
}

#[test]
fn pow_zero_base_zero_exponent_returns_base() {
    assert_eq!(pow(u(0), u(0)), u(0));
}

#[test]
fn pow_exponent_one_is_base() {
    for b in 0u64..10 {
        assert_eq!(pow(u(b), u(1)), u(b));
    }
}

#[test]
fn pow_one_base_is_one() {
    assert_eq!(pow(u(1), u(100)), u(1));
}

#[test]
fn pow_two_to_the_ten_is_1024() {
    assert_eq!(pow(u(2), u(10)), u(1024));
}

#[test]
fn pow_three_to_the_seven_is_2187() {
    assert_eq!(pow(u(3), u(7)), u(2187));
}

#[test]
fn pow_large_exponent_exceeds_machine_width() {
    let p = pow(u(2), u(200));
    let expected = u(1) << 200u32;
    assert_eq!(p, expected);
}
