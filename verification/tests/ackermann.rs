use ackermann::A;
use num_bigint::BigUint;

fn u(x: u64) -> BigUint {
    BigUint::from(x)
}

#[test]
fn ackermann_order_zero_is_successor() {
    for n in 0u64..20 {
        assert_eq!(A(u(0), u(n)), u(n + 1));
    }
}

#[test]
fn ackermann_order_one_adds_two() {
    for n in 0u64..20 {
        assert_eq!(A(u(1), u(n)), u(n + 2));
    }
}

#[test]
fn ackermann_order_two_doubles_and_adds_three() {
    for n in 0u64..20 {
        assert_eq!(A(u(2), u(n)), u(2 * n + 3));
    }
}

#[test]
fn ackermann_order_three_is_power_of_two_minus_three() {
    for n in 0u64..12 {
        assert_eq!(A(u(3), u(n)), u((1u64 << (n + 3)) - 3));
    }
}

#[test]
fn ackermann_two_two_is_seven() {
    assert_eq!(A(u(2), u(2)), u(7));
}

#[test]
fn ackermann_three_three_is_sixty_one() {
    assert_eq!(A(u(3), u(3)), u(61));
}

#[test]
fn ackermann_four_zero_is_thirteen() {
    assert_eq!(A(u(4), u(0)), u(13));
}

#[test]
fn ackermann_four_one_is_65533() {
    assert_eq!(A(u(4), u(1)), u(65533));
}
