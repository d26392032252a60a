use mini_audit::arith::gcd_of;

#[test]
fn gcd_of_small_numbers() {
    assert_eq!(gcd_of(12, 18), 6);
    assert_eq!(gcd_of(18, 12), 6);
    assert_eq!(gcd_of(17, 5), 1);
    assert_eq!(gcd_of(20, 20), 20);
    assert_eq!(gcd_of(1, 97), 1);
}

#[test]
fn gcd_of_with_zero_is_the_other_number() {
    assert_eq!(gcd_of(0, 9), 9);
    assert_eq!(gcd_of(9, 0), 9);
    assert_eq!(gcd_of(0, 0), 0);
}

#[test]
fn gcd_of_large_numbers() {
    assert_eq!(gcd_of(u128::MAX, u128::MAX), u128::MAX);
    assert_eq!(gcd_of(u128::MAX, 1), 1);
    assert_eq!(gcd_of(1 << 100, 1 << 64), 1 << 64);
    assert_eq!(gcd_of(3 * (1 << 90), 9 * (1 << 80)), 3 * (1 << 80));
}
