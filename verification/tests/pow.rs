use numtraits::pow;

#[test]
fn pow_scenarios() {
    assert_eq!(pow(2_i32, 10), 1024);
    assert_eq!(pow(3_u64, 4), 81);
    assert_eq!(pow(10_u64, 9), 1_000_000_000);
}

#[test]
fn pow_zero_exponent() {
    // by convention the zeroth power is the multiplicative identity,
    // even for a zero base
    assert_eq!(pow(0_i32, 0), 1);
    assert_eq!(pow(5_u32, 0), 1);
    assert_eq!(pow(0_u8, 0), 1);
}

#[test]
fn pow_first_power() {
    assert_eq!(pow(7_u8, 1), 7);
    assert_eq!(pow(-3_i16, 1), -3);
}

#[test]
fn pow_adds_exponents() {
    for m in 0..6_usize {
        for n in 0..6_usize {
            assert_eq!(pow(3_u64, m + n), pow(3_u64, m) * pow(3_u64, n));
        }
    }
}

#[test]
fn pow_negative_base() {
    assert_eq!(pow(-2_i32, 3), -8);
    assert_eq!(pow(-2_i32, 4), 16);
}
