use numtraits::Euclidean;
use numtraits::Integer;
use numtraits::euclid::gcd_u64;

#[test]
fn gcd_scenarios() {
    assert_eq!(48_u32.gcd(18), 6);
    assert_eq!(0_u32.gcd(5), 5);
    assert_eq!(5_u32.gcd(0), 5);
    assert_eq!(0_u64.gcd(0), 0);
    assert_eq!(7_u8.gcd(13), 1);
    assert_eq!(1024_u64.gcd(4096), 1024);
}

#[test]
fn gcd_signed() {
    assert_eq!((-12_i32).gcd(18), 6);
    assert_eq!(12_i32.gcd(-18), 6);
    assert_eq!((-12_i64).gcd(-18), 6);
    assert_eq!((-7_i64).gcd(0), 7);
    assert_eq!(0_i8.gcd(-5), 5);
}

#[test]
fn gcd_commutes() {
    for a in [0_u32, 1, 6, 28, 97, 1000] {
        for b in [0_u32, 1, 6, 28, 97, 1000] {
            assert_eq!(a.gcd(b), b.gcd(a));
        }
    }
}

#[test]
fn lcm_scenarios() {
    assert_eq!(4_u32.lcm(6), 12);
    assert_eq!(0_u32.lcm(5), 0);
    assert_eq!(3_u16.lcm(7), 21);
    // lcm of a negative and a positive operand keeps the product's sign
    assert_eq!((-4_i32).lcm(6), -12);
    assert_eq!((-4_i32).lcm(-6), 12);
}

#[test]
fn gcd_times_lcm_is_product() {
    for a in [1_u64, 4, 6, 9, 20] {
        for b in [1_u64, 4, 6, 9, 20] {
            assert_eq!(a.gcd(b) * a.lcm(b), a * b);
        }
    }
}

#[test]
fn factors() {
    assert!(3_u32.is_factor_of(9));
    assert!(!4_u32.is_factor_of(9));
    assert!(9_u32.is_divisible_by(3));
    assert!(!9_u32.is_divisible_by(4));
    assert!((-3_i32).is_factor_of(9));
    assert!(3_i32.is_factor_of(-9));
    assert!(1_u32.is_unit());
    assert!(!2_u32.is_unit());
    assert!(1_i32.is_unit());
    assert!((-1_i32).is_unit());
    assert!(!2_i32.is_unit());
}

#[test]
fn gcd_core_routine() {
    assert_eq!(gcd_u64(48, 18), 6);
    assert_eq!(gcd_u64(0, 0), 0);
    assert_eq!(gcd_u64(u64::MAX, u64::MAX), u64::MAX);
    assert_eq!(gcd_u64(1 << 40, 1 << 20), 1 << 20);
}
