use numtraits::One;
use numtraits::Zero;

#[test]
fn number_zero() {
    assert_eq!(usize::zero(), 0_usize);
    assert_eq!(u8::zero(), 0_u8);
}

#[test]
fn one() {
    assert_eq!(isize::one(), 1_isize);
}

#[test]
fn is_zero_is_one() {
    assert!(0_i32.is_zero());
    assert!(!1_i32.is_zero());
    assert!(1_u16.is_one());
    assert!(!0_u16.is_one());
    assert!((-1_i64 + 1).is_zero());
}
