use numtraits::Sign;
use numtraits::Signed;

#[test]
fn signed_int() {
    assert_eq!(isize::of_sign(Sign::Negative), -1_isize);
    assert_eq!(i8::of_sign(Sign::Positive), 1_i8);
    assert_eq!(i64::of_sign(Sign::Zero), 0_i64);
}

#[test]
fn sign() {
    assert_eq!(Signed::sign(&15_i16), Sign::Positive);
    assert_eq!(Signed::sign(&-15_i16), Sign::Negative);
    assert_eq!(Signed::sign(&0_i32), Sign::Zero);
}

#[test]
fn abs() {
    assert_eq!(Signed::abs(-4_i16), 4_i16);
    assert_eq!(Signed::abs(0_isize), 0_isize);
    assert_eq!(Signed::abs(4_i64), 4_i64);
}

#[test]
fn sign_number() {
    assert_eq!(Signed::sign_number(&15_i16), 1_i16);
    assert_eq!(Signed::sign_number(&-15_i16), -1_i16);
    assert_eq!(Signed::sign_number(&0_i8), 0_i8);
}

#[test]
fn sign_test() {
    assert!(Signed::is_positive(&15_i16));
    assert!(!Signed::is_negative(&15_i16));
    assert!(!Signed::is_positive(&-15_i16));
    assert!(Signed::is_negative(&-15_i16));
    assert!(!Signed::is_positive(&0_i16));
    assert!(!Signed::is_negative(&0_i16));
}

#[test]
fn of_sign_round_trip() {
    // the signum is `of_sign` of the value's sign
    let samples: Vec<i32> = vec![-9, -1, 0, 1, 42];
    for x in samples {
        assert_eq!(i32::of_sign(Signed::sign(&x)), Signed::sign_number(&x));
    }
}
