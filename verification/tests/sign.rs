use numtraits::Sign;
use numtraits::Zero;

#[test]
fn sign_zero() {
    assert_eq!(<Sign as Zero>::zero(), Sign::Zero);
}

#[test]
fn mul() {
    assert_eq!(Sign::Negative * Sign::Negative, Sign::Positive);
    assert_eq!(Sign::Negative * Sign::Zero, Sign::Zero);
    assert_eq!(Sign::Negative * Sign::Positive, Sign::Negative);
    assert_eq!(Sign::Zero * Sign::Negative, Sign::Zero);
    assert_eq!(Sign::Zero * Sign::Zero, Sign::Zero);
    assert_eq!(Sign::Zero * Sign::Positive, Sign::Zero);
    assert_eq!(Sign::Positive * Sign::Negative, Sign::Negative);
    assert_eq!(Sign::Positive * Sign::Zero, Sign::Zero);
    assert_eq!(Sign::Positive * Sign::Positive, Sign::Positive);
}

#[test]
fn sign_abs() {
    assert_eq!(Sign::Negative.abs(), Sign::Positive);
    assert_eq!(Sign::Zero.abs(), Sign::Zero);
    assert_eq!(Sign::Positive.abs(), Sign::Positive);
}

#[test]
fn sign_neg() {
    assert_eq!(-Sign::Negative, Sign::Positive);
    assert_eq!(-Sign::Zero, Sign::Zero);
    assert_eq!(-Sign::Positive, Sign::Negative);
    assert_eq!(-(-Sign::Negative), Sign::Negative);
}

#[test]
fn sign_order() {
    assert!(Sign::Negative < Sign::Zero);
    assert!(Sign::Zero < Sign::Positive);
    assert!(Sign::Negative < Sign::Positive);
}

#[test]
fn sign_is_zero() {
    assert!(Sign::Zero.is_zero());
    assert!(!Sign::Positive.is_zero());
    assert!(!Sign::Negative.is_zero());
}
