use db::error::{DbError, ErrorCategory};
use db::numeric::{BigUint, Decimal, Timestamp};

#[test]
fn biguint_accepts_well_formed_digits() {
    let n = BigUint::from_digits(vec![4, 2]).unwrap();
    assert_eq!(n.digits, vec![4, 2]);
}

#[test]
fn biguint_accepts_empty_digits_as_zero() {
    let zero = BigUint::from_digits(vec![]).unwrap();
    assert_eq!(zero.digits, Vec::<u8>::new());
}

#[test]
fn biguint_rejects_leading_zero() {
    let err = BigUint::from_digits(vec![0, 1]).unwrap_err();
    assert_eq!(err, DbError::InvalidNumber);
    assert_eq!(err.category(), ErrorCategory::TypeViolation);
}

#[test]
fn biguint_rejects_out_of_range_digit() {
    assert_eq!(BigUint::from_digits(vec![1, 10]).unwrap_err(), DbError::InvalidNumber);
}

#[test]
fn biguint_equality_is_by_digits() {
    let a = BigUint::from_digits(vec![1, 5, 0]).unwrap();
    let b = BigUint::from_digits(vec![1, 5, 0]).unwrap();
    let c = BigUint::from_digits(vec![1, 5]).unwrap();
    assert_eq!(a, b);
    assert_ne!(a, c);
}

#[test]
fn decimal_preserves_sign_digits_and_scale() {
    let d = Decimal::new(true, vec![2, 5], 3).unwrap();
    assert!(d.negative);
    assert_eq!(d.magnitude.digits, vec![2, 5]);
    assert_eq!(d.scale, 3);
}

#[test]
fn decimal_distinguishes_scales() {
    // 5000 and 5000.0 carry distinct representations; neither is rounded.
    let a = Decimal::new(false, vec![5, 0, 0, 0], 0).unwrap();
    let b = Decimal::new(false, vec![5, 0, 0, 0, 0], 1).unwrap();
    assert_ne!(a, b);
    assert_eq!(a, a.clone());
}

#[test]
fn decimal_rejects_negative_zero() {
    assert_eq!(Decimal::new(true, vec![], 0).unwrap_err(), DbError::InvalidNumber);
}

#[test]
fn decimal_rejects_malformed_digits() {
    assert_eq!(Decimal::new(false, vec![0, 3], 0).unwrap_err(), DbError::InvalidNumber);
}

#[test]
fn timestamp_accepts_nanos_in_range() {
    let t = Timestamp::new(1_700_000_000, 999_999_999).unwrap();
    assert_eq!(t.seconds, 1_700_000_000);
    assert_eq!(t.nanos, 999_999_999);
}

#[test]
fn timestamp_rejects_nanos_out_of_range() {
    let err = Timestamp::new(0, 1_000_000_000).unwrap_err();
    assert_eq!(err, DbError::InvalidTimestamp);
    assert_eq!(err.category(), ErrorCategory::TypeViolation);
}
