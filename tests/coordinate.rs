use matrix::{CheckedMul, Coordinate, Unit};

#[test]
fn unit_is_one() {
    assert_eq!(u8::unit(), 1u8);
    assert_eq!(i64::unit(), 1i64);
    assert_eq!(i128::unit(), 1i128);
    assert_eq!(u128::unit(), 1u128);
}

#[test]
fn checked_multiply_reports_overflow() {
    assert_eq!(200u8.checked_multiply(200u8), Some(40000usize));
    assert_eq!(3i8.checked_multiply(-2i8), None);
    assert_eq!((-3i16).checked_multiply(0i16), None);
    assert_eq!(0u32.checked_multiply(7u32), Some(0usize));
    assert_eq!(u64::MAX.checked_multiply(2u64), None);
    assert_eq!(u64::MAX.checked_multiply(1u64), Some(usize::MAX));
}

#[test]
fn conversions_to_and_from_sizes() {
    assert_eq!((-1i32).to_usize(), None);
    assert_eq!(300u16.to_usize(), Some(300usize));
    assert_eq!(i8::from_usize(128), None);
    assert_eq!(i8::from_usize(127), Some(127i8));
    assert_eq!(u8::from_usize(255), Some(255u8));
    assert_eq!(u8::from_usize(256), None);
}

#[test]
fn arithmetic_and_order() {
    assert_eq!(5u8.plus(3), 8);
    assert_eq!(5i8.minus(7), -2);
    assert!(3u16.precedes(&4));
    assert!(!4u16.precedes(&4));
    assert!((-1i64).equals(&-1));
    assert_eq!(i32::zero(), 0);
}
