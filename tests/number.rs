use toa_find::number::DecimalInt;

#[test]
fn unsigned_numerals() {
    assert_eq!(usize::from_decimal("0"), Some(0));
    assert_eq!(usize::from_decimal("+7"), Some(7));
    assert_eq!(usize::from_decimal("007"), Some(7));
    assert_eq!(usize::from_decimal(""), None);
    assert_eq!(usize::from_decimal("+"), None);
    assert_eq!(usize::from_decimal("-1"), None);
    assert_eq!(usize::from_decimal("1 "), None);
    assert_eq!(usize::from_decimal(&usize::MAX.to_string()), Some(usize::MAX));
    assert_eq!(usize::from_decimal("99999999999999999999999"), None);
}

#[test]
fn signed_numerals() {
    assert_eq!(isize::from_decimal("-0"), Some(0));
    assert_eq!(isize::from_decimal("+12"), Some(12));
    assert_eq!(isize::from_decimal("-"), None);
    assert_eq!(isize::from_decimal(&isize::MIN.to_string()), Some(isize::MIN));
    assert_eq!(isize::from_decimal(&isize::MAX.to_string()), Some(isize::MAX));
    assert_eq!(isize::from_decimal("9223372036854775808"), None);
    assert_eq!(isize::from_decimal("-9223372036854775809"), None);
}

#[test]
fn agrees_with_std() {
    for s in ["0", "1", "+1", "-1", "", "x", "12a", "+-1", "-+1", "18446744073709551615", "18446744073709551616"] {
        assert_eq!(usize::from_decimal(s), s.parse::<usize>().ok());
        assert_eq!(isize::from_decimal(s), s.parse::<isize>().ok());
    }
}
