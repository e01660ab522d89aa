use coster::text::int_to_string;

#[test]
fn integers_in_decimal() {
    assert_eq!("0", int_to_string(0));
    assert_eq!("7", int_to_string(7));
    assert_eq!("-123", int_to_string(-123));
    assert_eq!("2147483647", int_to_string(i32::MAX));
    assert_eq!("-2147483648", int_to_string(i32::MIN));
}

