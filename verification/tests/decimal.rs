use tilemap_codegen::decimal::{decimal_string, push_decimal, signed_decimal_string};

#[test]
fn decimal_of_small_numbers() {
    assert_eq!(decimal_string(0), "0");
    assert_eq!(decimal_string(7), "7");
    assert_eq!(decimal_string(9), "9");
    assert_eq!(decimal_string(10), "10");
    assert_eq!(decimal_string(255), "255");
    assert_eq!(decimal_string(1000), "1000");
    assert_eq!(decimal_string(1234567890), "1234567890");
}

#[test]
fn decimal_of_the_largest_number() {
    assert_eq!(decimal_string(u64::MAX), "18446744073709551615");
}

#[test]
fn decimal_agrees_with_the_standard_notation() {
    for n in (0..5000u64).chain((0..64).map(|shift| 1u64 << shift)) {
        assert_eq!(decimal_string(n), n.to_string());
        assert_eq!(decimal_string(n).parse::<u64>().unwrap(), n);
    }
}

#[test]
fn push_decimal_appends() {
    let mut text = String::from("n = ");
    push_decimal(&mut text, 42);
    push_decimal(&mut text, 0);
    assert_eq!(text, "n = 420");
}

#[test]
fn signed_decimal_of_negative_numbers() {
    assert_eq!(signed_decimal_string(0), "0");
    assert_eq!(signed_decimal_string(15), "15");
    assert_eq!(signed_decimal_string(-1), "-1");
    assert_eq!(signed_decimal_string(-2147483648), "-2147483648");
    assert_eq!(signed_decimal_string(i64::MAX), "9223372036854775807");
    assert_eq!(signed_decimal_string(i64::MIN), "-9223372036854775808");
}
