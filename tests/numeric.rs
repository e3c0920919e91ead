use verity_canister::error::VerifyError;
use verity_canister::numeric::extract_numeric;

#[test]
fn strict_number() {
    assert_eq!(extract_numeric("42"), Ok(42));
}

#[test]
fn digits_filtered_from_noise() {
    assert_eq!(extract_numeric("value=42 units"), Ok(42));
    assert_eq!(extract_numeric("a1b2c3"), Ok(123));
}

#[test]
fn no_digits_fails() {
    assert_eq!(
        extract_numeric("no digits here"),
        Err(VerifyError::NumericExtraction("no digits here".to_string()))
    );
}

#[test]
fn body_extracted_first() {
    assert_eq!(extract_numeric("HTTP/1.1 200 OK\r\n\r\n1234"), Ok(1234));
}

#[test]
fn plus_sign_accepted_by_strict_parse() {
    assert_eq!(extract_numeric(" +7 "), Ok(7));
}

#[test]
fn largest_value_and_overflow() {
    assert_eq!(extract_numeric("18446744073709551615"), Ok(u64::MAX));
    assert_eq!(
        extract_numeric("18446744073709551616"),
        Err(VerifyError::NumericExtraction("18446744073709551616".to_string()))
    );
}

#[test]
fn negative_sign_dropped_by_digit_filter() {
    assert_eq!(extract_numeric("-5"), Ok(5));
}

#[test]
fn error_carries_extracted_body() {
    assert_eq!(
        extract_numeric("HTTP/1.1 200 OK\r\n\r\n  none "),
        Err(VerifyError::NumericExtraction("none".to_string()))
    );
}
