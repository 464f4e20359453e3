use sentinel::text::{decimal_text, str_trim, NumberError};

#[test]
fn decimal_texts() {
    assert_eq!(decimal_text(0), "0");
    assert_eq!(decimal_text(7), "7");
    assert_eq!(decimal_text(10), "10");
    assert_eq!(decimal_text(65535), "65535");
    assert_eq!(decimal_text(u128::MAX), u128::MAX.to_string());
}

#[test]
fn decimal_text_reads_back() {
    for n in [0u16, 1, 9, 10, 99, 100, 8645, 65535] {
        assert_eq!(decimal_text(n as u128).parse::<u16>(), Ok(n));
    }
}

#[test]
fn number_error_messages_match_the_standard_library() {
    assert_eq!(
        NumberError::Empty.message(),
        "".parse::<u16>().unwrap_err().to_string()
    );
    assert_eq!(
        NumberError::InvalidDigit.message(),
        "x".parse::<u16>().unwrap_err().to_string()
    );
    assert_eq!(
        NumberError::PosOverflow.message(),
        "70000".parse::<u16>().unwrap_err().to_string()
    );
}

#[test]
fn trims_unicode_whitespace() {
    assert_eq!(str_trim("\u{3000} a b \t\r\n"), "a b");
    assert_eq!(str_trim("   "), "");
    assert_eq!(str_trim("x"), "x");
}

