use mdbook_validator::number::{parse_int, push_int_decimal, push_nat_decimal};
use mdbook_validator::ValidatorError;

fn written(n: i64) -> String {
    let mut out = Vec::new();
    push_int_decimal(&mut out, n);
    out.into_iter().collect()
}

fn read(s: &str) -> Option<i64> {
    parse_int(&s.chars().collect())
}

#[test]
fn integers_are_written_in_decimal() {
    for n in [
        0i64,
        1,
        9,
        10,
        11,
        99,
        100,
        12345,
        -1,
        -10,
        -999,
        i64::MAX,
        i64::MIN,
        i64::MIN + 1,
        1_000_000_007,
    ] {
        assert_eq!(written(n), format!("{n}"));
        assert_eq!(read(&written(n)), Some(n));
    }
    let mut out = vec!['x'];
    push_nat_decimal(&mut out, u64::MAX);
    assert_eq!(out.into_iter().collect::<String>(), "x18446744073709551615");
}

#[test]
fn integers_are_read_from_an_optional_sign_and_digits() {
    assert_eq!(read("0"), Some(0));
    assert_eq!(read("-0"), Some(0));
    assert_eq!(read("0042"), Some(42));
    assert_eq!(read("-17"), Some(-17));
    assert_eq!(read("9223372036854775807"), Some(i64::MAX));
    assert_eq!(read("-9223372036854775808"), Some(i64::MIN));
    assert_eq!(read("9223372036854775808"), None);
    assert_eq!(read("-9223372036854775809"), None);
    assert_eq!(read("123456789012345678901234567890"), None);
    for bad in ["", "-", "+1", "1 ", " 1", "1.0", "--1", "1-", "0x1", "١٢٣", "1e3", "abc"] {
        assert_eq!(read(bad), None, "for {bad:?}");
    }
}

#[test]
fn exit_codes_are_shown_in_decimal() {
    let e = ValidatorError::SetupFailed {
        exit_code: i32::MIN,
        message: "m".to_owned(),
    };
    assert_eq!(e.to_string(), "[E004] Setup script failed (exit -2147483648): m");
    let e = ValidatorError::QueryFailed {
        exit_code: 127,
        message: String::new(),
    };
    assert_eq!(e.to_string(), "[E005] Query execution failed (exit 127): ");
    let e = ValidatorError::Config {
        message: "No [preprocessor.validator] section in book.toml".to_owned(),
    };
    assert_eq!(
        e.to_string(),
        "[E001] Configuration error: No [preprocessor.validator] section in book.toml"
    );
    let e = ValidatorError::UnknownValidator {
        name: "nonexistent".to_owned(),
    };
    assert_eq!(e.to_string(), "[E007] Unknown validator 'nonexistent'");
}
