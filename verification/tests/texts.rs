use twelve_tone::error::GenerationError;
use twelve_tone::options::parse_bar_count;
use twelve_tone::text::decimal_string;

#[test]
fn numbers_as_decimal_text() {
    assert_eq!(decimal_string(0), "0");
    assert_eq!(decimal_string(7), "7");
    assert_eq!(decimal_string(10), "10");
    assert_eq!(decimal_string(15), "15");
    assert_eq!(decimal_string(109), "109");
    assert_eq!(decimal_string(1234567890), "1234567890");
    assert_eq!(decimal_string(u64::MAX), "18446744073709551615");
}

#[test]
fn decimal_text_agrees_with_the_standard_library() {
    let mut n: u64 = 1;
    for _ in 0..64 {
        assert_eq!(decimal_string(n), format!("{}", n));
        assert_eq!(decimal_string(n / 7), format!("{}", n / 7));
        n = n.wrapping_mul(3).wrapping_add(7);
    }
}

#[test]
fn report_of_a_rhythm_that_did_not_fit() {
    let e = GenerationError::ConstraintUnsatisfiable { bars: 12, complex: false, attempts: 1000 };
    assert_eq!(
        e.message(),
        "Failed to fit the melody to 12 bars of standard rhythm in 1000 attempts."
    );
    let e = GenerationError::ConstraintUnsatisfiable { bars: 40, complex: true, attempts: 0 };
    assert_eq!(
        e.message(),
        "Failed to fit the melody to 40 bars of complex rhythm in 0 attempts."
    );
}

#[test]
fn report_of_a_row_that_stayed_incomplete() {
    let e = GenerationError::InternalInvariantViolation { draws: 11 };
    assert_eq!(e.message(), "Failed to place all twelve pitch classes in 11 draws.");
}

#[test]
fn decimal_text_reads_back() {
    for n in [0u64, 1, 9, 10, 15, 64, 128, 999, 1000, 9223372036854775807] {
        assert_eq!(parse_bar_count(&decimal_string(n)), Some(n as i64));
    }
    assert_eq!(parse_bar_count(&decimal_string(9223372036854775808)), None);
}
