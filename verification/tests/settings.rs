use twelve_tone::options::bar_notice_text;
use twelve_tone::options::parse_bar_count;
use twelve_tone::options::resolve_bars;
use twelve_tone::options::resolve_rhythm;
use twelve_tone::options::rhythm_notice_text;
use twelve_tone::options::BarChoice;
use twelve_tone::options::BarNotice;
use twelve_tone::options::RhythmChoice;
use twelve_tone::options::RhythmNotice;
use twelve_tone::options::DEFAULT_BARS;
use twelve_tone::options::MIN_BARS;

#[test]
fn numbers_are_read_in_base_ten() {
    assert_eq!(parse_bar_count("8"), Some(8));
    assert_eq!(parse_bar_count("0"), Some(0));
    assert_eq!(parse_bar_count("12"), Some(12));
    assert_eq!(parse_bar_count("008"), Some(8));
    assert_eq!(parse_bar_count("+5"), Some(5));
    assert_eq!(parse_bar_count("-5"), Some(-5));
    assert_eq!(parse_bar_count("-0"), Some(0));
    assert_eq!(parse_bar_count("1234567890"), Some(1234567890));
}

#[test]
fn numbers_at_the_ends_of_the_range() {
    assert_eq!(parse_bar_count("9223372036854775807"), Some(i64::MAX));
    assert_eq!(parse_bar_count("-9223372036854775808"), Some(i64::MIN));
    assert_eq!(parse_bar_count("-9223372036854775807"), Some(i64::MIN + 1));
    assert_eq!(parse_bar_count("9223372036854775808"), None);
    assert_eq!(parse_bar_count("-9223372036854775809"), None);
    assert_eq!(parse_bar_count("18446744073709551616"), None);
    assert_eq!(parse_bar_count("99999999999999999999999999999999"), None);
    assert_eq!(parse_bar_count("00000000000000000000000000000007"), Some(7));
}

#[test]
fn text_that_writes_no_number() {
    assert_eq!(parse_bar_count(""), None);
    assert_eq!(parse_bar_count("abc"), None);
    assert_eq!(parse_bar_count("-"), None);
    assert_eq!(parse_bar_count("+"), None);
    assert_eq!(parse_bar_count("--5"), None);
    assert_eq!(parse_bar_count("+-5"), None);
    assert_eq!(parse_bar_count("5-"), None);
    assert_eq!(parse_bar_count(" 8"), None);
    assert_eq!(parse_bar_count("8 "), None);
    assert_eq!(parse_bar_count("8.0"), None);
    assert_eq!(parse_bar_count("8a"), None);
    assert_eq!(parse_bar_count("0x10"), None);
    assert_eq!(parse_bar_count("\u{663}"), None);
    assert_eq!(parse_bar_count("8\u{e9}"), None);
    assert_eq!(parse_bar_count("99999999999999999999x"), None);
}

#[test]
fn parsing_agrees_with_the_standard_library() {
    let samples = [
        "4", "7", "-1", "+0", "", "+", "12a", "000", "9223372036854775807",
        "9223372036854775808", "-9223372036854775808", "-9223372036854775809", "1_000", "٤",
    ];
    for text in samples {
        assert_eq!(parse_bar_count(text), text.parse::<i64>().ok());
    }
}

#[test]
fn a_usable_bar_count_is_accepted() {
    assert_eq!(resolve_bars(Some("8")), BarChoice { bars: 8, notice: BarNotice::Accepted });
    assert_eq!(resolve_bars(Some("4")), BarChoice { bars: 4, notice: BarNotice::Accepted });
    assert_eq!(resolve_bars(Some("11")), BarChoice { bars: 11, notice: BarNotice::Accepted });
    assert_eq!(
        resolve_bars(Some("9223372036854775807")),
        BarChoice { bars: 9223372036854775807, notice: BarNotice::Accepted }
    );
}

#[test]
fn a_missing_or_invalid_bar_count_defaults_to_eight() {
    let defaulted = BarChoice { bars: 8, notice: BarNotice::Defaulted };
    assert_eq!(resolve_bars(None), defaulted);
    assert_eq!(resolve_bars(Some("abc")), defaulted);
    assert_eq!(resolve_bars(Some("")), defaulted);
    assert_eq!(resolve_bars(Some("4.5")), defaulted);
    assert_eq!(resolve_bars(Some("9223372036854775808")), defaulted);
    assert_eq!(DEFAULT_BARS, 8);
}

#[test]
fn a_bar_count_below_four_is_raised_to_four() {
    let raised = BarChoice { bars: 4, notice: BarNotice::Raised };
    assert_eq!(resolve_bars(Some("3")), raised);
    assert_eq!(resolve_bars(Some("0")), raised);
    assert_eq!(resolve_bars(Some("-20")), raised);
    assert_eq!(resolve_bars(Some("-9223372036854775808")), raised);
    assert_eq!(MIN_BARS, 4);
}

#[test]
fn warnings_for_the_bar_count() {
    assert_eq!(bar_notice_text(BarNotice::Accepted), None);
    assert_eq!(
        bar_notice_text(BarNotice::Defaulted),
        Some("No valid bar count found, defaulting to 8.")
    );
    assert_eq!(
        bar_notice_text(BarNotice::Raised),
        Some("Must be minimum 4 bars! Defaulting to 4.")
    );
}

#[test]
fn only_the_word_complex_selects_complex_rhythm() {
    assert_eq!(
        resolve_rhythm(Some("complex")),
        RhythmChoice { complex: true, notice: RhythmNotice::Complex }
    );
    let standard = RhythmChoice { complex: false, notice: RhythmNotice::Standard };
    assert_eq!(resolve_rhythm(Some("standard")), standard);
    assert_eq!(resolve_rhythm(Some("Complex")), standard);
    assert_eq!(resolve_rhythm(Some("complex ")), standard);
    assert_eq!(resolve_rhythm(Some("comple")), standard);
    assert_eq!(resolve_rhythm(Some("")), standard);
    assert_eq!(
        resolve_rhythm(None),
        RhythmChoice { complex: false, notice: RhythmNotice::Defaulted }
    );
}

#[test]
fn reports_for_the_rhythm_mode() {
    assert_eq!(rhythm_notice_text(RhythmNotice::Complex), "Using complex rhythm.");
    assert_eq!(rhythm_notice_text(RhythmNotice::Standard), "Using standard rhythm.");
    assert_eq!(rhythm_notice_text(RhythmNotice::Defaulted), "Defaulting to standard rhythm.");
}
