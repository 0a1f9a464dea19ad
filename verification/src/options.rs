//! The two settings of a run, as given on the command line: the number of
//! bars and the rhythm mode. A setting that is missing or unusable falls
//! back to a default, and the choice says so.

use crate::text::decimal;
use crate::text::digit_text;
use crate::text::digit_value;
use crate::text::is_digit;
use crate::text::lemma_digit_text;
use vstd::prelude::*;
use vstd::string::StringExecFns;

verus! {

/// Bars of a melody when no usable number is given.
pub const DEFAULT_BARS: u64 = 8;

/// Fewest bars of a melody.
pub const MIN_BARS: u64 = 4;

/// The number that a run of decimal digits writes.
pub open spec fn digits_value(digits: Seq<char>) -> nat
    decreases digits.len(),
{
    if digits.len() == 0 {
        0
    } else {
        (10 * digits_value(digits.drop_last()) + digit_value(digits.last())) as nat
    }
}

/// Every character of the text is a digit.
pub open spec fn all_digits(text: Seq<char>) -> bool {
    forall|i: int| 0 <= i < text.len() ==> is_digit(#[trigger] text[i])
}

/// The text starts with a plus or a minus sign.
pub open spec fn has_sign(text: Seq<char>) -> bool {
    text.len() > 0 && (text[0] == '-' || text[0] == '+')
}

/// The integer that the text writes in base 10: an optional sign, then one
/// or more digits and nothing else, with a value that fits in 64 bits.
pub open spec fn parse_int(text: Seq<char>) -> Option<i64> {
    let digits = if has_sign(text) {
        text.skip(1)
    } else {
        text
    };
    let value = if has_sign(text) && text[0] == '-' {
        -(digits_value(digits) as int)
    } else {
        digits_value(digits) as int
    };
    if digits.len() > 0 && all_digits(digits) && i64::MIN <= value <= i64::MAX {
        Some(value as i64)
    } else {
        None
    }
}

/// The decimal text of a number is made of digits only, and they write
/// that number.
pub proof fn lemma_decimal_digits(n: nat)
    ensures
        decimal(n).len() >= 1,
        all_digits(decimal(n)),
        digits_value(decimal(n)) == n,
    decreases n,
{
    let last = digit_text((n % 10) as int);
    lemma_digit_text((n % 10) as int);
    if n >= 10 {
        let front = decimal(n / 10);
        let whole = front + last;
        lemma_decimal_digits(n / 10);
        assert(whole.drop_last() =~= front);
        assert(whole.last() == last[0]);
        assert forall|i: int| 0 <= i < whole.len() implies is_digit(#[trigger] whole[i]) by {
            if i < front.len() {
                assert(whole[i] == front[i]);
            } else {
                assert(whole[i] == last[0]);
            }
        }
    } else {
        assert(last.drop_last() =~= Seq::<char>::empty());
        assert(digits_value(last.drop_last()) == 0);
    }
}

/// A number that fits in 64 bits is read back from its decimal text.
pub proof fn lemma_decimal_reads_back(n: nat)
    requires
        n <= i64::MAX,
    ensures
        parse_int(decimal(n)) == Some(n as i64),
{
    lemma_decimal_digits(n);
    assert(is_digit(decimal(n)[0]));
}

/// Reads a bar count: a base-10 integer.
pub fn parse_bar_count(text: &str) -> (value: Option<i64>)
    ensures
        value == parse_int(text@),
{
    if !text.is_ascii() {
        proof {
            let i = choose|i: int|
                0 <= i < text@.len() && !('\0' <= #[trigger] text@[i] <= '\u{7f}');
            if has_sign(text@) {
                assert(text@.skip(1)[i - 1] == text@[i]);
            }
        }
        return None;
    }
    let bytes = text.as_bytes();
    proof {
        vstd::string::is_ascii_spec_bytes(text);
        assert(bytes@.len() == text@.len());
        assert forall|j: int| 0 <= j < text@.len() implies '\0' <= text@[j] <= '\u{7f}'
            && #[trigger] bytes@[j] == text@[j] as u8 by {}
    }
    let n = bytes.len();
    if n == 0 {
        return None;
    }
    let negative = bytes[0] == 45;
    let start: usize = if bytes[0] == 45 || bytes[0] == 43 {
        1
    } else {
        0
    };
    let ghost digits = text@.skip(start as int);
    proof {
        assert(bytes@[0] == text@[0] as u8);
        assert(has_sign(text@) == (start == 1));
        assert(negative == (has_sign(text@) && text@[0] == '-'));
    }
    let limit: u64 = if negative {
        9223372036854775808
    } else {
        9223372036854775807
    };
    let mut magnitude: u64 = 0;
    let mut over = false;
    let mut i: usize = start;
    while i < n
        invariant
            start <= i <= n,
            n == text@.len(),
            n == bytes@.len(),
            digits == text@.skip(start as int),
            forall|j: int|
                0 <= j < n ==> '\0' <= text@[j] <= '\u{7f}' && #[trigger] bytes@[j] == text@[j] as u8,
            start == if has_sign(text@) {
                1int
            } else {
                0int
            },
            negative == (has_sign(text@) && text@[0] == '-'),
            limit == if negative {
                9223372036854775808u64
            } else {
                9223372036854775807u64
            },
            all_digits(digits.take(i - start)),
            !over ==> magnitude == digits_value(digits.take(i - start)) && magnitude <= limit,
            over ==> digits_value(digits.take(i - start)) > limit,
        decreases n - i,
    {
        let b = bytes[i];
        proof {
            assert(b == text@[i as int] as u8);
            assert(digits[i - start] == text@[i as int]);
        }
        if b < 48 || b > 57 {
            return None;
        }
        let d = (b - 48) as u64;
        proof {
            assert(digits.take(i - start + 1).drop_last() =~= digits.take(i - start));
        }
        if !over {
            if magnitude > (limit - d) / 10 {
                over = true;
            } else {
                magnitude = magnitude * 10 + d;
            }
        }
        i = i + 1;
    }
    proof {
        assert(digits.take(n - start) =~= digits);
        assert(text@.skip(0) =~= text@);
    }
    if start == n || over {
        None
    } else if !negative {
        Some(magnitude as i64)
    } else if magnitude == 9223372036854775808 {
        Some(i64::MIN)
    } else {
        Some(-(magnitude as i64))
    }
}

/// The text of an argument, if the argument is there.
pub open spec fn arg_text(arg: Option<&str>) -> Option<Seq<char>> {
    match arg {
        Some(text) => Some(text@),
        None => None,
    }
}

/// What became of the bar count that was asked for.
#[derive(Clone, Copy, Debug, PartialEq, Eq, Structural)]
pub enum BarNotice {
    /// The number given was used as it stood.
    Accepted,
    /// No number was given, or the text wrote none: the default was used.
    Defaulted,
    /// The number given was below the minimum, which was used instead.
    Raised,
}

/// The bar count of a run, with what became of the one asked for.
#[derive(Clone, Copy, Debug, PartialEq, Eq, Structural)]
pub struct BarChoice {
    pub bars: u64,
    pub notice: BarNotice,
}

/// The bar count for an argument: the number that it writes, raised to 4
/// where it is less; 8 where the argument is missing or writes no number.
pub open spec fn bar_choice(arg: Option<Seq<char>>) -> BarChoice {
    match arg {
        None => BarChoice { bars: 8, notice: BarNotice::Defaulted },
        Some(text) => match parse_int(text) {
            None => BarChoice { bars: 8, notice: BarNotice::Defaulted },
            Some(value) => if value < 4 {
                BarChoice { bars: 4, notice: BarNotice::Raised }
            } else {
                BarChoice { bars: value as u64, notice: BarNotice::Accepted }
            },
        },
    }
}

/// Settles the bar count from the first argument, if there is one.
pub fn resolve_bars(arg: Option<&str>) -> (choice: BarChoice)
    ensures
        choice == bar_choice(arg_text(arg)),
        choice.bars >= MIN_BARS,
{
    match arg {
        None => BarChoice { bars: DEFAULT_BARS, notice: BarNotice::Defaulted },
        Some(text) => match parse_bar_count(text) {
            None => BarChoice { bars: DEFAULT_BARS, notice: BarNotice::Defaulted },
            Some(value) => if value < 4 {
                BarChoice { bars: MIN_BARS, notice: BarNotice::Raised }
            } else {
                BarChoice { bars: value as u64, notice: BarNotice::Accepted }
            },
        },
    }
}

/// The warning that goes with a bar count that was not used as given.
pub fn bar_notice_text(notice: BarNotice) -> (text: Option<&'static str>)
    ensures
        text is None <==> notice == BarNotice::Accepted,
        notice == BarNotice::Defaulted ==> text.unwrap()@
            == "No valid bar count found, defaulting to 8."@,
        notice == BarNotice::Raised ==> text.unwrap()@ == "Must be minimum 4 bars! Defaulting to 4."@,
{
    match notice {
        BarNotice::Accepted => None,
        BarNotice::Defaulted => Some("No valid bar count found, defaulting to 8."),
        BarNotice::Raised => Some("Must be minimum 4 bars! Defaulting to 4."),
    }
}

/// How the rhythm mode was settled.
#[derive(Clone, Copy, Debug, PartialEq, Eq, Structural)]
pub enum RhythmNotice {
    /// The argument was the word `complex`.
    Complex,
    /// The argument was some other word.
    Standard,
    /// No argument was given.
    Defaulted,
}

/// The rhythm mode of a run, with how it was settled.
#[derive(Clone, Copy, Debug, PartialEq, Eq, Structural)]
pub struct RhythmChoice {
    pub complex: bool,
    pub notice: RhythmNotice,
}

/// The rhythm mode for an argument: complex for the word `complex`, and
/// standard for any other word and for none.
pub open spec fn rhythm_choice(arg: Option<Seq<char>>) -> RhythmChoice {
    match arg {
        None => RhythmChoice { complex: false, notice: RhythmNotice::Defaulted },
        Some(text) => if text == "complex"@ {
            RhythmChoice { complex: true, notice: RhythmNotice::Complex }
        } else {
            RhythmChoice { complex: false, notice: RhythmNotice::Standard }
        },
    }
}

/// Settles the rhythm mode from the second argument, if there is one.
pub fn resolve_rhythm(arg: Option<&str>) -> (choice: RhythmChoice)
    ensures
        choice == rhythm_choice(arg_text(arg)),
{
    match arg {
        None => RhythmChoice { complex: false, notice: RhythmNotice::Defaulted },
        Some(text) => {
            let given = String::from_str(text);
            let wanted = String::from_str("complex");
            if given == wanted {
                RhythmChoice { complex: true, notice: RhythmNotice::Complex }
            } else {
                RhythmChoice { complex: false, notice: RhythmNotice::Standard }
            }
        },
    }
}

/// The line that reports how the rhythm mode was settled.
pub fn rhythm_notice_text(notice: RhythmNotice) -> (text: &'static str)
    ensures
        notice == RhythmNotice::Complex ==> text@ == "Using complex rhythm."@,
        notice == RhythmNotice::Standard ==> text@ == "Using standard rhythm."@,
        notice == RhythmNotice::Defaulted ==> text@ == "Defaulting to standard rhythm."@,
{
    match notice {
        RhythmNotice::Complex => "Using complex rhythm.",
        RhythmNotice::Standard => "Using standard rhythm.",
        RhythmNotice::Defaulted => "Defaulting to standard rhythm.",
    }
}

} // verus!
