//! Note lengths, counted in sixteenth notes, and the two vocabularies that a
//! rhythm is drawn from.
//!
//! A bar is one whole note, that is sixteen sixteenths. Lengths are whole
//! numbers of sixteenths throughout, so sums are exact.

use vstd::prelude::*;

verus! {

/// Sixteenth notes in a bar.
pub const SIXTEENTHS_PER_BAR: u64 = 16;

/// The standard vocabulary: whole, half, quarter, eighth and sixteenth note.
pub open spec fn is_standard_length(sixteenths: int) -> bool {
    sixteenths == 16 || sixteenths == 8 || sixteenths == 4 || sixteenths == 2 || sixteenths == 1
}

/// The complex vocabulary: any number of sixteenths from 1 to 15.
pub open spec fn is_complex_length(sixteenths: int) -> bool {
    1 <= sixteenths <= 15
}

/// Membership in the vocabulary that the rhythm mode selects.
pub open spec fn in_vocabulary(sixteenths: int, complex: bool) -> bool {
    if complex {
        is_complex_length(sixteenths)
    } else {
        is_standard_length(sixteenths)
    }
}

/// The standard length with code `n`: 1 is the whole note, and each further
/// code up to 5 halves the length. Other numbers are no code.
pub open spec fn length_of_code(n: int) -> Option<u8> {
    if n == 1 {
        Some(16u8)
    } else if n == 2 {
        Some(8u8)
    } else if n == 3 {
        Some(4u8)
    } else if n == 4 {
        Some(2u8)
    } else if n == 5 {
        Some(1u8)
    } else {
        None
    }
}

/// Converts a code 1..=5 to the standard length, in sixteenths.
pub fn int_to_length(n: i64) -> (length: Option<u8>)
    ensures
        length == length_of_code(n as int),
{
    match n {
        1 => Some(16),
        2 => Some(8),
        3 => Some(4),
        4 => Some(2),
        5 => Some(1),
        _ => None,
    }
}

/// The codes 1..=5 name exactly the standard lengths, each of which divides
/// the whole note; all but the whole note are complex lengths too.
pub proof fn lemma_standard_lengths(sixteenths: u8)
    ensures
        is_standard_length(sixteenths as int) <==> exists|n: int| #[trigger]
            length_of_code(n) == Some(sixteenths),
        is_standard_length(sixteenths as int) ==> 16int % (sixteenths as int) == 0,
        is_standard_length(sixteenths as int) && sixteenths != 16 ==> is_complex_length(
            sixteenths as int,
        ),
{
    if is_standard_length(sixteenths as int) {
        let n: int = if sixteenths == 16 {
            1
        } else if sixteenths == 8 {
            2
        } else if sixteenths == 4 {
            3
        } else if sixteenths == 2 {
            4
        } else {
            5
        };
        assert(length_of_code(n) == Some(sixteenths));
    }
}

/// The name of a standard length; `"Err"` for any other number of sixteenths.
pub open spec fn length_name(sixteenths: int) -> Seq<char> {
    if sixteenths == 16 {
        "Whole note"@
    } else if sixteenths == 8 {
        "Half note"@
    } else if sixteenths == 4 {
        "Quarter note"@
    } else if sixteenths == 2 {
        "Eighth note"@
    } else if sixteenths == 1 {
        "Sixteenth note"@
    } else {
        "Err"@
    }
}

/// Converts a number of sixteenths to the name of the standard length.
pub fn sixteenths_to_length(n: u8) -> (name: &'static str)
    ensures
        name@ == length_name(n as int),
{
    match n {
        16 => "Whole note",
        8 => "Half note",
        4 => "Quarter note",
        2 => "Eighth note",
        1 => "Sixteenth note",
        _ => "Err",
    }
}

/// A standard length shares its name with no other length.
pub proof fn lemma_length_names_distinct(a: int, b: int)
    requires
        is_standard_length(a),
        length_name(a) == length_name(b),
    ensures
        a == b,
{
    reveal_strlit("Whole note");
    reveal_strlit("Half note");
    reveal_strlit("Quarter note");
    reveal_strlit("Eighth note");
    reveal_strlit("Sixteenth note");
    reveal_strlit("Err");
    assert("Whole note"@.len() == 10 && "Half note"@.len() == 9 && "Quarter note"@.len() == 12);
    assert("Eighth note"@.len() == 11 && "Sixteenth note"@.len() == 14 && "Err"@.len() == 3);
}

/// The sum of the values.
pub open spec fn total(values: Seq<u8>) -> nat
    decreases values.len(),
{
    if values.len() == 0 {
        0
    } else {
        total(values.drop_last()) + values.last() as nat
    }
}

/// The sum of the first `n` values is that of the first `n - 1` and the
/// `n`-th.
pub proof fn lemma_total_take(values: Seq<u8>, n: int)
    requires
        0 < n <= values.len(),
    ensures
        total(values.take(n)) == total(values.take(n - 1)) + values[n - 1],
{
    assert(values.take(n).drop_last() =~= values.take(n - 1));
}

/// The sum of twelve values, written out.
pub proof fn lemma_total_of_twelve(values: Seq<u8>)
    requires
        values.len() == 12,
    ensures
        total(values) == values[0] + values[1] + values[2] + values[3] + values[4] + values[5]
            + values[6] + values[7] + values[8] + values[9] + values[10] + values[11],
{
    assert(total(values.take(0)) == 0);
    lemma_total_take(values, 1);
    lemma_total_take(values, 2);
    lemma_total_take(values, 3);
    lemma_total_take(values, 4);
    lemma_total_take(values, 5);
    lemma_total_take(values, 6);
    lemma_total_take(values, 7);
    lemma_total_take(values, 8);
    lemma_total_take(values, 9);
    lemma_total_take(values, 10);
    lemma_total_take(values, 11);
    lemma_total_take(values, 12);
    assert(values.take(12) =~= values);
}

/// Array summation.
pub fn sum(n: &[u8]) -> (sum: u128)
    ensures
        sum == total(n@),
{
    let mut sum: u128 = 0;
    let mut i: usize = 0;
    while i < n.len()
        invariant
            i <= n.len(),
            sum == total(n@.take(i as int)),
            sum <= 255 * i,
        decreases n.len() - i,
    {
        proof {
            lemma_total_take(n@, i + 1);
        }
        sum = sum + n[i] as u128;
        i = i + 1;
    }
    proof {
        assert(n@.take(i as int) =~= n@);
    }
    sum
}

} // verus!
