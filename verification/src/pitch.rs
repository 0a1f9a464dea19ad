//! Pitch classes and their printed labels.

use vstd::prelude::*;

verus! {

/// A pitch class is one of the twelve chromatic tones, numbered from C = 1 to B = 12.
pub open spec fn is_pitch_class(n: int) -> bool {
    1 <= n <= 12
}

/// The label printed for pitch class `n`, five characters wide, with both
/// spellings for the black keys; `"Err"` for a number that names no pitch class.
pub open spec fn pitch_label(n: int) -> Seq<char> {
    if n == 1 {
        "C    "@
    } else if n == 2 {
        "C#/Db"@
    } else if n == 3 {
        "D    "@
    } else if n == 4 {
        "D#/Eb"@
    } else if n == 5 {
        "E    "@
    } else if n == 6 {
        "F    "@
    } else if n == 7 {
        "F#/Gb"@
    } else if n == 8 {
        "G    "@
    } else if n == 9 {
        "G#/Ab"@
    } else if n == 10 {
        "A    "@
    } else if n == 11 {
        "A#/Bb"@
    } else if n == 12 {
        "B    "@
    } else {
        "Err"@
    }
}

/// Converts 1..=12 to the label of the pitch class.
pub fn int_to_pitch(n: i64) -> (label: &'static str)
    ensures
        label@ == pitch_label(n as int),
{
    match n {
        1 => "C    ",
        2 => "C#/Db",
        3 => "D    ",
        4 => "D#/Eb",
        5 => "E    ",
        6 => "F    ",
        7 => "F#/Gb",
        8 => "G    ",
        9 => "G#/Ab",
        10 => "A    ",
        11 => "A#/Bb",
        12 => "B    ",
        _ => "Err",
    }
}

/// Every pitch class has a label of exactly five characters, and only a
/// number outside 1..=12 gets the three-character `"Err"`.
pub proof fn lemma_pitch_label_width(n: int)
    ensures
        is_pitch_class(n) ==> pitch_label(n).len() == 5,
        !is_pitch_class(n) ==> pitch_label(n).len() == 3,
{
    reveal_pitch_labels();
}

/// Two pitch classes with the same label are the same pitch class.
pub proof fn lemma_pitch_labels_distinct(a: int, b: int)
    requires
        is_pitch_class(a),
        is_pitch_class(b),
        pitch_label(a) == pitch_label(b),
    ensures
        a == b,
{
    reveal_pitch_labels();
    let la = pitch_label(a);
    let lb = pitch_label(b);
    assert(la[0] == lb[0] && la[1] == lb[1]);
}

/// The characters of each label.
proof fn reveal_pitch_labels()
    ensures
        "C    "@ == seq!['C', ' ', ' ', ' ', ' '],
        "C#/Db"@ == seq!['C', '#', '/', 'D', 'b'],
        "D    "@ == seq!['D', ' ', ' ', ' ', ' '],
        "D#/Eb"@ == seq!['D', '#', '/', 'E', 'b'],
        "E    "@ == seq!['E', ' ', ' ', ' ', ' '],
        "F    "@ == seq!['F', ' ', ' ', ' ', ' '],
        "F#/Gb"@ == seq!['F', '#', '/', 'G', 'b'],
        "G    "@ == seq!['G', ' ', ' ', ' ', ' '],
        "G#/Ab"@ == seq!['G', '#', '/', 'A', 'b'],
        "A    "@ == seq!['A', ' ', ' ', ' ', ' '],
        "A#/Bb"@ == seq!['A', '#', '/', 'B', 'b'],
        "B    "@ == seq!['B', ' ', ' ', ' ', ' '],
        "Err"@ == seq!['E', 'r', 'r'],
{
    reveal_strlit("C    ");
    reveal_strlit("C#/Db");
    reveal_strlit("D    ");
    reveal_strlit("D#/Eb");
    reveal_strlit("E    ");
    reveal_strlit("F    ");
    reveal_strlit("F#/Gb");
    reveal_strlit("G    ");
    reveal_strlit("G#/Ab");
    reveal_strlit("A    ");
    reveal_strlit("A#/Bb");
    reveal_strlit("B    ");
    reveal_strlit("Err");
}

} // verus!
