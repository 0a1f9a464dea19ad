//! The melody: a tone row and a rhythm, paired slot by slot.

use crate::duration::length_name;
use crate::duration::sixteenths_to_length;
use crate::error::GenerationError;
use crate::options::arg_text;
use crate::options::bar_choice;
use crate::options::resolve_bars;
use crate::options::resolve_rhythm;
use crate::options::rhythm_choice;
use crate::options::BarChoice;
use crate::options::RhythmChoice;
use crate::options::MIN_BARS;
use crate::pitch::int_to_pitch;
use crate::pitch::lemma_pitch_labels_distinct;
use crate::pitch::pitch_label;
use crate::rhythm::durations_from_draws;
use crate::rhythm::first_fit;
use crate::rhythm::fits;
use crate::rhythm::generate_durations;
use crate::rhythm::is_rhythm_outcome;
use crate::rhythm::is_rhythm_run;
use crate::rhythm::reachable;
use crate::text::decimal;
use crate::text::decimal_string;
use crate::tone_row::generate_pitches;
use crate::tone_row::is_row_outcome;
use crate::tone_row::is_row_run;
use crate::tone_row::is_tone_row;
use crate::tone_row::lemma_tone_row_is_permutation;
use crate::tone_row::pitches_from_draws;
use crate::tone_row::row_from_draws;
use vstd::prelude::*;
use vstd::string::StringExecFns;

verus! {

/// Slot draws that a tone row may take where the caller has no limit of
/// its own; a row takes about 37 on average.
pub const DEFAULT_MAX_DRAWS: u64 = 100_000;

/// Batches that a rhythm may take where the caller has no limit of its own.
pub const DEFAULT_MAX_ATTEMPTS: u64 = 10_000_000;

/// One note: a pitch class, 1..=12, and a length in sixteenths.
#[derive(Clone, Copy, Debug, PartialEq, Eq, Structural)]
pub struct Note {
    pub pitch: u8,
    pub sixteenths: u8,
}

/// The pitch classes of the notes, in order.
pub open spec fn pitches_of(melody: Seq<Note>) -> Seq<u8> {
    Seq::new(melody.len(), |i: int| melody[i].pitch)
}

/// The lengths of the notes, in order.
pub open spec fn lengths_of(melody: Seq<Note>) -> Seq<u8> {
    Seq::new(melody.len(), |i: int| melody[i].sixteenths)
}

/// A melody of `bars` bars: twelve notes whose pitch classes are a tone row
/// and whose lengths are of the vocabulary and fill the bars exactly.
pub open spec fn is_melody(melody: Seq<Note>, bars: int, complex: bool) -> bool {
    &&& melody.len() == 12
    &&& is_tone_row(pitches_of(melody))
    &&& fits(lengths_of(melody), bars, complex)
}

/// In a melody no two notes carry the same label, and each of the twelve
/// labels is carried by a note.
pub proof fn lemma_melody_labels(melody: Seq<Note>, bars: int, complex: bool)
    requires
        is_melody(melody, bars, complex),
    ensures
        forall|i: int, j: int|
            0 <= i < j < 12 ==> pitch_label(#[trigger] melody[i].pitch as int) != pitch_label(
                #[trigger] melody[j].pitch as int,
            ),
        forall|n: int|
            #![trigger pitch_label(n)]
            1 <= n <= 12 ==> exists|i: int|
                #![trigger melody[i]]
                0 <= i < 12 && pitch_label(melody[i].pitch as int) == pitch_label(n),
{
    let row = pitches_of(melody);
    assert forall|i: int, j: int| 0 <= i < j < 12 implies pitch_label(
        #[trigger] melody[i].pitch as int,
    ) != pitch_label(#[trigger] melody[j].pitch as int) by {
        assert(1 <= row[i] <= 12 && 1 <= row[j] <= 12 && row[i] != row[j]);
        if pitch_label(melody[i].pitch as int) == pitch_label(melody[j].pitch as int) {
            lemma_pitch_labels_distinct(melody[i].pitch as int, melody[j].pitch as int);
        }
    }
    lemma_tone_row_is_permutation(row);
    assert forall|n: int| #![trigger pitch_label(n)] 1 <= n <= 12 implies exists|i: int|
        #![trigger melody[i]]
        0 <= i < 12 && pitch_label(melody[i].pitch as int) == pitch_label(n) by {
        assert(row.contains(n as u8));
        let i = choose|i: int| 0 <= i < row.len() && row[i] == n as u8;
        assert(melody[i].pitch == n);
    }
}

/// Slot `i` of the row paired with slot `i` of the rhythm, for each of the
/// twelve slots.
pub open spec fn paired(pitches: Seq<u8>, lengths: Seq<u8>) -> Seq<Note> {
    Seq::new(12, |i: int| Note { pitch: pitches[i], sixteenths: lengths[i] })
}

/// Pairs a tone row with a rhythm.
pub fn assemble(pitches: &[u8; 12], lengths: &[u8; 12]) -> (melody: [Note; 12])
    ensures
        melody@ == paired(pitches@, lengths@),
        pitches_of(melody@) == pitches@,
        lengths_of(melody@) == lengths@,
{
    let mut melody = [Note { pitch: 0, sixteenths: 0 };12];
    let mut i: usize = 0;
    while i < 12
        invariant
            i <= 12,
            forall|j: int|
                0 <= j < i ==> #[trigger] melody@[j] == (Note {
                    pitch: pitches@[j],
                    sixteenths: lengths@[j],
                }),
        decreases 12 - i,
    {
        melody[i] = Note { pitch: pitches[i], sixteenths: lengths[i] };
        i = i + 1;
    }
    proof {
        assert(melody@ =~= paired(pitches@, lengths@));
        assert(pitches_of(melody@) =~= pitches@);
        assert(lengths_of(melody@) =~= lengths@);
    }
    melody
}

/// What a run over the given draws returns: the row that the pitch draws
/// build, paired with the first fitting batch of the rhythm draws; or the
/// error of the row, where the draws leave it incomplete; or else the error
/// of the rhythm, where no batch fits.
pub open spec fn is_melody_outcome(
    pitch_draws: Seq<usize>,
    rhythm_draws: Seq<usize>,
    bars: u64,
    complex: bool,
    result: Result<[Note; 12], GenerationError>,
) -> bool {
    match row_from_draws(pitch_draws) {
        None => result == Err::<[Note; 12], GenerationError>(
            GenerationError::InternalInvariantViolation { draws: pitch_draws.len() as u64 },
        ),
        Some(row) => match first_fit(rhythm_draws, bars as int, complex) {
            None => result == Err::<[Note; 12], GenerationError>(
                GenerationError::ConstraintUnsatisfiable {
                    bars,
                    complex,
                    attempts: (rhythm_draws.len() / 12) as u64,
                },
            ),
            Some(lengths) => result matches Ok(melody) && melody@ == paired(row, lengths),
        },
    }
}

/// Builds the melody that given draws lead to, as the generator would if
/// its random source returned the pitch draws and then the rhythm draws.
pub fn melody_from_draws(
    pitch_draws: &[usize],
    rhythm_draws: &[usize],
    bars: u64,
    complex: bool,
) -> (result: Result<[Note; 12], GenerationError>)
    ensures
        is_melody_outcome(pitch_draws@, rhythm_draws@, bars, complex, result),
        result matches Ok(melody) ==> is_melody(melody@, bars as int, complex),
{
    let pitches = match pitches_from_draws(pitch_draws) {
        Ok(row) => row,
        Err(e) => {
            return Err(e);
        },
    };
    let lengths = match durations_from_draws(rhythm_draws, bars, complex) {
        Ok(batch) => batch,
        Err(e) => {
            return Err(e);
        },
    };
    Ok(assemble(&pitches, &lengths))
}

/// The draws that a random run can make: those of a run for the row, and
/// then, only if the row came about, those of a run for the rhythm.
pub open spec fn is_melody_run(
    pitch_draws: Seq<usize>,
    rhythm_draws: Seq<usize>,
    bars: u64,
    complex: bool,
    max_draws: u64,
    max_attempts: u64,
) -> bool {
    &&& is_row_run(pitch_draws, max_draws)
    &&& if row_from_draws(pitch_draws) is Some {
        is_rhythm_run(rhythm_draws, bars, complex, max_attempts)
    } else {
        rhythm_draws.len() == 0
    }
}

/// Generates a melody of `bars` bars: first a tone row, with at most
/// `max_draws` slot draws, then a rhythm in the chosen vocabulary, with at
/// most `max_attempts` batches, then the two paired slot by slot.
pub fn generate_melody(bars: u64, complex: bool, max_draws: u64, max_attempts: u64) -> (result:
    Result<[Note; 12], GenerationError>)
    ensures
        result matches Ok(melody) ==> is_melody(melody@, bars as int, complex),
        result matches Err(e) ==> e == (GenerationError::InternalInvariantViolation {
            draws: max_draws,
        }) || e == (GenerationError::ConstraintUnsatisfiable {
            bars,
            complex,
            attempts: if reachable(bars as int, complex) {
                max_attempts
            } else {
                0
            },
        }),
        max_draws < 12 ==> result == Err::<[Note; 12], GenerationError>(
            GenerationError::InternalInvariantViolation { draws: max_draws },
        ),
        !reachable(bars as int, complex) || max_attempts == 0 ==> result is Err,
        exists|pitch_draws: Seq<usize>, rhythm_draws: Seq<usize>| #[trigger]
            is_melody_run(pitch_draws, rhythm_draws, bars, complex, max_draws, max_attempts)
                && is_melody_outcome(pitch_draws, rhythm_draws, bars, complex, result),
{
    let pitch_result = generate_pitches(max_draws);
    let ghost pitch_draws = choose|draws: Seq<usize>| #[trigger]
        is_row_run(draws, max_draws) && is_row_outcome(draws, pitch_result);
    let pitches = match pitch_result {
        Ok(row) => row,
        Err(e) => {
            let result = Err(e);
            proof {
                let none = Seq::<usize>::empty();
                assert(is_melody_run(pitch_draws, none, bars, complex, max_draws, max_attempts)
                    && is_melody_outcome(pitch_draws, none, bars, complex, result));
            }
            return result;
        },
    };
    let rhythm_result = generate_durations(bars, complex, max_attempts);
    let ghost rhythm_draws = choose|draws: Seq<usize>| #[trigger]
        is_rhythm_run(draws, bars, complex, max_attempts) && is_rhythm_outcome(
            draws,
            bars,
            complex,
            rhythm_result,
        );
    let lengths = match rhythm_result {
        Ok(batch) => batch,
        Err(e) => {
            let result = Err(e);
            proof {
                assert(is_melody_run(
                    pitch_draws,
                    rhythm_draws,
                    bars,
                    complex,
                    max_draws,
                    max_attempts,
                ) && is_melody_outcome(pitch_draws, rhythm_draws, bars, complex, result));
            }
            return result;
        },
    };
    let result = Ok(assemble(&pitches, &lengths));
    proof {
        assert(is_melody_run(pitch_draws, rhythm_draws, bars, complex, max_draws, max_attempts)
            && is_melody_outcome(pitch_draws, rhythm_draws, bars, complex, result));
    }
    result
}

/// A run as asked for by two optional arguments: the settings that were
/// made of them, and the melody or the failure that came of those.
#[derive(Clone, Copy, Debug, PartialEq, Eq)]
pub struct Composition {
    pub bars: BarChoice,
    pub rhythm: RhythmChoice,
    pub melody: Result<[Note; 12], GenerationError>,
}

/// Settles the bar count and the rhythm mode from the two arguments, with
/// their defaults, and generates a melody for them.
pub fn compose(
    bar_arg: Option<&str>,
    rhythm_arg: Option<&str>,
    max_draws: u64,
    max_attempts: u64,
) -> (run: Composition)
    ensures
        run.bars == bar_choice(arg_text(bar_arg)),
        run.rhythm == rhythm_choice(arg_text(rhythm_arg)),
        run.bars.bars >= MIN_BARS,
        run.melody matches Ok(melody) ==> is_melody(
            melody@,
            run.bars.bars as int,
            run.rhythm.complex,
        ),
        exists|pitch_draws: Seq<usize>, rhythm_draws: Seq<usize>| #[trigger]
            is_melody_run(
                pitch_draws,
                rhythm_draws,
                run.bars.bars,
                run.rhythm.complex,
                max_draws,
                max_attempts,
            ) && is_melody_outcome(
                pitch_draws,
                rhythm_draws,
                run.bars.bars,
                run.rhythm.complex,
                run.melody,
            ),
{
    let bars = resolve_bars(bar_arg);
    let rhythm = resolve_rhythm(rhythm_arg);
    let melody = generate_melody(bars.bars, rhythm.complex, max_draws, max_attempts);
    Composition { bars, rhythm, melody }
}

/// The length as it is printed: the count of sixteenths over 16 in complex
/// mode, the name of the length in standard mode.
pub open spec fn length_text(sixteenths: u8, complex: bool) -> Seq<char> {
    if complex {
        decimal(sixteenths as nat) + "/16"@
    } else {
        length_name(sixteenths as int)
    }
}

/// The printed line of a note: the label of the pitch class, two spaces,
/// the length.
pub open spec fn line_text(note: Note, complex: bool) -> Seq<char> {
    pitch_label(note.pitch as int) + "  "@ + length_text(note.sixteenths, complex)
}

/// Writes the line of a note.
pub fn render_line(note: &Note, complex: bool) -> (line: String)
    ensures
        line@ == line_text(*note, complex),
{
    let mut line = String::from_str(int_to_pitch(note.pitch as i64));
    line.append("  ");
    if complex {
        let count = decimal_string(note.sixteenths as u64);
        line.append(count.as_str());
        line.append("/16");
    } else {
        line.append(sixteenths_to_length(note.sixteenths));
    }
    proof {
        assert(line@ =~= line_text(*note, complex));
    }
    line
}

/// Writes the melody, one line for each note, in order.
pub fn render(melody: &[Note; 12], complex: bool) -> (lines: Vec<String>)
    ensures
        lines.len() == 12,
        forall|i: int| 0 <= i < 12 ==> (#[trigger] lines[i])@ == line_text(melody@[i], complex),
{
    let mut lines: Vec<String> = Vec::new();
    let mut i: usize = 0;
    while i < 12
        invariant
            i <= 12,
            lines.len() == i,
            forall|j: int| 0 <= j < i ==> (#[trigger] lines[j])@ == line_text(melody@[j], complex),
        decreases 12 - i,
    {
        let line = render_line(&melody[i], complex);
        lines.push(line);
        i = i + 1;
    }
    lines
}

} // verus!
