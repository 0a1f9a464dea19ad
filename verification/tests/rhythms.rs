use twelve_tone::duration::sum;
use twelve_tone::error::GenerationError;
use twelve_tone::rhythm::batch_fills;
use twelve_tone::rhythm::batch_from_draws;
use twelve_tone::rhythm::draw_to_length;
use twelve_tone::rhythm::durations_from_draws;
use twelve_tone::rhythm::generate_durations;
use twelve_tone::rhythm::is_reachable;

const BUDGET: u64 = 5_000_000;

fn in_vocabulary(length: u8, complex: bool) -> bool {
    if complex {
        1 <= length && length <= 15
    } else {
        [1u8, 2, 4, 8, 16].contains(&length)
    }
}

#[test]
fn standard_rhythm_fills_eight_bars() {
    let lengths = generate_durations(8, false, BUDGET).unwrap();
    assert_eq!(lengths.len(), 12);
    assert!(lengths.iter().all(|&l| in_vocabulary(l, false)));
    assert_eq!(sum(&lengths), 128);
}

#[test]
fn complex_rhythm_fills_six_bars() {
    let lengths = generate_durations(6, true, BUDGET).unwrap();
    assert!(lengths.iter().all(|&l| in_vocabulary(l, true)));
    assert_eq!(sum(&lengths), 96);
}

#[test]
fn standard_rhythm_never_leaves_the_vocabulary() {
    for bars in 3..=7u64 {
        for _ in 0..20 {
            let lengths = generate_durations(bars, false, BUDGET).unwrap();
            for length in lengths {
                assert!(length == 16 || length == 8 || length == 4 || length == 2 || length == 1);
            }
            assert_eq!(sum(&lengths), 16 * bars as u128);
        }
    }
}

#[test]
fn standard_rhythm_uses_sixteenth_notes_too() {
    let mut seen = false;
    for _ in 0..50 {
        let lengths = generate_durations(4, false, BUDGET).unwrap();
        if lengths.contains(&1) {
            seen = true;
        }
    }
    assert!(seen);
}

#[test]
fn four_bars_of_standard_rhythm_succeed_or_report() {
    assert!(is_reachable(4, false));
    match generate_durations(4, false, 50) {
        Ok(lengths) => {
            assert!(lengths.iter().all(|&l| in_vocabulary(l, false)));
            assert_eq!(sum(&lengths), 64);
        }
        Err(e) => assert_eq!(
            e,
            GenerationError::ConstraintUnsatisfiable { bars: 4, complex: false, attempts: 50 }
        ),
    }
    let lengths = generate_durations(4, false, BUDGET).unwrap();
    assert_eq!(sum(&lengths), 64);
}

#[test]
fn no_attempts_allowed_is_a_failure() {
    assert_eq!(
        generate_durations(8, false, 0),
        Err(GenerationError::ConstraintUnsatisfiable { bars: 8, complex: false, attempts: 0 })
    );
}

#[test]
fn unreachable_targets_fail_without_an_attempt() {
    assert_eq!(
        generate_durations(13, false, u64::MAX),
        Err(GenerationError::ConstraintUnsatisfiable { bars: 13, complex: false, attempts: 0 })
    );
    assert_eq!(
        generate_durations(12, true, u64::MAX),
        Err(GenerationError::ConstraintUnsatisfiable { bars: 12, complex: true, attempts: 0 })
    );
    assert_eq!(
        generate_durations(0, false, u64::MAX),
        Err(GenerationError::ConstraintUnsatisfiable { bars: 0, complex: false, attempts: 0 })
    );
    assert_eq!(
        generate_durations(u64::MAX, true, u64::MAX),
        Err(GenerationError::ConstraintUnsatisfiable {
            bars: u64::MAX,
            complex: true,
            attempts: 0
        })
    );
}

#[test]
fn a_spent_budget_is_reported_with_the_parameters() {
    // Twelve bars of standard rhythm take twelve whole notes: one batch in 5^12.
    match generate_durations(12, false, 3) {
        Ok(lengths) => assert_eq!(lengths, [16; 12]),
        Err(e) => assert_eq!(
            e,
            GenerationError::ConstraintUnsatisfiable { bars: 12, complex: false, attempts: 3 }
        ),
    }
}

#[test]
fn reachable_bar_counts() {
    assert!(!is_reachable(0, false));
    assert!(!is_reachable(0, true));
    for bars in 1..=11u64 {
        assert!(is_reachable(bars, false));
        assert!(is_reachable(bars, true));
    }
    assert!(is_reachable(12, false));
    assert!(!is_reachable(12, true));
    assert!(!is_reachable(13, false));
    assert!(!is_reachable(u64::MAX, false));
    assert!(!is_reachable(u64::MAX, true));
}

#[test]
fn draws_stand_for_lengths() {
    assert_eq!(draw_to_length(0, false), None);
    assert_eq!(draw_to_length(1, false), Some(16));
    assert_eq!(draw_to_length(2, false), Some(8));
    assert_eq!(draw_to_length(3, false), Some(4));
    assert_eq!(draw_to_length(4, false), Some(2));
    assert_eq!(draw_to_length(5, false), Some(1));
    assert_eq!(draw_to_length(6, false), None);
    assert_eq!(draw_to_length(usize::MAX, false), None);
    assert_eq!(draw_to_length(0, true), None);
    for draw in 1..=15usize {
        assert_eq!(draw_to_length(draw, true), Some(draw as u8));
    }
    assert_eq!(draw_to_length(16, true), None);
    assert_eq!(draw_to_length(256 + 5, true), None);
    assert_eq!(draw_to_length(usize::MAX, true), None);
}

#[test]
fn twelve_draws_make_a_batch() {
    assert_eq!(
        batch_from_draws(&[1, 2, 3, 4, 5, 1, 2, 3, 4, 5, 1, 2], false),
        Some([16, 8, 4, 2, 1, 16, 8, 4, 2, 1, 16, 8])
    );
    assert_eq!(
        batch_from_draws(&[1, 2, 3, 4, 5, 6, 7, 8, 9, 10, 11, 15], true),
        Some([1, 2, 3, 4, 5, 6, 7, 8, 9, 10, 11, 15])
    );
    assert_eq!(batch_from_draws(&[1, 2, 3, 4, 5, 6, 1, 1, 1, 1, 1, 1], false), None);
    assert_eq!(batch_from_draws(&[1; 11], false), None);
    assert_eq!(batch_from_draws(&[1; 13], true), None);
    assert_eq!(batch_from_draws(&[], true), None);
}

#[test]
fn a_batch_fills_the_bars_that_it_sums_to() {
    assert!(batch_fills(&[16; 12], 12));
    assert!(!batch_fills(&[16; 12], 11));
    assert!(batch_fills(&[16, 16, 8, 8, 4, 4, 2, 2, 1, 1, 1, 1], 4));
    assert!(batch_fills(&[5, 5, 5, 5, 5, 5, 5, 5, 5, 5, 5, 9], 4));
    assert!(!batch_fills(&[1; 12], 0));
    assert!(!batch_fills(&[1; 12], 1));
    assert!(!batch_fills(&[16; 12], u64::MAX));
}

#[test]
fn rhythm_from_given_draws_is_the_first_batch_that_fits() {
    let mut draws = vec![1usize; 12];
    draws.extend_from_slice(&[1, 1, 1, 1, 1, 1, 1, 2, 3, 4, 5, 5]);
    draws.extend_from_slice(&[1, 1, 1, 1, 1, 1, 2, 2, 2, 3, 3, 3, 3]);
    assert_eq!(
        durations_from_draws(&draws, 8, false),
        Ok([16, 16, 16, 16, 16, 16, 16, 8, 4, 2, 1, 1])
    );
    assert_eq!(durations_from_draws(&draws, 12, false), Ok([16; 12]));
}

#[test]
fn complex_rhythm_from_given_draws() {
    let draws = [5usize, 5, 5, 5, 5, 5, 5, 5, 5, 5, 5, 9];
    assert_eq!(
        durations_from_draws(&draws, 4, true),
        Ok([5, 5, 5, 5, 5, 5, 5, 5, 5, 5, 5, 9])
    );
    assert_eq!(
        durations_from_draws(&draws, 4, false),
        Err(GenerationError::ConstraintUnsatisfiable { bars: 4, complex: false, attempts: 1 })
    );
}

#[test]
fn given_draws_without_a_fit_give_the_error() {
    let draws = vec![1usize; 30];
    assert_eq!(
        durations_from_draws(&draws, 8, false),
        Err(GenerationError::ConstraintUnsatisfiable { bars: 8, complex: false, attempts: 2 })
    );
    assert_eq!(
        durations_from_draws(&[], 8, true),
        Err(GenerationError::ConstraintUnsatisfiable { bars: 8, complex: true, attempts: 0 })
    );
    assert_eq!(
        durations_from_draws(&[1; 11], 8, true),
        Err(GenerationError::ConstraintUnsatisfiable { bars: 8, complex: true, attempts: 0 })
    );
}

#[test]
fn a_draw_outside_the_vocabulary_spoils_its_batch() {
    let mut draws = vec![0usize, 1, 1, 1, 1, 1, 1, 2, 3, 4, 5, 5];
    draws.extend_from_slice(&[1, 1, 1, 1, 1, 1, 1, 2, 3, 4, 5, 5]);
    assert_eq!(
        durations_from_draws(&draws[..12], 8, false),
        Err(GenerationError::ConstraintUnsatisfiable { bars: 8, complex: false, attempts: 1 })
    );
    assert_eq!(
        durations_from_draws(&draws, 8, false),
        Ok([16, 16, 16, 16, 16, 16, 16, 8, 4, 2, 1, 1])
    );
}
