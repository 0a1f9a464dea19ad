//! The rhythm: twelve note lengths from one vocabulary that together fill a
//! given number of bars exactly.
//!
//! A rhythm is found by rejection: a batch of twelve lengths is drawn, and
//! kept if its sum is the target; otherwise the whole batch is thrown away
//! and another is drawn, up to a given number of attempts.

use crate::duration::{
    in_vocabulary,
    int_to_length,
    length_of_code,
    lemma_total_of_twelve,
    sum,
    total,
};
use crate::error::GenerationError;
use crate::random::random_in_range;
use vstd::prelude::*;

verus! {

/// Twelve lengths, all from the vocabulary.
pub open spec fn is_batch(lengths: Seq<u8>, complex: bool) -> bool {
    &&& lengths.len() == 12
    &&& forall|i: int| 0 <= i < 12 ==> in_vocabulary(#[trigger] lengths[i] as int, complex)
}

/// A batch whose lengths sum to exactly `bars` whole notes.
pub open spec fn fits(lengths: Seq<u8>, bars: int, complex: bool) -> bool {
    &&& is_batch(lengths, complex)
    &&& total(lengths) == 16 * bars
}

/// Some batch of the vocabulary fills `bars` bars.
pub open spec fn reachable(bars: int, complex: bool) -> bool {
    exists|lengths: Seq<u8>| fits(lengths, bars, complex)
}

/// The largest number of bars that twelve lengths of the vocabulary can
/// fill: twelve whole notes, or eleven and a quarter bars of fifteen
/// sixteenths each.
pub open spec fn max_bars(complex: bool) -> int {
    if complex {
        11
    } else {
        12
    }
}

/// Twelve lengths of which the first `k` are `first` and the others `rest`.
pub open spec fn two_level(k: int, first: u8, rest: u8) -> Seq<u8> {
    Seq::new(12, |i: int| if i < k { first } else { rest })
}

/// One batch that fills `bars` bars, for each number of bars that can be
/// filled. In the complex vocabulary the sixteenths are spread as evenly as
/// they go; in the standard one two neighbouring lengths are mixed.
pub open spec fn example_fit(bars: int, complex: bool) -> Seq<u8> {
    if complex {
        two_level((16 * bars) % 12, ((16 * bars) / 12 + 1) as u8, ((16 * bars) / 12) as u8)
    } else if bars >= 6 {
        two_level(2 * (12 - bars), 8, 16)
    } else if bars >= 3 {
        two_level(4 * (6 - bars), 4, 8)
    } else if bars == 2 {
        two_level(8, 2, 4)
    } else {
        two_level(8, 1, 2)
    }
}

/// Exactly the bar counts from 1 to `max_bars` can be filled, and
/// `example_fit` shows how.
pub proof fn lemma_reachable(bars: int, complex: bool)
    ensures
        reachable(bars, complex) <==> 1 <= bars <= max_bars(complex),
        1 <= bars <= max_bars(complex) ==> fits(example_fit(bars, complex), bars, complex),
{
    if 1 <= bars <= max_bars(complex) {
        let batch = example_fit(bars, complex);
        lemma_total_of_twelve(batch);
        assert(fits(batch, bars, complex));
    }
    if reachable(bars, complex) {
        let lengths = choose|lengths: Seq<u8>| fits(lengths, bars, complex);
        lemma_total_of_twelve(lengths);
    }
}

/// Says whether any batch of the vocabulary fills `bars` bars.
pub fn is_reachable(bars: u64, complex: bool) -> (yes: bool)
    ensures
        yes == reachable(bars as int, complex),
        yes == (1 <= bars <= max_bars(complex)),
{
    proof {
        lemma_reachable(bars as int, complex);
    }
    if complex {
        1 <= bars && bars <= 11
    } else {
        1 <= bars && bars <= 12
    }
}

/// The length that a draw stands for: in the standard vocabulary the draw
/// is a code 1..=5, in the complex one it is the number of sixteenths,
/// 1..=15. Any other draw stands for no length.
pub open spec fn length_of_draw(draw: int, complex: bool) -> Option<u8> {
    if complex {
        if 1 <= draw <= 15 {
            Some(draw as u8)
        } else {
            None
        }
    } else {
        length_of_code(draw)
    }
}

/// One past the largest draw that stands for a length; the smallest is 1.
pub open spec fn draw_limit(complex: bool) -> int {
    if complex {
        16
    } else {
        6
    }
}

/// Converts a draw to the length that it stands for.
pub fn draw_to_length(draw: usize, complex: bool) -> (length: Option<u8>)
    ensures
        length == length_of_draw(draw as int, complex),
        length is Some <==> 1 <= draw < draw_limit(complex),
        length matches Some(sixteenths) ==> in_vocabulary(sixteenths as int, complex),
{
    if complex {
        if 1 <= draw && draw <= 15 {
            Some(draw as u8)
        } else {
            None
        }
    } else if draw <= 5 {
        int_to_length(draw as i64)
    } else {
        None
    }
}

/// The batch that twelve draws stand for, if each of them stands for a
/// length.
pub open spec fn batch_of_draws(draws: Seq<usize>, complex: bool) -> Option<Seq<u8>> {
    if draws.len() == 12 && forall|i: int|
        0 <= i < 12 ==> (#[trigger] length_of_draw(draws[i] as int, complex)) is Some {
        Some(Seq::new(12, |i: int| length_of_draw(draws[i] as int, complex).unwrap()))
    } else {
        None
    }
}

/// What twelve draws stand for is a batch of the vocabulary.
pub proof fn lemma_batch_of_draws(draws: Seq<usize>, complex: bool)
    requires
        batch_of_draws(draws, complex) is Some,
    ensures
        is_batch(batch_of_draws(draws, complex).unwrap(), complex),
{
    let batch = batch_of_draws(draws, complex).unwrap();
    assert forall|i: int| 0 <= i < 12 implies in_vocabulary(#[trigger] batch[i] as int, complex) by {
        assert(length_of_draw(draws[i] as int, complex) is Some);
    }
}

/// The batch for the twelve draws that start at `start`.
fn batch_at(draws: &[usize], start: usize, complex: bool) -> (batch: Option<[u8; 12]>)
    requires
        start + 12 <= draws.len(),
    ensures
        match batch {
            Some(lengths) => batch_of_draws(draws@.subrange(start as int, start + 12), complex)
                == Some(lengths@),
            None => batch_of_draws(draws@.subrange(start as int, start + 12), complex) is None,
        },
{
    let ghost chunk = draws@.subrange(start as int, start + 12);
    let mut lengths = [0u8; 12];
    let mut i: usize = 0;
    while i < 12
        invariant
            i <= 12,
            start + 12 <= draws.len(),
            chunk == draws@.subrange(start as int, start + 12),
            forall|j: int|
                0 <= j < i ==> (#[trigger] length_of_draw(chunk[j] as int, complex)) == Some(
                    lengths@[j],
                ),
        decreases 12 - i,
    {
        match draw_to_length(draws[start + i], complex) {
            Some(sixteenths) => {
                lengths[i] = sixteenths;
            },
            None => {
                proof {
                    assert(length_of_draw(chunk[i as int] as int, complex) is None);
                }
                return None;
            },
        }
        i = i + 1;
    }
    proof {
        assert(batch_of_draws(chunk, complex) is Some);
        assert(batch_of_draws(chunk, complex).unwrap() =~= lengths@);
    }
    Some(lengths)
}

/// Converts exactly twelve draws to the batch that they stand for.
pub fn batch_from_draws(draws: &[usize], complex: bool) -> (batch: Option<[u8; 12]>)
    ensures
        match batch {
            Some(lengths) => batch_of_draws(draws@, complex) == Some(lengths@),
            None => batch_of_draws(draws@, complex) is None,
        },
        batch matches Some(lengths) ==> is_batch(lengths@, complex),
{
    if draws.len() != 12 {
        return None;
    }
    proof {
        assert(draws@.subrange(0, 12) =~= draws@);
        if batch_of_draws(draws@, complex) is Some {
            lemma_batch_of_draws(draws@, complex);
        }
    }
    batch_at(draws, 0, complex)
}

/// Says whether the batch fills `bars` bars.
pub fn batch_fills(lengths: &[u8; 12], bars: u64) -> (yes: bool)
    ensures
        yes == (total(lengths@) == 16 * bars),
{
    sum(lengths.as_slice()) == 16 * (bars as u128)
}

/// The first batch among the draws, taken twelve at a time from the front,
/// that fills `bars` bars. Draws left over at the end make no batch.
pub open spec fn first_fit(draws: Seq<usize>, bars: int, complex: bool) -> Option<Seq<u8>>
    decreases draws.len(),
{
    if draws.len() < 12 {
        None
    } else {
        let batch = batch_of_draws(draws.take(12), complex);
        if batch is Some && total(batch.unwrap()) == 16 * bars {
            batch
        } else {
            first_fit(draws.skip(12), bars, complex)
        }
    }
}

/// What a run over `draws` returns: the first batch that fits, or, where
/// none does, the error with the number of batches that were tried.
pub open spec fn is_rhythm_outcome(
    draws: Seq<usize>,
    bars: u64,
    complex: bool,
    result: Result<[u8; 12], GenerationError>,
) -> bool {
    match result {
        Ok(lengths) => first_fit(draws, bars as int, complex) == Some(lengths@),
        Err(e) => first_fit(draws, bars as int, complex) is None && e == (
        GenerationError::ConstraintUnsatisfiable {
            bars,
            complex,
            attempts: (draws.len() / 12) as u64,
        }),
    }
}

/// What `first_fit` finds is a batch of the vocabulary that fills the bars.
pub proof fn lemma_first_fit_fits(draws: Seq<usize>, bars: int, complex: bool)
    requires
        first_fit(draws, bars, complex) is Some,
    ensures
        fits(first_fit(draws, bars, complex).unwrap(), bars, complex),
    decreases draws.len(),
{
    let batch = batch_of_draws(draws.take(12), complex);
    if batch is Some && total(batch.unwrap()) == 16 * bars {
        lemma_batch_of_draws(draws.take(12), complex);
    } else {
        lemma_first_fit_fits(draws.skip(12), bars, complex);
    }
}

/// Finds a rhythm in a given sequence of draws, as the generator would if
/// its random source returned exactly these.
pub fn durations_from_draws(draws: &[usize], bars: u64, complex: bool) -> (result: Result<
    [u8; 12],
    GenerationError,
>)
    ensures
        is_rhythm_outcome(draws@, bars, complex, result),
        result matches Ok(lengths) ==> fits(lengths@, bars as int, complex),
{
    let mut start: usize = 0;
    proof {
        assert(draws@.skip(0) =~= draws@);
    }
    while draws.len() - start >= 12
        invariant
            start <= draws.len(),
            first_fit(draws@, bars as int, complex) == first_fit(
                draws@.skip(start as int),
                bars as int,
                complex,
            ),
        decreases draws.len() - start,
    {
        proof {
            let rest = draws@.skip(start as int);
            assert(rest.take(12) =~= draws@.subrange(start as int, start + 12));
            assert(rest.skip(12) =~= draws@.skip(start + 12));
        }
        if let Some(lengths) = batch_at(draws, start, complex) {
            if batch_fills(&lengths, bars) {
                proof {
                    lemma_first_fit_fits(draws@, bars as int, complex);
                }
                return Ok(lengths);
            }
        }
        start = start + 12;
    }
    Err(
        GenerationError::ConstraintUnsatisfiable {
            bars,
            complex,
            attempts: (draws.len() / 12) as u64,
        },
    )
}

/// Batches that were tried and did not fit change nothing for a batch that
/// follows them.
pub proof fn lemma_first_fit_after_misses(
    tried: Seq<usize>,
    next: Seq<usize>,
    bars: int,
    complex: bool,
)
    requires
        tried.len() % 12 == 0,
        first_fit(tried, bars, complex) is None,
    ensures
        first_fit(tried + next, bars, complex) == first_fit(next, bars, complex),
    decreases tried.len(),
{
    if tried.len() == 0 {
        assert(tried + next =~= next);
    } else {
        assert((tried + next).take(12) =~= tried.take(12));
        assert((tried + next).skip(12) =~= tried.skip(12) + next);
        lemma_first_fit_after_misses(tried.skip(12), next, bars, complex);
    }
}

/// The draws that a random run with a budget of `max_attempts` batches can
/// make: whole batches of draws that each stand for a length, none after a
/// batch that fits, and none at all where no batch can fit; the run ends
/// without a fit only when the budget is spent.
pub open spec fn is_rhythm_run(
    draws: Seq<usize>,
    bars: u64,
    complex: bool,
    max_attempts: u64,
) -> bool {
    &&& draws.len() % 12 == 0
    &&& draws.len() <= 12 * max_attempts
    &&& forall|i: int|
        0 <= i < draws.len() ==> 1 <= #[trigger] draws[i] < draw_limit(complex)
    &&& draws.len() > 0 ==> reachable(bars as int, complex) && first_fit(
        draws.take(draws.len() - 12),
        bars as int,
        complex,
    ) is None
    &&& first_fit(draws, bars as int, complex) is None && reachable(bars as int, complex)
        ==> draws.len() == 12 * max_attempts
}

/// Draws one batch: twelve draws, each uniform over the vocabulary.
fn draw_batch(complex: bool) -> (drawn: ([u8; 12], Ghost<Seq<usize>>))
    ensures
        drawn.1@.len() == 12,
        forall|i: int| 0 <= i < 12 ==> 1 <= #[trigger] drawn.1@[i] < draw_limit(complex),
        batch_of_draws(drawn.1@, complex) == Some(drawn.0@),
{
    let limit: usize = if complex {
        16
    } else {
        6
    };
    let mut lengths = [0u8; 12];
    let ghost mut draws: Seq<usize> = Seq::empty();
    let mut i: usize = 0;
    while i < 12
        invariant
            i <= 12,
            limit == draw_limit(complex),
            draws.len() == i,
            forall|j: int| 0 <= j < i ==> 1 <= #[trigger] draws[j] < draw_limit(complex),
            forall|j: int|
                0 <= j < i ==> (#[trigger] length_of_draw(draws[j] as int, complex)) == Some(
                    lengths@[j],
                ),
        decreases 12 - i,
    {
        let draw = random_in_range(1, limit);
        let length = draw_to_length(draw, complex);
        lengths[i] = length.unwrap();
        proof {
            draws = draws.push(draw);
        }
        i = i + 1;
    }
    proof {
        assert(batch_of_draws(draws, complex) is Some);
        assert(batch_of_draws(draws, complex).unwrap() =~= lengths@);
    }
    (lengths, Ghost(draws))
}

/// Generates a rhythm of twelve lengths that fill `bars` bars: batches are
/// drawn until one fits, `max_attempts` of them at most. Where no batch of
/// the vocabulary can fit, none is drawn.
pub fn generate_durations(bars: u64, complex: bool, max_attempts: u64) -> (result: Result<
    [u8; 12],
    GenerationError,
>)
    ensures
        result matches Ok(lengths) ==> fits(lengths@, bars as int, complex),
        result matches Err(e) ==> e == (GenerationError::ConstraintUnsatisfiable {
            bars,
            complex,
            attempts: if reachable(bars as int, complex) {
                max_attempts
            } else {
                0
            },
        }),
        !reachable(bars as int, complex) || max_attempts == 0 ==> result is Err,
        exists|draws: Seq<usize>| #[trigger]
            is_rhythm_run(draws, bars, complex, max_attempts) && is_rhythm_outcome(
                draws,
                bars,
                complex,
                result,
            ),
{
    if !is_reachable(bars, complex) {
        let result = Err(GenerationError::ConstraintUnsatisfiable { bars, complex, attempts: 0 });
        proof {
            let none = Seq::<usize>::empty();
            assert(is_rhythm_run(none, bars, complex, max_attempts) && is_rhythm_outcome(
                none,
                bars,
                complex,
                result,
            ));
        }
        return result;
    }
    let mut attempts: u64 = 0;
    let ghost mut draws: Seq<usize> = Seq::empty();
    while attempts < max_attempts
        invariant
            attempts <= max_attempts,
            reachable(bars as int, complex),
            draws.len() == 12 * attempts,
            forall|i: int|
                0 <= i < draws.len() ==> 1 <= #[trigger] draws[i] < draw_limit(complex),
            first_fit(draws, bars as int, complex) is None,
            draws.len() > 0 ==> first_fit(
                draws.take(draws.len() - 12),
                bars as int,
                complex,
            ) is None,
        decreases max_attempts - attempts,
    {
        let (lengths, Ghost(batch_draws)) = draw_batch(complex);
        proof {
            lemma_first_fit_after_misses(draws, batch_draws, bars as int, complex);
            assert(batch_draws.take(12) =~= batch_draws);
            assert(first_fit(batch_draws.skip(12), bars as int, complex) is None);
            assert((draws + batch_draws).take(draws.len() as int) =~= draws);
            draws = draws + batch_draws;
        }
        attempts = attempts + 1;
        if batch_fills(&lengths, bars) {
            let result = Ok(lengths);
            proof {
                lemma_first_fit_fits(draws, bars as int, complex);
                assert(is_rhythm_run(draws, bars, complex, max_attempts) && is_rhythm_outcome(
                    draws,
                    bars,
                    complex,
                    result,
                ));
            }
            return result;
        }
    }
    let result = Err(
        GenerationError::ConstraintUnsatisfiable { bars, complex, attempts: max_attempts },
    );
    proof {
        assert(is_rhythm_run(draws, bars, complex, max_attempts) && is_rhythm_outcome(
            draws,
            bars,
            complex,
            result,
        ));
    }
    result
}

} // verus!
