//! The tone row: the twelve pitch classes, each placed in one of twelve slots.
//!
//! A row is built by rejection: the pitch classes 1, 2, .., 12 are taken in
//! turn, and each goes to the first drawn slot that is still empty. A slot
//! holds 0 while it is empty.

use crate::error::GenerationError;
use crate::random::random_in_range;
use vstd::prelude::*;

verus! {

/// Number of slots that hold a pitch class.
pub open spec fn filled(slots: Seq<u8>) -> nat
    decreases slots.len(),
{
    if slots.len() == 0 {
        0
    } else {
        filled(slots.drop_last()) + if slots.last() != 0 {
            1nat
        } else {
            0nat
        }
    }
}

/// A row under construction: with `k` slots filled, the filled slots hold
/// the pitch classes 1..=k, no two of them the same.
pub open spec fn is_partial_row(slots: Seq<u8>) -> bool {
    &&& slots.len() == 12
    &&& forall|i: int| 0 <= i < 12 ==> #[trigger] slots[i] <= filled(slots)
    &&& forall|i: int, j: int| 0 <= i < j < 12 && slots[i] != 0 ==> slots[i] != slots[j]
}

/// A finished row: twelve pitch classes, pairwise distinct.
pub open spec fn is_tone_row(row: Seq<u8>) -> bool {
    &&& row.len() == 12
    &&& forall|i: int| 0 <= i < 12 ==> 1 <= #[trigger] row[i] <= 12
    &&& forall|i: int, j: int| 0 <= i < j < 12 ==> row[i] != row[j]
}

/// The row with every slot empty.
pub open spec fn empty_row() -> Seq<u8> {
    Seq::new(12, |i: int| 0u8)
}

/// One draw: the next pitch class goes to slot `draw` if that slot is empty;
/// a draw of a taken slot, or of no slot at all, changes nothing.
pub open spec fn offer_slot(slots: Seq<u8>, draw: int) -> Seq<u8> {
    if 0 <= draw < slots.len() && slots[draw] == 0 {
        slots.update(draw, (filled(slots) + 1) as u8)
    } else {
        slots
    }
}

/// The draws applied one after the other, first to last.
pub open spec fn offer_all(slots: Seq<u8>, draws: Seq<usize>) -> Seq<u8>
    decreases draws.len(),
{
    if draws.len() == 0 {
        slots
    } else {
        offer_slot(offer_all(slots, draws.drop_last()), draws.last() as int)
    }
}

/// The row that the draws build from nothing, if they complete one.
pub open spec fn row_from_draws(draws: Seq<usize>) -> Option<Seq<u8>> {
    let slots = offer_all(empty_row(), draws);
    if filled(slots) == 12 {
        Some(slots)
    } else {
        None
    }
}

/// No more slots are filled than there are; all are filled exactly when
/// none holds 0, and none is filled exactly when all hold 0.
pub proof fn lemma_filled_bounds(slots: Seq<u8>)
    ensures
        filled(slots) <= slots.len(),
        filled(slots) == slots.len() <==> (forall|i: int| 0 <= i < slots.len() ==> slots[i] != 0),
        filled(slots) == 0 <==> (forall|i: int| 0 <= i < slots.len() ==> slots[i] == 0),
    decreases slots.len(),
{
    if slots.len() > 0 {
        let front = slots.drop_last();
        lemma_filled_bounds(front);
        assert(forall|i: int| 0 <= i < front.len() ==> front[i] == slots[i]);
        if filled(slots) == slots.len() {
            assert(slots.last() != 0);
            assert(filled(front) == front.len());
            assert forall|i: int| 0 <= i < slots.len() implies slots[i] != 0 by {
                if i < front.len() {
                    assert(front[i] != 0);
                }
            }
        }
        if filled(slots) == 0 {
            assert forall|i: int| 0 <= i < slots.len() implies slots[i] == 0 by {
                if i < front.len() {
                    assert(front[i] == 0);
                }
            }
        }
    }
}

/// Filling an empty slot raises the number of filled slots by one.
pub proof fn lemma_filled_update(slots: Seq<u8>, at: int, value: u8)
    requires
        0 <= at < slots.len(),
        slots[at] == 0,
        value != 0,
    ensures
        filled(slots.update(at, value)) == filled(slots) + 1,
    decreases slots.len(),
{
    let after = slots.update(at, value);
    if at == slots.len() - 1 {
        assert(after.drop_last() =~= slots.drop_last());
    } else {
        lemma_filled_update(slots.drop_last(), at, value);
        assert(after.drop_last() =~= slots.drop_last().update(at, value));
    }
}

/// A draw keeps a row under construction well formed, and fills at most one
/// more slot.
pub proof fn lemma_offer_slot(slots: Seq<u8>, draw: int)
    requires
        is_partial_row(slots),
    ensures
        is_partial_row(offer_slot(slots, draw)),
        filled(slots) <= 12,
        filled(offer_slot(slots, draw)) == filled(slots) + if 0 <= draw < 12 && slots[draw] == 0 {
            1nat
        } else {
            0nat
        },
        0 <= draw < 12 && slots[draw] == 0 ==> filled(slots) < 12,
{
    lemma_filled_bounds(slots);
    if 0 <= draw < 12 && slots[draw] == 0 {
        let next = (filled(slots) + 1) as u8;
        lemma_filled_update(slots, draw, next);
    }
}

/// Once all twelve slots are filled, the row is a tone row.
pub proof fn lemma_full_row(slots: Seq<u8>)
    requires
        is_partial_row(slots),
        filled(slots) == 12,
    ensures
        is_tone_row(slots),
{
    lemma_filled_bounds(slots);
}

/// A tone row is a permutation of the pitch classes 1..=12: no pitch class
/// occurs twice, and every one of them occurs.
pub proof fn lemma_tone_row_is_permutation(row: Seq<u8>)
    requires
        is_tone_row(row),
    ensures
        row.no_duplicates(),
        row.to_set() == Set::new(|v: u8| 1 <= v <= 12),
        forall|v: u8| 1 <= v <= 12 ==> row.contains(v),
{
    let classes = Set::new(|v: u8| 1 <= v <= 12);
    let scale = Seq::new(12, |i: int| (i + 1) as u8);
    assert(scale.no_duplicates());
    assert(scale.to_set() =~= classes) by {
        assert forall|v: u8| classes.contains(v) implies scale.to_set().contains(v) by {
            assert(scale[v - 1] == v);
        }
    }
    scale.unique_seq_to_set();
    vstd::seq_lib::seq_to_set_is_finite(scale);
    assert(row.no_duplicates()) by {
        assert forall|i: int, j: int| 0 <= i < row.len() && 0 <= j < row.len() && i != j implies row[i]
            != row[j] by {
            if i < j {
                assert(row[i] != row[j]);
            } else {
                assert(row[j] != row[i]);
            }
        }
    }
    row.unique_seq_to_set();
    vstd::seq_lib::seq_to_set_is_finite(row);
    assert(row.to_set().subset_of(classes));
    vstd::set_lib::lemma_subset_equality(row.to_set(), classes);
    assert forall|v: u8| 1 <= v <= 12 implies row.contains(v) by {
        assert(classes.contains(v));
        assert(row.to_set().contains(v));
    }
}

/// Whatever the draws, what they build is a row under construction, and it
/// has no more slots filled than there were draws.
pub proof fn lemma_offer_all(draws: Seq<usize>)
    ensures
        is_partial_row(offer_all(empty_row(), draws)),
        filled(offer_all(empty_row(), draws)) <= draws.len(),
        filled(offer_all(empty_row(), draws)) <= 12,
    decreases draws.len(),
{
    if draws.len() == 0 {
        lemma_filled_bounds(empty_row());
    } else {
        lemma_offer_all(draws.drop_last());
        lemma_offer_slot(offer_all(empty_row(), draws.drop_last()), draws.last() as int);
    }
    lemma_filled_bounds(offer_all(empty_row(), draws));
}

/// What a run over `draws` returns: the row that they build, or, where they
/// leave a slot empty, the error with their number.
pub open spec fn is_row_outcome(
    draws: Seq<usize>,
    result: Result<[u8; 12], GenerationError>,
) -> bool {
    match result {
        Ok(row) => row_from_draws(draws) == Some(row@),
        Err(e) => row_from_draws(draws) is None && e == (GenerationError::InternalInvariantViolation {
            draws: draws.len() as u64,
        }),
    }
}

/// The same draws give the same row, or the same error.
pub proof fn lemma_draws_determine_outcome(
    draws: Seq<usize>,
    first: Result<[u8; 12], GenerationError>,
    second: Result<[u8; 12], GenerationError>,
)
    requires
        is_row_outcome(draws, first),
        is_row_outcome(draws, second),
    ensures
        first == second,
{
    if let Ok(a) = first {
        if let Ok(b) = second {
            assert(a@ == b@);
            assert(a =~= b);
        }
    }
}

/// A tone row under construction.
pub struct RowBuilder {
    slots: [u8; 12],
    placed: u8,
}

impl RowBuilder {
    /// The slots, in melody order; an empty slot holds 0.
    pub closed spec fn view(&self) -> Seq<u8> {
        self.slots@
    }

    /// The slots are a row under construction, and the count of placed
    /// pitch classes is the number of filled slots.
    pub closed spec fn wf(&self) -> bool {
        &&& is_partial_row(self.slots@)
        &&& self.placed == filled(self.slots@)
    }

    /// A builder with every slot empty.
    pub fn new() -> (builder: Self)
        ensures
            builder.wf(),
            builder@ == empty_row(),
    {
        let builder = RowBuilder { slots: [0u8; 12], placed: 0 };
        proof {
            assert(builder.slots@ =~= empty_row());
            lemma_filled_bounds(empty_row());
        }
        builder
    }

    /// Offers slot `slot` to the next pitch class, and says whether the
    /// pitch class went there.
    pub fn offer(&mut self, slot: usize) -> (placed: bool)
        requires
            old(self).wf(),
        ensures
            final(self).wf(),
            final(self)@ == offer_slot(old(self)@, slot as int),
            placed == (slot < 12 && old(self)@[slot as int] == 0),
    {
        proof {
            lemma_offer_slot(self.slots@, slot as int);
        }
        if slot < 12 && self.slots[slot] == 0 {
            self.placed = self.placed + 1;
            self.slots[slot] = self.placed;
            true
        } else {
            false
        }
    }

    /// Number of pitch classes placed so far.
    pub fn placed(&self) -> (count: u8)
        requires
            self.wf(),
        ensures
            count == filled(self@),
            count <= 12,
    {
        proof {
            lemma_filled_bounds(self.slots@);
        }
        self.placed
    }

    /// True once all twelve pitch classes are placed.
    pub fn is_complete(&self) -> (complete: bool)
        requires
            self.wf(),
        ensures
            complete == (filled(self@) == 12),
    {
        self.placed == 12
    }

    /// The finished row, or `None` while a slot is still empty.
    pub fn row(&self) -> (row: Option<[u8; 12]>)
        requires
            self.wf(),
        ensures
            row matches Some(r) ==> r@ == self@ && is_tone_row(r@),
            row is Some <==> filled(self@) == 12,
    {
        if self.placed == 12 {
            proof {
                lemma_full_row(self.slots@);
            }
            Some(self.slots)
        } else {
            None
        }
    }
}

/// Builds a tone row from a given sequence of slot draws, as the generator
/// would if its random source returned exactly these.
pub fn pitches_from_draws(draws: &[usize]) -> (result: Result<[u8; 12], GenerationError>)
    ensures
        is_row_outcome(draws@, result),
        result matches Ok(row) ==> is_tone_row(row@),
{
    let mut builder = RowBuilder::new();
    let mut i: usize = 0;
    while i < draws.len()
        invariant
            i <= draws.len(),
            builder.wf(),
            builder@ == offer_all(empty_row(), draws@.take(i as int)),
        decreases draws.len() - i,
    {
        builder.offer(draws[i]);
        proof {
            assert(draws@.take(i + 1).drop_last() =~= draws@.take(i as int));
        }
        i = i + 1;
    }
    proof {
        assert(draws@.take(i as int) =~= draws@);
    }
    match builder.row() {
        Some(row) => Ok(row),
        None => Err(GenerationError::InternalInvariantViolation { draws: draws.len() as u64 }),
    }
}

/// The draws that a random run with a budget of `max_draws` can make: each
/// names a slot, none is made once the row is complete, and the run ends
/// with an incomplete row only when the budget is spent.
pub open spec fn is_row_run(draws: Seq<usize>, max_draws: u64) -> bool {
    &&& draws.len() <= max_draws
    &&& forall|i: int| 0 <= i < draws.len() ==> #[trigger] draws[i] < 12
    &&& draws.len() > 0 ==> row_from_draws(draws.drop_last()) is None
    &&& row_from_draws(draws) is None ==> draws.len() == max_draws
}

/// Generates a tone row: each pitch class in turn is offered uniformly drawn
/// slots until it lands on an empty one. At most `max_draws` slots are drawn
/// in all.
pub fn generate_pitches(max_draws: u64) -> (result: Result<[u8; 12], GenerationError>)
    ensures
        result matches Ok(row) ==> is_tone_row(row@),
        result matches Err(e) ==> e == (GenerationError::InternalInvariantViolation {
            draws: max_draws,
        }),
        max_draws < 12 ==> result is Err,
        exists|draws: Seq<usize>| #[trigger]
            is_row_run(draws, max_draws) && is_row_outcome(draws, result),
{
    let mut builder = RowBuilder::new();
    let mut used: u64 = 0;
    let ghost mut draws: Seq<usize> = Seq::empty();
    while used < max_draws && !builder.is_complete()
        invariant
            used <= max_draws,
            draws.len() == used,
            forall|i: int| 0 <= i < draws.len() ==> #[trigger] draws[i] < 12,
            draws.len() > 0 ==> row_from_draws(draws.drop_last()) is None,
            builder.wf(),
            builder@ == offer_all(empty_row(), draws),
        decreases max_draws - used,
    {
        let slot = random_in_range(0, 12);
        builder.offer(slot);
        proof {
            assert(draws.push(slot).drop_last() =~= draws);
            draws = draws.push(slot);
        }
        used = used + 1;
    }
    let result = match builder.row() {
        Some(row) => Ok(row),
        None => Err(GenerationError::InternalInvariantViolation { draws: used }),
    };
    proof {
        lemma_offer_all(draws);
        assert(is_row_run(draws, max_draws) && is_row_outcome(draws, result));
    }
    result
}

} // verus!
