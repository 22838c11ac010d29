//! The reading of one account: at most three draws, oldest first.

use vstd::prelude::*;

verus! {

/// One draw: a 128-bit value.
pub type Draw = [u8; 16];

/// The number of draws that make a full reading.
pub const READING_LEN: usize = 3;

/// The reading that follows `history` once `value` has been drawn: a full
/// reading is dropped and `value` opens a new one; otherwise `value` is
/// appended.
pub open spec fn next_history(history: Seq<Draw>, value: Draw) -> Seq<Draw> {
    if history.len() >= READING_LEN {
        seq![value]
    } else {
        history.push(value)
    }
}

/// Records `value` in `history` and returns the reading that results.
pub fn push_draw(history: Vec<Draw>, value: Draw) -> (updated: Vec<Draw>)
    ensures
        updated@ == next_history(history@, value),
{
    let mut current = history;
    if current.len() >= READING_LEN {
        current = Vec::new();
    }
    current.push(value);
    current
}

/// A copy of `history`.
pub fn copy_history(history: &Vec<Draw>) -> (copy: Vec<Draw>)
    ensures
        copy@ == history@,
{
    let mut copy: Vec<Draw> = Vec::new();
    let mut i: usize = 0;
    while i < history.len()
        invariant
            i <= history@.len(),
            copy@ == history@.subrange(0, i as int),
        decreases history@.len() - i,
    {
        copy.push(history[i]);
        assert(copy@ =~= history@.subrange(0, i + 1));
        i += 1;
    }
    assert(history@.subrange(0, i as int) =~= history@);
    copy
}

/// A reading never outgrows three draws, whatever came before it, and it
/// always ends in the draw just made.
pub proof fn lemma_next_history_bounded(history: Seq<Draw>, value: Draw)
    ensures
        1 <= next_history(history, value).len() <= READING_LEN,
        next_history(history, value).last() == value,
{
}

} // verus!
