//! Sequences that are worked through entry by entry, in place.

use vstd::prelude::*;

verus! {

/// One step of working through a sequence in place. `orig` is the sequence as
/// it was at first, `before` as it was when its first `i` entries had been
/// worked on, and `now` as it is with entry `i` worked on as well. Then the
/// entries done are those done before and the new one behind them, and the
/// entries still to do are as they were at first.
pub proof fn lemma_entry_done<T>(orig: Seq<T>, before: Seq<T>, now: Seq<T>, i: int)
    requires
        0 <= i < orig.len(),
        before.len() == orig.len(),
        before.skip(i) == orig.skip(i),
        now == before.update(i, now[i]),
    ensures
        now.len() == orig.len(),
        before[i] == orig[i],
        orig.take(i + 1).drop_last() == orig.take(i),
        orig.take(i + 1).last() == orig[i],
        now.take(i + 1) == before.take(i).push(now[i]),
        now.skip(i + 1) == orig.skip(i + 1),
{
    assert(before[i] == before.skip(i)[0]);
    assert(orig[i] == orig.skip(i)[0]);
    assert(orig.take(i + 1).drop_last() == orig.take(i));
    assert(now.take(i + 1) == before.take(i).push(now[i]));
    assert(now.skip(i + 1) == before.skip(i).skip(1));
    assert(orig.skip(i + 1) == orig.skip(i).skip(1));
}

} // verus!
