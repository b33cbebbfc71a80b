//! Facts about the board model, and the laws that the moves obey.
use crate::model::{
    mergeable, merged_any, move_outcome, moved, occupied, peak, slot, stuck, sweep, swept, total,
    Direction,
};
use vstd::prelude::*;

verus! {

/// Changing one cell changes the sum by the difference.
pub proof fn lemma_total_update(s: Seq<u64>, i: int, v: u64)
    requires
        0 <= i < s.len(),
    ensures
        total(s.update(i, v)) == total(s) - s[i] + v,
    decreases s.len(),
{
    let t = s.update(i, v);
    if i == s.len() - 1 {
        assert(t.drop_last() =~= s.drop_last());
    } else {
        assert(t.drop_last() =~= s.drop_last().update(i, v));
        lemma_total_update(s.drop_last(), i, v);
    }
}

/// Two distinct cells together hold no more than the whole sum.
pub proof fn lemma_pair_le_total(s: Seq<u64>, i: int, j: int)
    requires
        0 <= i < s.len(),
        0 <= j < s.len(),
        i != j,
    ensures
        s[i] + s[j] <= total(s),
    decreases s.len(),
{
    let n = s.len() - 1;
    if i == n {
        lemma_cell_le_total(s.drop_last(), j);
    } else if j == n {
        lemma_cell_le_total(s.drop_last(), i);
    } else {
        lemma_pair_le_total(s.drop_last(), i, j);
    }
}

/// One cell holds no more than the whole sum.
pub proof fn lemma_cell_le_total(s: Seq<u64>, i: int)
    requires
        0 <= i < s.len(),
    ensures
        s[i] <= total(s),
        0 <= total(s),
    decreases s.len(),
{
    lemma_total_nonneg(s.drop_last());
    if i < s.len() - 1 {
        lemma_cell_le_total(s.drop_last(), i);
    }
}

/// The sum of cells is never negative.
pub proof fn lemma_total_nonneg(s: Seq<u64>)
    ensures
        0 <= total(s),
    decreases s.len(),
{
    if s.len() > 0 {
        lemma_total_nonneg(s.drop_last());
    }
}

/// The sum of a prefix is at most the whole sum.
pub proof fn lemma_prefix_total(s: Seq<u64>, i: int)
    requires
        0 <= i <= s.len(),
    ensures
        total(s.take(i)) <= total(s),
    decreases s.len(),
{
    if i < s.len() {
        assert(s.drop_last().take(i) =~= s.take(i));
        lemma_prefix_total(s.drop_last(), i);
    } else {
        assert(s.take(i) =~= s);
    }
}

/// The largest cell is at most the sum, and not negative.
pub proof fn lemma_peak_le_total(s: Seq<u64>)
    ensures
        0 <= peak(s) <= total(s),
    decreases s.len(),
{
    if s.len() > 0 {
        lemma_peak_le_total(s.drop_last());
        lemma_total_nonneg(s.drop_last());
    }
}

/// A board of empty cells has sum, peak and count of occupied cells zero.
pub proof fn lemma_all_empty(s: Seq<u64>)
    requires
        forall|i: int| 0 <= i < s.len() ==> #[trigger] s[i] == 0,
    ensures
        total(s) == 0,
        peak(s) == 0,
        occupied(s) == 0,
    decreases s.len(),
{
    if s.len() > 0 {
        lemma_all_empty(s.drop_last());
    }
}

/// Filling an empty cell with a tile adds one occupied cell.
pub proof fn lemma_occupied_fill(s: Seq<u64>, i: int, v: u64)
    requires
        0 <= i < s.len(),
        s[i] == 0,
        v != 0,
    ensures
        occupied(s.update(i, v)) == occupied(s) + 1,
    decreases s.len(),
{
    let t = s.update(i, v);
    if i == s.len() - 1 {
        assert(t.drop_last() =~= s.drop_last());
    } else {
        assert(t.drop_last() =~= s.drop_last().update(i, v));
        lemma_occupied_fill(s.drop_last(), i, v);
    }
}

/// Fewer occupied cells than cells means some cell is empty.
pub proof fn lemma_some_empty(s: Seq<u64>)
    requires
        occupied(s) < s.len(),
    ensures
        exists|i: int| 0 <= i < s.len() && s[i] == 0,
    decreases s.len(),
{
    if s.last() == 0 {
        assert(s[s.len() - 1] == 0);
    } else {
        lemma_some_empty(s.drop_last());
        let i = choose|i: int| 0 <= i < s.len() - 1 && s.drop_last()[i] == 0;
        assert(s[i] == 0);
    }
}

/// A sweep in which no merge attempt succeeded leaves every cell as it was.
pub proof fn lemma_no_merge_unchanged(s: Seq<u64>, d: Direction, t: nat)
    requires
        !merged_any(s, d, t),
    ensures
        swept(s, d, t) == s,
    decreases t,
{
    if t > 0 {
        lemma_no_merge_unchanged(s, d, (t - 1) as nat);
    }
}

/// A move in which no merge succeeds leaves the cells exactly as they were,
/// with no spawned tile.
pub proof fn lemma_failed_move_unchanged(s: Seq<u64>, d: Direction, after: Seq<u64>)
    requires
        !moved(s, d),
        move_outcome(s, d, after),
    ensures
        after == s,
        sweep(s, d) == s,
{
    lemma_no_merge_unchanged(s, d, 20);
}

/// A sweep over a board on which no adjacent pair can merge towards `d` leaves
/// every cell as it was and reports no merge: shifting a board that is already
/// fully shifted and has nothing to merge changes nothing, and (since no merge
/// happened) spawns nothing.
pub proof fn lemma_stuck_board_unchanged(s: Seq<u64>, d: Direction)
    requires
        s.len() == 25,
        stuck(s, d),
    ensures
        sweep(s, d) == s,
        !moved(s, d),
        move_outcome(s, d, s),
{
    lemma_stuck_prefix(s, d, 20);
}

proof fn lemma_stuck_prefix(s: Seq<u64>, d: Direction, t: nat)
    requires
        s.len() == 25,
        stuck(s, d),
        t <= 20,
    ensures
        swept(s, d, t) == s,
        !merged_any(s, d, t),
    decreases t,
{
    if t > 0 {
        let u = t - 1;
        lemma_stuck_prefix(s, d, u as nat);
        let l = u / 4;
        let k = u % 4;
        assert(!mergeable(s[slot(d, l, k + 1)], s[slot(d, l, k)]));
    }
}

} // verus!
