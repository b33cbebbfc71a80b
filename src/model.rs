//! The mathematical model of a board: a sequence of 25 cell values in row-major
//! order, the one-pass sweep of a move, the score and the spawn rule.
use vstd::prelude::*;

verus! {

/// Side length of the square board.
pub const SIZE: usize = 5;

/// Number of cells on the board.
pub const CELLS: usize = 25;

/// Upper bound on the sum of all cells that keeps every score computation
/// inside `u64` (the score is at most six times this sum).
pub const MAX_TOTAL: u64 = 0x1000_0000_0000_0000;

/// Largest value that a single spawned tile can have.
pub const MAX_SPAWN: u64 = 20;

/// The four directions a move can shift the board towards.
#[derive(Clone, Copy, PartialEq, Eq, Structural, Debug)]
pub enum Direction {
    Up,
    Down,
    Left,
    Right,
}

/// Row-major position of the cell at column `x`, row `y`.
pub open spec fn index(x: int, y: int) -> int {
    y * 5 + x
}

/// Position of the `k`-th cell of line `l` for a shift towards `d`; `k == 0`
/// is the cell at the edge the board shifts towards, `k == 4` the trailing edge.
/// Lines are rows for left and right, columns for up and down.
pub open spec fn slot(d: Direction, l: int, k: int) -> int {
    match d {
        Direction::Left => index(k, l),
        Direction::Right => index(4 - k, l),
        Direction::Up => index(l, k),
        Direction::Down => index(l, 4 - k),
    }
}

/// The trailing-edge cell of line `l`: where a tile may spawn after a shift.
pub open spec fn edge_slot(d: Direction, l: int) -> int {
    slot(d, l, 4)
}

/// Every cell is empty or holds a positive multiple of five.
pub open spec fn valid_cells(s: Seq<u64>) -> bool {
    &&& s.len() == 25
    &&& forall|i: int| 0 <= i < s.len() ==> #[trigger] s[i] % 5 == 0
}

/// Sum of all cell values.
pub open spec fn total(s: Seq<u64>) -> int
    decreases s.len(),
{
    if s.len() == 0 {
        0
    } else {
        total(s.drop_last()) + s.last()
    }
}

/// Largest cell value, 0 for no cells.
pub open spec fn peak(s: Seq<u64>) -> int
    decreases s.len(),
{
    if s.len() == 0 {
        0
    } else if peak(s.drop_last()) >= s.last() {
        peak(s.drop_last())
    } else {
        s.last() as int
    }
}

/// The score of a board: the sum of its cells plus five times the largest.
pub open spec fn score_of(s: Seq<u64>) -> int {
    total(s) + 5 * peak(s)
}

/// Number of non-empty cells.
pub open spec fn occupied(s: Seq<u64>) -> int
    decreases s.len(),
{
    if s.len() == 0 {
        0
    } else {
        occupied(s.drop_last()) + if s.last() != 0 { 1int } else { 0int }
    }
}

/// A merge from a cell holding `src` into one holding `dst` is allowed.
pub open spec fn mergeable(src: u64, dst: u64) -> bool {
    src != 0 && (dst == 0 || dst == src)
}

/// The cells after an attempt to merge position `from` into position `to`.
pub open spec fn merged(s: Seq<u64>, from: int, to: int) -> Seq<u64> {
    if mergeable(s[from], s[to]) {
        s.update(to, (s[from] + s[to]) as u64).update(from, 0)
    } else {
        s
    }
}

/// Source of the `t`-th merge attempt of a sweep: line `t / 4`, pair `t % 4`.
pub open spec fn step_from(d: Direction, t: int) -> int {
    slot(d, t / 4, t % 4 + 1)
}

/// Destination of the `t`-th merge attempt of a sweep.
pub open spec fn step_to(d: Direction, t: int) -> int {
    slot(d, t / 4, t % 4)
}

/// The cells after the first `t` merge attempts of a sweep towards `d`.
pub open spec fn swept(s: Seq<u64>, d: Direction, t: nat) -> Seq<u64>
    decreases t,
{
    if t == 0 {
        s
    } else {
        let p = swept(s, d, (t - 1) as nat);
        merged(p, step_from(d, t - 1), step_to(d, t - 1))
    }
}

/// Whether any of the first `t` merge attempts of a sweep towards `d` succeeded.
pub open spec fn merged_any(s: Seq<u64>, d: Direction, t: nat) -> bool
    decreases t,
{
    if t == 0 {
        false
    } else {
        let p = swept(s, d, (t - 1) as nat);
        merged_any(s, d, (t - 1) as nat) || mergeable(p[step_from(d, t - 1)], p[step_to(d, t - 1)])
    }
}

/// The cells after one full sweep (every adjacent pair of every line, once).
pub open spec fn sweep(s: Seq<u64>, d: Direction) -> Seq<u64> {
    swept(s, d, 20)
}

/// Whether a full sweep towards `d` merged at least one pair.
pub open spec fn moved(s: Seq<u64>, d: Direction) -> bool {
    merged_any(s, d, 20)
}

/// Values a tile spawned after a move can take: `5 * 2^r` for `r < 3`.
pub open spec fn spawn_value(v: u64) -> bool {
    v == 5 || v == 10 || v == 20
}

/// The trailing edge towards `d` has an empty cell.
pub open spec fn edge_has_room(s: Seq<u64>, d: Direction) -> bool {
    exists|l: int| 0 <= l < 5 && s[edge_slot(d, l)] == 0
}

/// `after` is `s` with one spawned tile on an empty trailing-edge cell, or `s`
/// itself where that edge is full.
pub open spec fn spawned(s: Seq<u64>, d: Direction, after: Seq<u64>) -> bool {
    if edge_has_room(s, d) {
        exists|l: int, v: u64|
            0 <= l < 5 && s[edge_slot(d, l)] == 0 && spawn_value(v) && after == s.update(
                edge_slot(d, l),
                v,
            )
    } else {
        after == s
    }
}

/// What a move towards `d` makes of the cells `s`: nothing if no pair merged;
/// else the sweep followed by a spawn on the trailing edge.
pub open spec fn move_outcome(s: Seq<u64>, d: Direction, after: Seq<u64>) -> bool {
    if moved(s, d) {
        spawned(sweep(s, d), d, after)
    } else {
        after == s
    }
}

/// No adjacent pair of any line can merge towards `d`.
pub open spec fn stuck(s: Seq<u64>, d: Direction) -> bool {
    forall|l: int, k: int|
        0 <= l < 5 && 0 <= k < 4 ==> !mergeable(s[slot(d, l, k + 1)], #[trigger] s[slot(d, l, k)])
}

} // verus!
