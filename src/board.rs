//! The game board: its cells, its score, and the operations on them.
use crate::lemmas::{
    lemma_all_empty, lemma_no_merge_unchanged, lemma_occupied_fill, lemma_pair_le_total,
    lemma_peak_le_total, lemma_prefix_total, lemma_some_empty, lemma_total_update,
};
use crate::model::{
    edge_has_room, edge_slot, index, merged, mergeable, merged_any, move_outcome, moved, occupied,
    peak, score_of, slot, spawn_value, spawned, sweep, swept, total, valid_cells, Direction, CELLS,
    MAX_SPAWN, MAX_TOTAL, SIZE,
};
use crate::random::{choose_one, random_below};
use crate::text::{decimal, u64_text};
use vstd::arithmetic::power2::{lemma2_to64, pow2};
use vstd::prelude::*;

verus! {

/// A 5x5 board. `cells` holds the rows one after another (the cell at column
/// `x`, row `y` is `cells[5 * y + x]`); 0 is an empty cell.
#[derive(Clone, Copy, Debug)]
pub struct Gameboard {
    pub cells: [u64; CELLS],
    pub score: u64,
}

impl Gameboard {
    /// Every cell is empty or a positive multiple of five, and the sum of the
    /// cells is small enough for the score to be computed.
    pub open spec fn wf(&self) -> bool {
        &&& valid_cells(self.cells@)
        &&& total(self.cells@) <= MAX_TOTAL
    }

    /// There is room under the bound on the sum for one more spawned tile.
    pub open spec fn has_room(&self) -> bool {
        total(self.cells@) + MAX_SPAWN <= MAX_TOTAL
    }

    /// The score equals what the cells give.
    pub open spec fn score_current(&self) -> bool {
        self.score == score_of(self.cells@)
    }

    /// A board with every cell empty and score zero.
    pub fn new() -> (r: Gameboard)
        ensures
            r.wf(),
            r.has_room(),
            forall|i: int| 0 <= i < 25 ==> #[trigger] r.cells@[i] == 0,
            r.score == 0,
            r.score_current(),
    {
        let r = Gameboard { cells: [0u64; CELLS], score: 0 };
        proof {
            lemma_all_empty(r.cells@);
        }
        r
    }

    /// Sets the cell at column `cell[0]`, row `cell[1]` to `val`.
    pub fn set(&mut self, cell: [usize; 2], val: u64)
        requires
            cell[0] < 5,
            cell[1] < 5,
        ensures
            final(self).cells@ == old(self).cells@.update(index(cell[0] as int, cell[1] as int), val),
            final(self).score == old(self).score,
    {
        let i = cell[1] * SIZE + cell[0];
        self.cells.set(i, val);
    }

    /// Attempts to merge the cell `send_cell` into `receive_cell` (both given
    /// as column, row). The merge is allowed when the sending cell is occupied
    /// and the receiving one is empty or holds the same value; then the
    /// receiving cell gets the sum and the sending cell is emptied. Returns
    /// whether the merge was allowed; if not, nothing changes.
    pub fn merge(&mut self, send_cell: [usize; 2], receive_cell: [usize; 2]) -> (allowed: bool)
        requires
            old(self).wf(),
            send_cell[0] < 5,
            send_cell[1] < 5,
            receive_cell[0] < 5,
            receive_cell[1] < 5,
            send_cell[0] != receive_cell[0] || send_cell[1] != receive_cell[1],
        ensures
            ({
                let from = index(send_cell[0] as int, send_cell[1] as int);
                let to = index(receive_cell[0] as int, receive_cell[1] as int);
                &&& allowed == mergeable(old(self).cells@[from], old(self).cells@[to])
                &&& final(self).cells@ == merged(old(self).cells@, from, to)
            }),
            final(self).wf(),
            total(final(self).cells@) == total(old(self).cells@),
            final(self).score == old(self).score,
    {
        let ghost s = self.cells@;
        let from = send_cell[1] * SIZE + send_cell[0];
        let to = receive_cell[1] * SIZE + receive_cell[0];
        let s_val = self.cells[from];
        let r_val = self.cells[to];
        if (s_val != r_val && r_val != 0) || s_val == 0 {
            false
        } else {
            proof {
                lemma_pair_le_total(s, from as int, to as int);
            }
            self.set(receive_cell, s_val + r_val);
            self.set(send_cell, 0);
            proof {
                let s1 = s.update(to as int, (s_val + r_val) as u64);
                lemma_total_update(s, to as int, (s_val + r_val) as u64);
                lemma_total_update(s1, from as int, 0);
                assert(valid_cells(self.cells@)) by {
                    assert forall|i: int| 0 <= i < 25 implies #[trigger] self.cells@[i] % 5 == 0 by {
                        assert(s[i] % 5 == 0);
                    }
                }
            }
            true
        }
    }

    /// The column and row of the `k`-th cell of line `l` for a shift towards
    /// `d` (see `slot`).
    pub fn line_cell(d: Direction, l: usize, k: usize) -> (r: [usize; 2])
        requires
            l < 5,
            k < 5,
        ensures
            r[0] < 5,
            r[1] < 5,
            index(r[0] as int, r[1] as int) == slot(d, l as int, k as int),
    {
        match d {
            Direction::Left => [k, l],
            Direction::Right => [4 - k, l],
            Direction::Up => [l, k],
            Direction::Down => [l, 4 - k],
        }
    }

    /// One sweep towards `d`: in every line, each adjacent pair is tried once,
    /// from the edge the board shifts towards backwards, merging the cell one
    /// step further from that edge into its neighbour. Returns whether any
    /// merge happened.
    pub fn shift_cells(&mut self, d: Direction) -> (success: bool)
        requires
            old(self).wf(),
        ensures
            final(self).wf(),
            final(self).cells@ == sweep(old(self).cells@, d),
            success == moved(old(self).cells@, d),
            !success ==> final(self).cells@ == old(self).cells@,
            total(final(self).cells@) == total(old(self).cells@),
            final(self).score == old(self).score,
    {
        let ghost s0 = self.cells@;
        let mut success = false;
        let mut l: usize = 0;
        while l < SIZE
            invariant
                l <= 5,
                self.wf(),
                total(self.cells@) == total(s0),
                self.score == old(self).score,
                self.cells@ == swept(s0, d, (4 * l) as nat),
                success == merged_any(s0, d, (4 * l) as nat),
            decreases 5 - l,
        {
            let mut k: usize = 0;
            while k < SIZE - 1
                invariant
                    l < 5,
                    k <= 4,
                    self.wf(),
                    total(self.cells@) == total(s0),
                    self.score == old(self).score,
                    self.cells@ == swept(s0, d, (4 * l + k) as nat),
                    success == merged_any(s0, d, (4 * l + k) as nat),
                decreases 4 - k,
            {
                let from = Self::line_cell(d, l, k + 1);
                let to = Self::line_cell(d, l, k);
                proof {
                    let t = 4 * l + k;
                    assert(t / 4 == l && t % 4 == k);
                }
                let allowed = self.merge(from, to);
                if allowed {
                    success = true;
                }
                k += 1;
            }
            l += 1;
        }
        proof {
            if !success {
                lemma_no_merge_unchanged(s0, d, 20);
            }
        }
        success
    }

    /// The lines whose trailing-edge cell towards `d` is empty, in order.
    pub fn edge_vacancies(&self, d: Direction) -> (r: Vec<usize>)
        requires
            self.cells@.len() == 25,
        ensures
            forall|j: int|
                0 <= j < r@.len() ==> #[trigger] r@[j] < 5 && self.cells@[edge_slot(d, r@[j] as int)] == 0,
            forall|l: int| 0 <= l < 5 && #[trigger] self.cells@[edge_slot(d, l)] == 0 ==> r@.contains(l as usize),
    {
        let mut r: Vec<usize> = Vec::new();
        let mut l: usize = 0;
        while l < SIZE
            invariant
                l <= 5,
                self.cells@.len() == 25,
                forall|j: int|
                    0 <= j < r@.len() ==> #[trigger] r@[j] < 5 && self.cells@[edge_slot(d, r@[j] as int)] == 0,
                forall|m: int| 0 <= m < l && #[trigger] self.cells@[edge_slot(d, m)] == 0 ==> r@.contains(m as usize),
            decreases 5 - l,
        {
            let c = Self::line_cell(d, l, 4);
            if self.cells[c[1] * SIZE + c[0]] == 0 {
                let ghost before = r@;
                r.push(l);
                proof {
                    assert(r@ == before.push(l));
                    assert(index(c[0] as int, c[1] as int) == edge_slot(d, l as int));
                    assert forall|j: int| 0 <= j < r@.len() implies #[trigger] r@[j] < 5 && self.cells@[edge_slot(d, r@[j] as int)] == 0 by {
                        if j < before.len() {
                            assert(r@[j] == before[j]);
                        }
                    }
                    assert forall|m: int| 0 <= m < l + 1 && #[trigger] self.cells@[edge_slot(d, m)] == 0 implies r@.contains(
                        m as usize,
                    ) by {
                        if m == l {
                            assert(r@[before.len() as int] == m as usize);
                        } else {
                            let j = choose|j: int| 0 <= j < before.len() && before[j] == m as usize;
                            assert(r@[j] == m as usize);
                        }
                    }
                }
            }
            l += 1;
        }
        r
    }

    /// Recomputes the score: the sum of all cells plus five times the largest.
    pub fn update_score(&mut self)
        requires
            old(self).wf(),
        ensures
            final(self).cells@ == old(self).cells@,
            final(self).score_current(),
    {
        let ghost s = self.cells@;
        let mut score: u64 = 0;
        let mut max: u64 = 0;
        let mut i: usize = 0;
        proof {
            lemma_peak_le_total(s);
        }
        while i < CELLS
            invariant
                i <= 25,
                self.cells@ == s,
                self.wf(),
                score == total(s.take(i as int)),
                max == peak(s.take(i as int)),
                0 <= peak(s) <= total(s),
            decreases 25 - i,
        {
            proof {
                assert(s.take(i + 1).drop_last() =~= s.take(i as int));
                lemma_prefix_total(s, i + 1);
                lemma_peak_le_total(s.take(i + 1));
            }
            score += self.cells[i];
            if self.cells[i] > max {
                max = self.cells[i];
            }
            i += 1;
        }
        proof {
            assert(s.take(25) =~= s);
        }
        score += max * 5;
        self.score = score;
    }

    /// The empty cells, as positions in `cells`.
    pub fn vacancies(&self) -> (r: Vec<usize>)
        requires
            self.cells@.len() == 25,
        ensures
            forall|j: int| 0 <= j < r@.len() ==> #[trigger] r@[j] < 25 && self.cells@[r@[j] as int] == 0,
            forall|i: int| 0 <= i < 25 && #[trigger] self.cells@[i] == 0 ==> r@.contains(i as usize),
    {
        let mut r: Vec<usize> = Vec::new();
        let mut i: usize = 0;
        while i < CELLS
            invariant
                i <= 25,
                self.cells@.len() == 25,
                forall|j: int| 0 <= j < r@.len() ==> #[trigger] r@[j] < 25 && self.cells@[r@[j] as int] == 0,
                forall|m: int| 0 <= m < i && #[trigger] self.cells@[m] == 0 ==> r@.contains(m as usize),
            decreases 25 - i,
        {
            if self.cells[i] == 0 {
                let ghost before = r@;
                r.push(i);
                proof {
                    assert(r@ == before.push(i));
                    assert forall|j: int| 0 <= j < r@.len() implies #[trigger] r@[j] < 25 && self.cells@[r@[j] as int] == 0 by {
                        if j < before.len() {
                            assert(r@[j] == before[j]);
                        }
                    }
                    assert forall|m: int| 0 <= m < i + 1 && #[trigger] self.cells@[m] == 0 implies r@.contains(m as usize) by {
                        if m == i {
                            assert(r@[before.len() as int] == m as usize);
                        } else {
                            let j = choose|j: int| 0 <= j < before.len() && before[j] == m as usize;
                            assert(r@[j] == m as usize);
                        }
                    }
                }
            }
            i += 1;
        }
        r
    }

    /// The value of a tile spawned after a move, for an exponent drawn below 3:
    /// `5 * 2^exp`, that is 5, 10 or 20.
    pub fn spawn_tile_value(exp: u32) -> (v: u64)
        requires
            exp < 3,
        ensures
            v == 5 * pow2(exp as nat),
            exp == 0 ==> v == 5,
            exp == 1 ==> v == 10,
            exp == 2 ==> v == 20,
    {
        proof {
            lemma2_to64();
        }
        if exp == 0 {
            5
        } else if exp == 1 {
            10
        } else {
            20
        }
    }

    /// Draws the value of a tile spawned after a move: 5, 10 or 20, from an
    /// exponent drawn uniformly below 3.
    pub fn new_val(&self) -> (v: u64)
        ensures
            spawn_value(v),
    {
        let exp = random_below(3);
        Self::spawn_tile_value(exp)
    }

    /// Starts a new game: clears the board and the score, then places four tiles,
    /// each 5 or 10 with equal chance, on four distinct cells. Each tile goes to
    /// a cell drawn uniformly from those still empty, which is the distribution
    /// that redrawing on an occupied cell gives.
    pub fn new_game(&mut self)
        ensures
            final(self).wf(),
            final(self).has_room(),
            occupied(final(self).cells@) == 4,
            forall|i: int|
                0 <= i < 25 ==> #[trigger] final(self).cells@[i] == 0 || final(self).cells@[i] == 5
                    || final(self).cells@[i] == 10,
            final(self).score == 0,
    {
        self.cells = [0u64; CELLS];
        self.score = 0;
        proof {
            lemma_all_empty(self.cells@);
        }
        let mut placed: usize = 0;
        while placed < 4
            invariant
                placed <= 4,
                self.cells@.len() == 25,
                occupied(self.cells@) == placed,
                forall|i: int|
                    0 <= i < 25 ==> #[trigger] self.cells@[i] == 0 || self.cells@[i] == 5 || self.cells@[i] == 10,
                total(self.cells@) <= 10 * placed,
                self.score == 0,
            decreases 4 - placed,
        {
            let val = (random_below(2) as u64 + 1) * 5;
            let empty = self.vacancies();
            proof {
                lemma_some_empty(self.cells@);
                let i = choose|i: int| 0 <= i < 25 && self.cells@[i] == 0;
                assert(empty@.contains(i as usize));
            }
            let pick = choose_one(&empty);
            if let Some(i) = pick {
                proof {
                    let j = choose|j: int| 0 <= j < empty@.len() && empty@[j] == i;
                    assert(empty@[j] < 25);
                    lemma_occupied_fill(self.cells@, i as int, val);
                    lemma_total_update(self.cells@, i as int, val);
                }
                self.cells.set(i, val);
                placed += 1;
            }
        }
        proof {
            assert(valid_cells(self.cells@));
        }
    }

    /// A move towards `d`: one sweep; if it merged anything, a tile of 5, 10 or
    /// 20 is spawned on an empty cell of the trailing edge drawn uniformly (none
    /// if that edge is full); if nothing merged, the cells stay as they were.
    /// The score is recomputed in every case.
    pub fn shift_board(&mut self, d: Direction)
        requires
            old(self).wf(),
            old(self).has_room(),
        ensures
            final(self).wf(),
            move_outcome(old(self).cells@, d, final(self).cells@),
            final(self).score_current(),
    {
        let ghost s0 = self.cells@;
        let success = self.shift_cells(d);
        if success {
            let val = self.new_val();
            let available = self.edge_vacancies(d);
            let ghost s1 = self.cells@;
            proof {
                if edge_has_room(s1, d) {
                    let l = choose|l: int| 0 <= l < 5 && s1[edge_slot(d, l)] == 0;
                    assert(available@.contains(l as usize));
                }
            }
            let pick = choose_one(&available);
            if let Some(l) = pick {
                let c = Self::line_cell(d, l, 4);
                proof {
                    let j = choose|j: int| 0 <= j < available@.len() && available@[j] == l;
                    assert(available@[j] < 5);
                    lemma_total_update(s1, edge_slot(d, l as int), val);
                }
                self.set(c, val);
                proof {
                    assert(valid_cells(self.cells@)) by {
                        assert forall|i: int| 0 <= i < 25 implies #[trigger] self.cells@[i] % 5 == 0 by {
                            assert(s1[i] % 5 == 0);
                        }
                    }
                }
            } else {
                proof {
                    assert(!edge_has_room(s1, d));
                }
            }
            proof {
                assert(spawned(s1, d, self.cells@));
            }
        }
        proof {
            assert(move_outcome(s0, d, self.cells@));
        }
        self.update_score();
    }

    /// Shifts the board up (see `shift_board`); tiles spawn on the bottom row.
    pub fn shift_board_up(&mut self)
        requires
            old(self).wf(),
            old(self).has_room(),
        ensures
            final(self).wf(),
            move_outcome(old(self).cells@, Direction::Up, final(self).cells@),
            final(self).score_current(),
    {
        self.shift_board(Direction::Up)
    }

    /// Shifts the board down (see `shift_board`); tiles spawn on the top row.
    pub fn shift_board_down(&mut self)
        requires
            old(self).wf(),
            old(self).has_room(),
        ensures
            final(self).wf(),
            move_outcome(old(self).cells@, Direction::Down, final(self).cells@),
            final(self).score_current(),
    {
        self.shift_board(Direction::Down)
    }

    /// Shifts the board left (see `shift_board`); tiles spawn on the right column.
    pub fn shift_board_left(&mut self)
        requires
            old(self).wf(),
            old(self).has_room(),
        ensures
            final(self).wf(),
            move_outcome(old(self).cells@, Direction::Left, final(self).cells@),
            final(self).score_current(),
    {
        self.shift_board(Direction::Left)
    }

    /// Shifts the board right (see `shift_board`); tiles spawn on the left column.
    pub fn shift_board_right(&mut self)
        requires
            old(self).wf(),
            old(self).has_room(),
        ensures
            final(self).wf(),
            move_outcome(old(self).cells@, Direction::Right, final(self).cells@),
            final(self).score_current(),
    {
        self.shift_board(Direction::Right)
    }

    /// Handles one input: a press of a direction key (`Some(d)`) makes the move
    /// towards `d`; anything else (`None`) leaves the cells alone. The score is
    /// recomputed either way.
    pub fn event(&mut self, key: Option<Direction>)
        requires
            old(self).wf(),
            key.is_some() ==> old(self).has_room(),
        ensures
            final(self).wf(),
            final(self).score_current(),
            match key {
                Some(d) => move_outcome(old(self).cells@, d, final(self).cells@),
                None => final(self).cells@ == old(self).cells@,
            },
    {
        match key {
            Some(Direction::Up) => self.shift_board_up(),
            Some(Direction::Down) => self.shift_board_down(),
            Some(Direction::Left) => self.shift_board_left(),
            Some(Direction::Right) => self.shift_board_right(),
            None => {},
        }
        self.update_score();
    }

    /// Whether the sum of the cells leaves room for one more spawned tile under
    /// `MAX_TOTAL`, as a move asks.
    pub fn room_for_move(&self) -> (r: bool)
        requires
            self.wf(),
        ensures
            r == self.has_room(),
    {
        let ghost s = self.cells@;
        let mut sum: u64 = 0;
        let mut i: usize = 0;
        while i < CELLS
            invariant
                i <= 25,
                self.cells@ == s,
                self.wf(),
                sum == total(s.take(i as int)),
            decreases 25 - i,
        {
            proof {
                assert(s.take(i + 1).drop_last() =~= s.take(i as int));
                lemma_prefix_total(s, i + 1);
            }
            sum += self.cells[i];
            i += 1;
        }
        proof {
            assert(s.take(25) =~= s);
        }
        sum <= MAX_TOTAL - MAX_SPAWN
    }

    /// The text shown in the cell at column `cell[0]`, row `cell[1]`: `None`
    /// for an empty cell, else its value in decimal.
    pub fn get_string(&self, cell: [usize; 2]) -> (r: Option<String>)
        requires
            cell[0] < 5,
            cell[1] < 5,
            self.cells@.len() == 25,
        ensures
            ({
                let v = self.cells@[index(cell[0] as int, cell[1] as int)];
                &&& v == 0 ==> r.is_none()
                &&& v != 0 ==> (r.is_some() && r.unwrap()@ == decimal(v as nat))
            }),
    {
        let v = self.get_val(cell);
        if v != 0 {
            Some(u64_text(v))
        } else {
            None
        }
    }

    /// The value of the cell at column `cell[0]`, row `cell[1]` (0 when empty).
    pub fn get_val(&self, cell: [usize; 2]) -> (v: u64)
        requires
            cell[0] < 5,
            cell[1] < 5,
        ensures
            v == self.cells@[index(cell[0] as int, cell[1] as int)],
    {
        self.cells[cell[1] * SIZE + cell[0]]
    }

    /// The score in decimal.
    pub fn get_score(&self) -> (r: String)
        ensures
            r@ == decimal(self.score as nat),
    {
        u64_text(self.score)
    }
}

} // verus!
