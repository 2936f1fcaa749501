use vstd::prelude::*;

use crate::grid::Grid;
use crate::life::{
    alive_at, apply_rule, lemma_step_consistency, neighbor_count_of, next_cell, next_column,
    next_gen, wf_gen,
};
use crate::rng::random_cell;

verus! {

/// The automaton engine: the authoritative current generation and, while a
/// step is underway, the partially built next generation with its cursor.
///
/// The engine is a two-state machine. Idle: the buffer is empty and the
/// current generation is fully valid. Stepping: the buffer holds the first
/// `cursor` columns of the next generation, every one of them computed from
/// the untouched current generation, never from the buffer itself.
pub struct Engine {
    grid: Grid,
    state: Vec<Vec<bool>>,
    interim: Vec<Vec<bool>>,
}

/// A matrix of vectors seen column-wise: its deep view indexes the same
/// cells as the vectors themselves.
proof fn lemma_matrix_view(m: Vec<Vec<bool>>)
    ensures
        m.deep_view().len() == m@.len(),
        forall|c: int| 0 <= c < m@.len() ==> #[trigger] m.deep_view()[c] == m@[c]@,
{
    assert forall|c: int| 0 <= c < m@.len() implies #[trigger] m.deep_view()[c] == m@[c]@ by {
        assert(m.deep_view()[c] =~= m@[c]@);
    }
}

/// One column of `n` dead cells.
fn dead_column(n: usize) -> (r: Vec<bool>)
    ensures
        r@.len() == n,
        forall|i: int| 0 <= i < n ==> !(#[trigger] r@[i]),
{
    let mut out: Vec<bool> = Vec::new();
    let mut i: usize = 0;
    while i < n
        invariant
            i <= n,
            out@.len() == i,
            forall|k: int| 0 <= k < i ==> !(#[trigger] out@[k]),
        decreases n - i,
    {
        out.push(false);
        i = i + 1;
    }
    out
}

/// One column of `n` independently drawn random cells.
fn random_column(n: usize) -> (r: Vec<bool>)
    ensures
        r@.len() == n,
{
    let mut out: Vec<bool> = Vec::new();
    let mut i: usize = 0;
    while i < n
        invariant
            i <= n,
            out@.len() == i,
        decreases n - i,
    {
        out.push(random_cell());
        i = i + 1;
    }
    out
}

impl Engine {
    /// The grid descriptor the engine was built over.
    pub closed spec fn spec_grid(self) -> Grid {
        self.grid
    }

    /// The side length as a mathematical integer.
    pub open spec fn side(self) -> int {
        self.spec_grid().spec_side() as int
    }

    /// The current, authoritative generation, indexed `[column][row]`.
    pub closed spec fn cur(self) -> Seq<Seq<bool>> {
        self.state.deep_view()
    }

    /// The columns of the next generation computed so far by the step that
    /// is underway; empty when the engine is idle.
    pub closed spec fn buf(self) -> Seq<Seq<bool>> {
        self.interim.deep_view()
    }

    /// The index of the next column still to be computed.
    pub open spec fn cursor(self) -> int {
        self.buf().len() as int
    }

    /// No step is underway: the next `advance` starts a fresh one.
    pub open spec fn is_idle(self) -> bool {
        self.cursor() == 0
    }

    /// The engine invariant: a well-formed grid, a full square current
    /// generation, and a buffer that is exactly a prefix of the next
    /// generation, every column of it read from the untouched current one.
    pub open spec fn wf(self) -> bool {
        &&& self.spec_grid().wf()
        &&& wf_gen(self.cur(), self.side())
        &&& self.cursor() <= self.side()
        &&& forall|c: int|
            0 <= c < self.cursor() ==> #[trigger] self.buf()[c] == next_column(
                self.cur(),
                self.side(),
                c,
            )
    }

    /// A fresh idle engine over `grid` with every cell dead.
    pub fn new(grid: Grid) -> (r: Engine)
        requires
            grid.wf(),
        ensures
            r.wf(),
            r.is_idle(),
            r.spec_grid() == grid,
            forall|c: int, row: int|
                0 <= c < r.side() && 0 <= row < r.side() ==> !alive_at(r.cur(), r.side(), c, row),
    {
        let side: usize = grid.side() as usize;
        let mut state: Vec<Vec<bool>> = Vec::new();
        while state.len() < side
            invariant
                state@.len() <= side,
                forall|c: int| 0 <= c < state@.len() ==> (#[trigger] state@[c])@.len() == side,
            forall|c: int, row: int|
                0 <= c < state@.len() && 0 <= row < side ==> !(#[trigger] state@[c]@[row]),
            decreases side - state@.len(),
        {
            state.push(dead_column(side));
        }
        let e = Engine { grid, state, interim: Vec::new() };
        proof {
            lemma_matrix_view(e.state);
        }
        e
    }

    /// An idle engine whose current generation is exactly `state`. A matrix
    /// whose dimensions do not match `grid` is rejected outright.
    pub fn from_state(grid: Grid, state: Vec<Vec<bool>>) -> (r: Option<Engine>)
        requires
            grid.wf(),
        ensures
            r is Some <==> wf_gen(state.deep_view(), grid.spec_side() as int),
            r matches Some(e) ==> e.wf() && e.is_idle() && e.spec_grid() == grid && e.cur()
                == state.deep_view(),
    {
        proof {
            lemma_matrix_view(state);
        }
        let side: usize = grid.side() as usize;
        if state.len() != side {
            return None;
        }
        let mut c: usize = 0;
        while c < side
            invariant
                c <= side,
                grid.wf(),
                side == grid.spec_side() as usize,
                state@.len() == side,
                forall|k: int| 0 <= k < c ==> (#[trigger] state@[k])@.len() == side,
            decreases side - c,
        {
            if state[c].len() != side {
                proof {
                    lemma_matrix_view(state);
                    assert(state.deep_view()[c as int].len() != side);
                }
                return None;
            }
            c = c + 1;
        }
        let e = Engine { grid, state, interim: Vec::new() };
        proof {
            lemma_matrix_view(e.state);
        }
        Some(e)
    }

    /// Enters idle with a freshly randomized current generation — one
    /// unbiased coin flip per cell — dropping any step that was underway.
    pub fn initialize(&mut self)
        requires
            old(self).spec_grid().wf(),
        ensures
            final(self).wf(),
            final(self).is_idle(),
            final(self).spec_grid() == old(self).spec_grid(),
    {
        let side: usize = self.grid.side() as usize;
        let mut state: Vec<Vec<bool>> = Vec::new();
        while state.len() < side
            invariant
                state@.len() <= side,
                forall|c: int| 0 <= c < state@.len() ==> (#[trigger] state@[c])@.len() == side,
            decreases side - state@.len(),
        {
            state.push(random_column(side));
        }
        self.state = state;
        self.interim = Vec::new();
        proof {
            lemma_matrix_view(self.state);
        }
    }

    /// Whether the cell at `(col, row)` of the current generation is alive;
    /// coordinates outside the square count as dead, so the boundary clamps
    /// and never wraps.
    fn alive(&self, col: i16, row: i16) -> (r: bool)
        requires
            self.wf(),
        ensures
            r == alive_at(self.cur(), self.side(), col as int, row as int),
    {
        if col < 0 || col >= self.grid.side() || row < 0 || row >= self.grid.side() {
            false
        } else {
            proof {
                lemma_matrix_view(self.state);
                assert(self.cur()[col as int] == self.state@[col as int]@);
                assert(self.cur()[col as int].len() == self.side());
            }
            self.state[col as usize][row as usize]
        }
    }

    /// Counts the live cells among the eight positions adjacent to
    /// `(row, col)` in the current generation. A pure read of the current
    /// generation: the same coordinates always yield the same count.
    pub fn neighbor_count(&self, row: i16, col: i16) -> (r: i8)
        requires
            self.wf(),
            0 <= row < self.spec_grid().spec_side(),
            0 <= col < self.spec_grid().spec_side(),
        ensures
            r == neighbor_count_of(self.cur(), self.side(), row as int, col as int),
    {
        let mut count: i8 = 0;
        if self.alive(col - 1, row - 1) {
            count = count + 1;
        }
        if self.alive(col - 1, row) {
            count = count + 1;
        }
        if self.alive(col - 1, row + 1) {
            count = count + 1;
        }
        if self.alive(col, row - 1) {
            count = count + 1;
        }
        if self.alive(col, row + 1) {
            count = count + 1;
        }
        if self.alive(col + 1, row - 1) {
            count = count + 1;
        }
        if self.alive(col + 1, row) {
            count = count + 1;
        }
        if self.alive(col + 1, row + 1) {
            count = count + 1;
        }
        count
    }

    /// The next state of column `col`: the rule applied at every row, all
    /// neighbor data read from the untouched current generation, never from
    /// the partially built buffer.
    fn step_column(&self, col: usize) -> (r: Vec<bool>)
        requires
            self.wf(),
            col < self.side(),
        ensures
            r@ == next_column(self.cur(), self.side(), col as int),
    {
        let side: i16 = self.grid.side();
        let col16: i16 = col as i16;
        let mut out: Vec<bool> = Vec::new();
        let mut row: i16 = 0;
        while row < side
            invariant
                self.wf(),
                col < self.side(),
                side == self.spec_grid().spec_side(),
                col16 as int == col as int,
                0 <= row <= side,
                out@.len() == row as int,
                forall|k: int|
                    0 <= k < row as int ==> out@[k] == next_cell(
                        self.cur(),
                        self.side(),
                        col as int,
                        k,
                    ),
            decreases side - row,
        {
            proof {
                lemma_matrix_view(self.state);
                assert(self.cur()[col as int] == self.state@[col as int]@);
                assert(self.cur()[col as int].len() == self.side());
            }
            let is_alive = self.state[col][row as usize];
            let n = self.neighbor_count(row, col16);
            out.push(apply_rule(is_alive, n));
            row = row + 1;
        }
        proof {
            assert(out@ =~= next_column(self.cur(), self.side(), col as int));
        }
        out
    }

    /// Promotes the completed buffer to be the new current generation in a
    /// single swap and returns the engine to idle.
    fn promote(&mut self)
        requires
            old(self).wf(),
            old(self).cursor() == old(self).side(),
        ensures
            final(self).wf(),
            final(self).spec_grid() == old(self).spec_grid(),
            final(self).is_idle(),
            final(self).cur() == next_gen(old(self).cur(), old(self).side()),
    {
        proof {
            lemma_step_consistency(old(self).cur(), old(self).side(), old(self).buf());
        }
        core::mem::swap(&mut self.state, &mut self.interim);
        self.interim.clear();
        proof {
            lemma_matrix_view(self.state);
            lemma_matrix_view(self.interim);
            assert forall|c: int| 0 <= c < self.side() implies (#[trigger] self.cur()[c]).len()
                == self.side() by {
                assert(self.cur()[c] == next_column(old(self).cur(), old(self).side(), c));
            }
        }
    }

    /// Computes further columns of the next generation — at most `max_cols`
    /// of them, but always at least one, so even a zero budget makes
    /// progress — and promotes the buffer once it is complete. Returns true
    /// exactly when the generation completed during this call; on false the
    /// current generation is untouched and the cursor has strictly
    /// advanced, ready to be resumed.
    pub fn advance_columns(&mut self, max_cols: usize) -> (done: bool)
        requires
            old(self).wf(),
        ensures
            final(self).wf(),
            final(self).spec_grid() == old(self).spec_grid(),
            done ==> final(self).is_idle() && final(self).cur() == next_gen(
                old(self).cur(),
                old(self).side(),
            ),
            !done ==> final(self).cur() == old(self).cur() && old(self).cursor()
                < final(self).cursor() < final(self).side(),
    {
        let side: usize = self.grid.side() as usize;
        let mut worked: usize = 0;
        loop
            invariant
                self.wf(),
                self.spec_grid() == old(self).spec_grid(),
                side == self.side(),
                self.cur() == old(self).cur(),
                self.cursor() == old(self).cursor() + worked,
            decreases side - self.cursor(),
        {
            let cursor: usize = self.interim.len();
            if cursor == side {
                self.promote();
                return true;
            }
            let ghost pre = *self;
            let colv = self.step_column(cursor);
            let ghost colv_view = colv@;
            self.interim.push(colv);
            worked = worked + 1;
            proof {
                lemma_matrix_view(pre.interim);
                lemma_matrix_view(self.interim);
                assert(self.cur() == pre.cur());
                assert(self.interim@.len() == pre.interim@.len() + 1);
                assert forall|c: int| 0 <= c < self.cursor() implies #[trigger] self.buf()[c]
                    == next_column(self.cur(), self.side(), c) by {
                    assert(self.buf()[c] == self.interim@[c]@);
                    if c < pre.cursor() {
                        assert(self.interim@[c] == pre.interim@[c]);
                        assert(pre.buf()[c] == pre.interim@[c]@);
                        assert(pre.buf()[c] == next_column(pre.cur(), pre.side(), c));
                    } else {
                        assert(c == pre.cursor());
                        assert(self.interim@[c]@ == colv_view);
                        assert(colv_view == next_column(pre.cur(), pre.side(), c));
                    }
                }
            }
            if worked >= max_cols && self.interim.len() < side {
                return false;
            }
        }
    }

    /// Runs the resumable step until the generation completes or the
    /// elapsed wall-clock time exceeds `budget_ms`, whichever comes first.
    /// At least one column is computed even under a zero budget, so every
    /// call makes progress. Returns true exactly when the generation
    /// completed during this call; on false the step stays where it paused
    /// and a later call resumes it against the same prior generation.
    pub fn advance(&mut self, budget_ms: u64) -> (done: bool)
        requires
            old(self).wf(),
        ensures
            final(self).wf(),
            final(self).spec_grid() == old(self).spec_grid(),
            done ==> final(self).is_idle() && final(self).cur() == next_gen(
                old(self).cur(),
                old(self).side(),
            ),
            !done ==> final(self).cur() == old(self).cur() && old(self).cursor()
                < final(self).cursor() < final(self).side(),
    {
        let start = std::time::Instant::now();
        loop
            invariant
                self.wf(),
                self.spec_grid() == old(self).spec_grid(),
                self.cur() == old(self).cur(),
                self.cursor() >= old(self).cursor(),
            decreases self.side() - self.cursor(),
        {
            let finished = self.advance_columns(1);
            if finished {
                return true;
            }
            let spent: u128 = start.elapsed().as_millis();
            if spent > budget_ms as u128 {
                return false;
            }
        }
    }

    /// Read-only view of the current generation, indexed `[column][row]`;
    /// meant to be consumed once per completed generation.
    pub fn current_generation(&self) -> (r: &Vec<Vec<bool>>)
        ensures
            r.deep_view() == self.cur(),
    {
        &self.state
    }

    /// The grid descriptor.
    pub fn grid(&self) -> (r: &Grid)
        ensures
            *r == self.spec_grid(),
    {
        &self.grid
    }

    /// How many columns of the next generation the step underway has
    /// computed so far; zero when the engine is idle.
    pub fn progress(&self) -> (r: usize)
        ensures
            r == self.cursor(),
    {
        self.interim.len()
    }

    /// Whether no step is underway.
    pub fn idle(&self) -> (r: bool)
        ensures
            r == self.is_idle(),
    {
        self.interim.len() == 0
    }
}

/// An idle engine carries nothing beyond its grid and its current
/// generation: two idle engines over the same grid with the same generation
/// hold the same (empty) buffer and are owed the same next generation,
/// whatever calls produced each of them.
pub proof fn lemma_idle_no_carry_over(e1: Engine, e2: Engine)
    requires
        e1.wf(),
        e2.wf(),
        e1.is_idle(),
        e2.is_idle(),
        e1.spec_grid() == e2.spec_grid(),
        e1.cur() == e2.cur(),
    ensures
        e1.buf() == e2.buf(),
        next_gen(e1.cur(), e1.side()) == next_gen(e2.cur(), e2.side()),
{
    assert(e1.buf() =~= e2.buf());
}

} // verus!
