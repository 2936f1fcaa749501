use vstd::prelude::*;

verus! {

/// The canonical life transition: a live cell survives exactly at two or
/// three live neighbors; a dead cell is born exactly at three.
pub open spec fn rule(is_alive: bool, neighbors: int) -> bool {
    if is_alive {
        neighbors == 2 || neighbors == 3
    } else {
        neighbors == 3
    }
}

/// A generation is a `side` by `side` matrix of cells, indexed
/// `[column][row]`.
pub open spec fn wf_gen(g: Seq<Seq<bool>>, side: int) -> bool {
    g.len() == side && (forall|c: int| 0 <= c < side ==> (#[trigger] g[c]).len() == side)
}

/// Whether the cell at `(col, row)` of `g` is alive; positions outside the
/// square count as dead, so the boundary clamps and never wraps.
pub open spec fn alive_at(g: Seq<Seq<bool>>, side: int, col: int, row: int) -> bool {
    0 <= col < side && 0 <= row < side && g[col][row]
}

/// One when the position holds a live cell, zero otherwise.
pub open spec fn alive_one(g: Seq<Seq<bool>>, side: int, col: int, row: int) -> int {
    if alive_at(g, side, col, row) {
        1int
    } else {
        0int
    }
}

/// How many of the up-to-eight adjacent positions of `(col, row)` hold a
/// live cell. All eight candidate positions are considered for every cell;
/// a candidate outside the square contributes nothing.
pub open spec fn neighbor_count_of(g: Seq<Seq<bool>>, side: int, row: int, col: int) -> int {
    alive_one(g, side, col - 1, row - 1) + alive_one(g, side, col - 1, row)
        + alive_one(g, side, col - 1, row + 1) + alive_one(g, side, col, row - 1)
        + alive_one(g, side, col, row + 1) + alive_one(g, side, col + 1, row - 1)
        + alive_one(g, side, col + 1, row) + alive_one(g, side, col + 1, row + 1)
}

/// The next state of the cell at `(col, row)`, read entirely from `g`.
pub open spec fn next_cell(g: Seq<Seq<bool>>, side: int, col: int, row: int) -> bool {
    rule(g[col][row], neighbor_count_of(g, side, row, col))
}

/// The next state of one whole column, read entirely from `g`.
pub open spec fn next_column(g: Seq<Seq<bool>>, side: int, col: int) -> Seq<bool> {
    Seq::new(side as nat, |row: int| next_cell(g, side, col, row))
}

/// The whole next generation, every column read from the same `g`.
pub open spec fn next_gen(g: Seq<Seq<bool>>, side: int) -> Seq<Seq<bool>> {
    Seq::new(side as nat, |col: int| next_column(g, side, col))
}

/// The canonical life transition as an executable function; its result is
/// exactly the rule table for every input.
pub fn apply_rule(is_alive: bool, neighbors: i8) -> (r: bool)
    ensures
        r == rule(is_alive, neighbors as int),
{
    if is_alive {
        if neighbors < 2 {
            false
        } else if neighbors > 3 {
            false
        } else {
            true
        }
    } else if neighbors == 3 {
        true
    } else {
        false
    }
}

/// The rule table in canonical form: a live cell survives only at counts
/// two and three, a dead cell is born only at count three, and every other
/// combination yields a dead cell.
pub proof fn lemma_rule_table(is_alive: bool, neighbors: int)
    ensures
        rule(is_alive, neighbors) <==> ((is_alive && (neighbors == 2 || neighbors == 3)) || (
        !is_alive && neighbors == 3)),
{
}

/// Every neighbor count lies between zero and eight.
pub proof fn lemma_neighbor_count_range(g: Seq<Seq<bool>>, side: int, row: int, col: int)
    ensures
        0 <= neighbor_count_of(g, side, row, col) <= 8,
{
}

/// A corner cell sees at most three live neighbors: the boundary clamps,
/// so no neighbor is ever taken from the far side of the grid.
pub proof fn lemma_neighbor_count_corner(g: Seq<Seq<bool>>, side: int, row: int, col: int)
    requires
        row == 0 || row == side - 1,
        col == 0 || col == side - 1,
    ensures
        neighbor_count_of(g, side, row, col) <= 3,
{
}

/// An edge cell that is not a corner sees at most five live neighbors.
pub proof fn lemma_neighbor_count_edge(g: Seq<Seq<bool>>, side: int, row: int, col: int)
    requires
        0 <= row < side,
        0 <= col < side,
        row == 0 || row == side - 1 || col == 0 || col == side - 1,
        !((row == 0 || row == side - 1) && (col == 0 || col == side - 1)),
    ensures
        neighbor_count_of(g, side, row, col) <= 5,
{
}

/// For an interior cell every one of the eight candidate positions lies
/// inside the square, so the count is the plain sum over the eight
/// neighbors themselves.
pub proof fn lemma_neighbor_count_interior(g: Seq<Seq<bool>>, side: int, row: int, col: int)
    requires
        1 <= row < side - 1,
        1 <= col < side - 1,
    ensures
        neighbor_count_of(g, side, row, col) == (if g[col - 1][row - 1] {
            1int
        } else {
            0int
        }) + (if g[col - 1][row] {
            1int
        } else {
            0int
        }) + (if g[col - 1][row + 1] {
            1int
        } else {
            0int
        }) + (if g[col][row - 1] {
            1int
        } else {
            0int
        }) + (if g[col][row + 1] {
            1int
        } else {
            0int
        }) + (if g[col + 1][row - 1] {
            1int
        } else {
            0int
        }) + (if g[col + 1][row] {
            1int
        } else {
            0int
        }) + (if g[col + 1][row + 1] {
            1int
        } else {
            0int
        }),
{
}

/// A next generation assembled column by column, every column read from the
/// same prior generation `g`, equals the next generation computed in one
/// piece — however many pauses the assembly took.
pub proof fn lemma_step_consistency(g: Seq<Seq<bool>>, side: int, buf: Seq<Seq<bool>>)
    requires
        buf.len() == side,
        forall|c: int| 0 <= c < side ==> #[trigger] buf[c] == next_column(g, side, c),
    ensures
        buf == next_gen(g, side),
{
    assert(buf =~= next_gen(g, side));
}

} // verus!
