use vstd::prelude::*;

verus! {

/// Geometric descriptor of the square universe: the pixel size of one cell
/// and the side length in cells. Both scalars are fixed at construction and
/// never change afterwards.
#[derive(Clone, Copy)]
pub struct Grid {
    cell: i16,
    size: i16,
}

impl Grid {
    /// The pixel size of one cell.
    pub closed spec fn spec_cell_size(self) -> i16 {
        self.cell
    }

    /// The side length of the universe, in cells.
    pub closed spec fn spec_side(self) -> i16 {
        self.size
    }

    /// A grid is well formed when both of its scalars are positive.
    pub open spec fn wf(self) -> bool {
        self.spec_cell_size() > 0 && self.spec_side() > 0
    }

    /// Builds a grid, rejecting a non-positive cell size or side length
    /// outright rather than letting a malformed universe propagate.
    pub fn new(cell: i16, size: i16) -> (r: Option<Grid>)
        ensures
            r is Some <==> cell > 0 && size > 0,
            r matches Some(g) ==> g.wf() && g.spec_cell_size() == cell && g.spec_side() == size,
    {
        if cell > 0 && size > 0 {
            Some(Grid { cell, size })
        } else {
            None
        }
    }

    pub fn cell_size(&self) -> (r: i16)
        ensures
            r == self.spec_cell_size(),
    {
        self.cell
    }

    pub fn side(&self) -> (r: i16)
        ensures
            r == self.spec_side(),
    {
        self.size
    }
}

} // verus!
