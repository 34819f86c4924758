//! Preallocated square stores addressed by non-negative coordinates.
use vstd::prelude::*;

use crate::automaton::{code_of, state_from_code, state_of_code, Alphabet, Infection};
use crate::direction::{pt, Coords};
use crate::pattern::{fill, pattern_cells, rows_of, well_formed, within};
use crate::walk::{outcome, shift, simulate, CellStore, Cells, OutOfRange};

verus! {

/// Whether `p` lies in the square `[0, side)²`.
pub open spec fn in_square(p: (int, int), side: int) -> bool {
    0 <= p.0 < side && 0 <= p.1 < side
}

/// Whether a block, placed at `(margin, margin)`, lies inside the square.
pub open spec fn fits_dense(input: Seq<&str>, side: int, margin: int) -> bool {
    let rows = rows_of(input);
    &&& side < i32::MAX
    &&& margin + rows.len() <= side
    &&& forall|y: int| 0 <= y < rows.len() ==> margin + #[trigger] rows[y].len() <= side
}

/// Quaternary store: a square of explicit states, indexed by column, then
/// row. Every cell starts clean.
pub struct DenseGrid {
    cells: Vec<Vec<Infection>>,
}

/// Quaternary store: a square of integer state codes, indexed by column,
/// then row. Every cell starts clean.
pub struct DenseCodes {
    codes: Vec<Vec<u8>>,
}

impl DenseGrid {
    /// The side of the square.
    pub closed spec fn side(&self) -> int {
        self.cells@.len() as int
    }

    /// A square of `side` clean cells on each side.
    pub fn new(side: usize) -> (r: DenseGrid)
        requires
            side < i32::MAX,
        ensures
            r.wf(),
            r.side() == side,
            forall|p: (int, int)| #[trigger] (r.cells())(p) == Infection::Clean,
    {
        let mut cells: Vec<Vec<Infection>> = Vec::new();
        let mut x: usize = 0;
        while x < side
            invariant
                x <= side,
                cells.len() == x,
                forall|i: int| 0 <= i < x ==> #[trigger] cells@[i].len() == side,
                forall|i: int, j: int|
                    0 <= i < x && 0 <= j < side ==> #[trigger] cells@[i]@[j] == Infection::Clean,
            decreases side - x,
        {
            let mut column: Vec<Infection> = Vec::new();
            let mut y: usize = 0;
            while y < side
                invariant
                    y <= side,
                    column.len() == y,
                    forall|j: int| 0 <= j < y ==> #[trigger] column@[j] == Infection::Clean,
                decreases side - y,
            {
                column.push(Infection::Clean);
                y += 1;
            }
            cells.push(column);
            x += 1;
        }
        DenseGrid { cells }
    }
}

impl CellStore for DenseGrid {
    closed spec fn wf(&self) -> bool {
        &&& self.cells@.len() < i32::MAX
        &&& forall|i: int|
            0 <= i < self.cells@.len() ==> #[trigger] self.cells@[i].len() == self.cells@.len()
    }

    closed spec fn cells(&self) -> Cells {
        |p: (int, int)|
            if in_square(p, self.side()) {
                self.cells@[p.0]@[p.1]
            } else {
                Infection::Clean
            }
    }

    open spec fn covers(&self, p: (int, int)) -> bool {
        in_square(p, self.side())
    }

    open spec fn holds(s: Infection) -> bool {
        true
    }

    proof fn lemma_covers_coords(&self, p: (int, int)) {
    }

    fn contains(&self, p: &Coords) -> (r: bool) {
        0 <= p.0 && (p.0 as usize) < self.cells.len() && 0 <= p.1 && (p.1 as usize)
            < self.cells.len()
    }

    fn get(&self, p: &Coords) -> (r: Infection) {
        let x: usize = p.0 as usize;
        let y: usize = p.1 as usize;
        assert(self.cells@[x as int].len() == self.cells@.len());
        self.cells[x][y]
    }

    fn set(&mut self, p: &Coords, s: Infection) {
        let x: usize = p.0 as usize;
        let y: usize = p.1 as usize;
        assert(self.cells@[x as int].len() == self.cells@.len());
        self.cells[x].set(y, s);
        proof {
            assert(self.cells@.len() == old(self).cells@.len());
            assert(self.cells@[x as int]@ == old(self).cells@[x as int]@.update(y as int, s));
            assert(forall|i: int|
                0 <= i < self.cells@.len() && i != x ==> self.cells@[i] == old(self).cells@[i]);
            assert forall|i: int| 0 <= i < self.cells@.len() implies #[trigger] self.cells@[i].len()
                == self.cells@.len() by {
                assert(old(self).cells@[i].len() == old(self).cells@.len());
            }
        }
    }
}

impl DenseCodes {
    /// The side of the square.
    pub closed spec fn side(&self) -> int {
        self.codes@.len() as int
    }

    /// A square of `side` clean cells on each side.
    pub fn new(side: usize) -> (r: DenseCodes)
        requires
            side < i32::MAX,
        ensures
            r.wf(),
            r.side() == side,
            forall|p: (int, int)| #[trigger] (r.cells())(p) == Infection::Clean,
    {
        let mut codes: Vec<Vec<u8>> = Vec::new();
        let mut x: usize = 0;
        while x < side
            invariant
                x <= side,
                codes.len() == x,
                forall|i: int| 0 <= i < x ==> #[trigger] codes@[i].len() == side,
                forall|i: int, j: int| 0 <= i < x && 0 <= j < side ==> #[trigger] codes@[i]@[j] == 0,
            decreases side - x,
        {
            let mut column: Vec<u8> = Vec::new();
            let mut y: usize = 0;
            while y < side
                invariant
                    y <= side,
                    column.len() == y,
                    forall|j: int| 0 <= j < y ==> #[trigger] column@[j] == 0,
                decreases side - y,
            {
                column.push(0);
                y += 1;
            }
            codes.push(column);
            x += 1;
        }
        DenseCodes { codes }
    }

    /// Writes code `c` at column `x`, row `y`.
    fn put(&mut self, x: usize, y: usize, c: u8)
        requires
            old(self).wf(),
            in_square((x as int, y as int), old(self).side()),
            c < 4,
        ensures
            final(self).wf(),
            final(self).side() == old(self).side(),
            final(self).codes@[x as int]@[y as int] == c,
            forall|q: (int, int)|
                #[trigger] (final(self).cells())(q) == if q == (x as int, y as int) {
                    state_of_code(c as int)
                } else {
                    (old(self).cells())(q)
                },
    {
        assert(self.codes@[x as int].len() == self.codes@.len());
        self.codes[x].set(y, c);
        proof {
            assert(self.codes@.len() == old(self).codes@.len());
            assert(self.codes@[x as int]@ == old(self).codes@[x as int]@.update(y as int, c));
            assert(forall|i: int|
                0 <= i < self.codes@.len() && i != x ==> self.codes@[i] == old(self).codes@[i]);
            assert forall|i: int, j: int|
                0 <= i < self.codes@.len() && 0 <= j < self.codes@.len() implies #[trigger] self.codes@[i]@[j]
                < 4 by {
                assert(old(self).codes@[i].len() == old(self).codes@.len());
            }
            assert forall|i: int| 0 <= i < self.codes@.len() implies #[trigger] self.codes@[i].len()
                == self.codes@.len() by {
                assert(old(self).codes@[i].len() == old(self).codes@.len());
            }
        }
    }
}

impl CellStore for DenseCodes {
    closed spec fn wf(&self) -> bool {
        &&& self.codes@.len() < i32::MAX
        &&& forall|i: int|
            0 <= i < self.codes@.len() ==> #[trigger] self.codes@[i].len() == self.codes@.len()
        &&& forall|i: int, j: int|
            0 <= i < self.codes@.len() && 0 <= j < self.codes@.len() ==> #[trigger] self.codes@[i]@[j]
                < 4
    }

    closed spec fn cells(&self) -> Cells {
        |p: (int, int)|
            if in_square(p, self.side()) {
                state_of_code(self.codes@[p.0]@[p.1] as int)
            } else {
                Infection::Clean
            }
    }

    open spec fn covers(&self, p: (int, int)) -> bool {
        in_square(p, self.side())
    }

    open spec fn holds(s: Infection) -> bool {
        true
    }

    proof fn lemma_covers_coords(&self, p: (int, int)) {
    }

    fn contains(&self, p: &Coords) -> (r: bool) {
        0 <= p.0 && (p.0 as usize) < self.codes.len() && 0 <= p.1 && (p.1 as usize)
            < self.codes.len()
    }

    fn get(&self, p: &Coords) -> (r: Infection) {
        let x: usize = p.0 as usize;
        let y: usize = p.1 as usize;
        assert(self.codes@[x as int].len() == self.codes@.len());
        state_from_code(self.codes[x][y])
    }

    fn set(&mut self, p: &Coords, s: Infection) {
        self.put(p.0 as usize, p.1 as usize, code_of(&s));
    }
}

/// Builds the quaternary square of explicit states for a block placed with
/// its top left corner at `(margin, margin)`.
pub fn read3(input: &[&str], side: usize, margin: usize) -> (r: DenseGrid)
    requires
        well_formed(rows_of(input@)),
        fits_dense(input@, side as int, margin as int),
    ensures
        r.wf(),
        r.side() == side,
        forall|p: (int, int)|
            #[trigger] (r.cells())(p) == (pattern_cells(rows_of(input@), margin as int))(p),
{
    let mut grid = DenseGrid::new(side);
    let ghost before = grid;
    proof {
        assert forall|p: (int, int)| within(rows_of(input@), p) implies #[trigger] grid.covers(
            shift(p, margin as int),
        ) by {
            assert(margin + rows_of(input@)[p.1].len() <= side);
        }
    }
    fill(&mut grid, input, margin as i32);
    assert(grid.covers((side as int, 0)) == before.covers((side as int, 0)));
    assert(grid.covers((grid.side(), 0)) == before.covers((grid.side(), 0)));
    grid
}

/// Builds the quaternary square of integer codes for a block placed with
/// its top left corner at `(margin, margin)`.
pub fn read4(input: &[&str], side: usize, margin: usize) -> (r: DenseCodes)
    requires
        well_formed(rows_of(input@)),
        fits_dense(input@, side as int, margin as int),
    ensures
        r.wf(),
        r.side() == side,
        forall|p: (int, int)|
            #[trigger] (r.cells())(p) == (pattern_cells(rows_of(input@), margin as int))(p),
{
    let mut grid = DenseCodes::new(side);
    let ghost before = grid;
    proof {
        assert forall|p: (int, int)| within(rows_of(input@), p) implies #[trigger] grid.covers(
            shift(p, margin as int),
        ) by {
            assert(margin + rows_of(input@)[p.1].len() <= side);
        }
    }
    fill(&mut grid, input, margin as i32);
    assert(grid.covers((side as int, 0)) == before.covers((side as int, 0)));
    assert(grid.covers((grid.side(), 0)) == before.covers((grid.side(), 0)));
    grid
}

/// Runs the quaternary walk for `n` steps from `pos` over the square of
/// explicit states and returns how many steps infected a cell, or where the
/// walk left the square.
pub fn part3(grid: DenseGrid, pos: Coords, n: usize) -> (r: Result<usize, OutOfRange>)
    requires
        grid.wf(),
    ensures
        outcome(grid, Alphabet::Quaternary, pt(pos), n as nat, r),
{
    simulate(Alphabet::Quaternary, grid, pos, n)
}

/// Runs the quaternary walk for `n` steps from `pos` over the square of
/// integer codes and returns how many steps infected a cell, or where the
/// walk left the square.
pub fn part4(grid: DenseCodes, pos: Coords, n: usize) -> (r: Result<usize, OutOfRange>)
    requires
        grid.wf(),
    ensures
        outcome(grid, Alphabet::Quaternary, pt(pos), n as nat, r),
{
    simulate(Alphabet::Quaternary, grid, pos, n)
}

} // verus!
