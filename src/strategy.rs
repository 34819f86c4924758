//! Choosing a store by configuration: one entry point to build a grid from a
//! block and one to walk it, whichever store backs it.
use vstd::prelude::*;

use crate::automaton::Alphabet;
use crate::dense::{fits_dense, part3, part4, read3, read4, DenseCodes, DenseGrid};
use crate::direction::{pt, Coords};
use crate::pattern::{first_fault, pattern_cells, rows_of, validate, well_formed, PatternError};
use crate::sparse::{fits_sparse, read1, read2, SparseMap, SparseSet};
use crate::walk::{outcome, simulate, CellStore, Cells, OutOfRange};

verus! {

/// Which store to build, with the square's side and the block's margin for
/// the dense ones.
#[derive(Clone, Copy, PartialEq, Eq, Structural, Debug)]
pub enum Strategy {
    /// Binary alphabet, hashed set of infected cells.
    Hashed,
    /// Quaternary alphabet, hashed map of explicit states.
    Keyed,
    /// Quaternary alphabet, square of explicit states.
    Array { side: usize, margin: usize },
    /// Quaternary alphabet, square of integer state codes.
    Codes { side: usize, margin: usize },
}

/// A grid in one of the four stores.
pub enum Grid {
    Hashed(SparseSet),
    Keyed(SparseMap),
    Array(DenseGrid),
    Codes(DenseCodes),
}

/// How far right and down a strategy places a block.
pub open spec fn offset(s: Strategy) -> int {
    match s {
        Strategy::Array { side, margin } => margin as int,
        Strategy::Codes { side, margin } => margin as int,
        _ => 0,
    }
}

/// Whether a block can be built with a strategy.
pub open spec fn fits(s: Strategy, input: Seq<&str>) -> bool {
    match s {
        Strategy::Array { side, margin } => fits_dense(input, side as int, margin as int),
        Strategy::Codes { side, margin } => fits_dense(input, side as int, margin as int),
        _ => fits_sparse(input),
    }
}

impl Grid {
    /// The cells of the grid.
    pub open spec fn cells(&self) -> Cells {
        match self {
            Grid::Hashed(g) => g.cells(),
            Grid::Keyed(g) => g.cells(),
            Grid::Array(g) => g.cells(),
            Grid::Codes(g) => g.cells(),
        }
    }

    /// The alphabet that the grid's store is walked with.
    pub open spec fn alphabet(&self) -> Alphabet {
        match self {
            Grid::Hashed(_) => Alphabet::Binary,
            _ => Alphabet::Quaternary,
        }
    }

    /// Whether the grid was built with the store that `s` names.
    pub open spec fn built_by(&self, s: Strategy) -> bool {
        match (self, s) {
            (Grid::Hashed(_), Strategy::Hashed) => true,
            (Grid::Keyed(_), Strategy::Keyed) => true,
            (Grid::Array(g), Strategy::Array { side, margin }) => g.wf() && g.side() == side,
            (Grid::Codes(g), Strategy::Codes { side, margin }) => g.wf() && g.side() == side,
            _ => false,
        }
    }

    /// What walking `n` steps from `start` over this grid yields.
    pub open spec fn yields(&self, start: (int, int), n: nat, r: Result<usize, OutOfRange>) -> bool {
        match self {
            Grid::Hashed(g) => outcome(*g, self.alphabet(), start, n, r),
            Grid::Keyed(g) => outcome(*g, self.alphabet(), start, n, r),
            Grid::Array(g) => outcome(*g, self.alphabet(), start, n, r),
            Grid::Codes(g) => outcome(*g, self.alphabet(), start, n, r),
        }
    }

    /// Walks `n` steps from `start` with the grid's alphabet and counts the
    /// steps that left a cell infected, or reports where the walk left the
    /// grid's store.
    pub fn simulate(self, start: Coords, n: usize) -> (r: Result<usize, OutOfRange>)
        requires
            self.wf(),
        ensures
            self.yields(pt(start), n as nat, r),
    {
        match self {
            Grid::Hashed(g) => simulate(Alphabet::Binary, g, start, n),
            Grid::Keyed(g) => simulate(Alphabet::Quaternary, g, start, n),
            Grid::Array(g) => part3(g, start, n),
            Grid::Codes(g) => part4(g, start, n),
        }
    }

    /// The store's invariant.
    pub open spec fn wf(&self) -> bool {
        match self {
            Grid::Hashed(g) => g.wf(),
            Grid::Keyed(g) => g.wf(),
            Grid::Array(g) => g.wf(),
            Grid::Codes(g) => g.wf(),
        }
    }
}

/// Builds the grid that a block describes in the store that `strategy`
/// names, with `#` cells infected and all others clean. A block that is not
/// a rectangle over `.` and `#` is refused before any store is made.
pub fn build_grid(strategy: Strategy, input: &[&str]) -> (r: Result<Grid, PatternError>)
    requires
        fits(strategy, input@),
    ensures
        r is Ok <==> well_formed(rows_of(input@)),
        r matches Err(e) ==> first_fault(rows_of(input@), e),
        r matches Ok(g) ==> {
            &&& g.wf()
            &&& g.built_by(strategy)
            &&& forall|p: (int, int)|
                #[trigger] (g.cells())(p) == (pattern_cells(rows_of(input@), offset(strategy)))(p)
        },
{
    proof {
        let rows = rows_of(input@);
        assert forall|y: int| 0 <= y < input@.len() implies #[trigger] input@[y]@.len()
            <= usize::MAX by {
            assert(rows[y] == input@[y]@);
        }
    }
    match validate(input) {
        Err(e) => Err(e),
        Ok(()) => Ok(
            match strategy {
                Strategy::Hashed => Grid::Hashed(read1(input)),
                Strategy::Keyed => Grid::Keyed(read2(input)),
                Strategy::Array { side, margin } => Grid::Array(read3(input, side, margin)),
                Strategy::Codes { side, margin } => Grid::Codes(read4(input, side, margin)),
            },
        ),
    }
}

} // verus!
