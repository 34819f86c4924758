//! Hashed stores that grow with the cells actually marked or visited.
use vstd::prelude::*;

use std::collections::{HashMap, HashSet};

use crate::automaton::{is_binary, Alphabet, Infection};
use crate::direction::{in_i32, pt, Coords};
use crate::pattern::{fill, pattern_cells, rows_fit, rows_of, well_formed, within};
use crate::walk::{shift, simulate, walk, walk_fits, CellStore, Cells};

verus! {

broadcast use vstd::std_specs::hash::group_hash_axioms;

/// The hash key of a point: its column in the high half, its row, raised to
/// be non-negative, in the low half.
pub open spec fn key_of(p: (int, int)) -> int {
    p.0 * 0x1_0000_0000 + (p.1 + 0x8000_0000)
}

/// Two representable points share a key only if they are equal.
pub proof fn lemma_key_injective(p: (int, int), q: (int, int))
    requires
        in_i32(p),
        in_i32(q),
        key_of(p) == key_of(q),
    ensures
        p == q,
{
}

/// The hash key of a coordinate.
pub fn key(p: &Coords) -> (r: i64)
    ensures
        r as int == key_of(pt(*p)),
{
    (p.0 as i64) * 0x1_0000_0000 + (p.1 as i64 + 0x8000_0000)
}

/// Binary store: the set of infected cells; a cell absent from it is clean.
pub struct SparseSet {
    infected: HashSet<i64>,
}

/// Quaternary store: explicit states by key; an absent key reads as clean.
pub struct SparseMap {
    states: HashMap<i64, Infection>,
}

impl SparseSet {
    /// An empty grid: every cell clean.
    pub fn new() -> (r: SparseSet)
        ensures
            forall|p: (int, int)| #[trigger] (r.cells())(p) == Infection::Clean,
    {
        SparseSet { infected: HashSet::new() }
    }
}

impl CellStore for SparseSet {
    open spec fn wf(&self) -> bool {
        true
    }

    closed spec fn cells(&self) -> Cells {
        |p: (int, int)|
            if in_i32(p) && self.infected@.contains(key_of(p) as i64) {
                Infection::Infected
            } else {
                Infection::Clean
            }
    }

    open spec fn covers(&self, p: (int, int)) -> bool {
        in_i32(p)
    }

    open spec fn holds(s: Infection) -> bool {
        is_binary(s)
    }

    proof fn lemma_covers_coords(&self, p: (int, int)) {
    }

    fn contains(&self, p: &Coords) -> (r: bool) {
        true
    }

    fn get(&self, p: &Coords) -> (r: Infection) {
        if self.infected.contains(&key(p)) {
            Infection::Infected
        } else {
            Infection::Clean
        }
    }

    fn set(&mut self, p: &Coords, s: Infection) {
        let k: i64 = key(p);
        // A clean cell leaves the set, so the set never outgrows the infection.
        if s == Infection::Infected {
            self.infected.insert(k);
        } else {
            self.infected.remove(&k);
        }
        proof {
            assert forall|q: (int, int)|
                #[trigger] (self.cells())(q) == if q == pt(*p) {
                    s
                } else {
                    (old(self).cells())(q)
                } by {
                if in_i32(q) && key_of(q) == key_of(pt(*p)) {
                    lemma_key_injective(q, pt(*p));
                }
            }
        }
    }
}

impl SparseMap {
    /// An empty grid: every cell clean.
    pub fn new() -> (r: SparseMap)
        ensures
            forall|p: (int, int)| #[trigger] (r.cells())(p) == Infection::Clean,
    {
        SparseMap { states: HashMap::new() }
    }
}

impl CellStore for SparseMap {
    open spec fn wf(&self) -> bool {
        true
    }

    closed spec fn cells(&self) -> Cells {
        |p: (int, int)|
            if in_i32(p) && self.states@.contains_key(key_of(p) as i64) {
                self.states@[key_of(p) as i64]
            } else {
                Infection::Clean
            }
    }

    open spec fn covers(&self, p: (int, int)) -> bool {
        in_i32(p)
    }

    open spec fn holds(s: Infection) -> bool {
        true
    }

    proof fn lemma_covers_coords(&self, p: (int, int)) {
    }

    fn contains(&self, p: &Coords) -> (r: bool) {
        true
    }

    fn get(&self, p: &Coords) -> (r: Infection) {
        match self.states.get(&key(p)) {
            Some(s) => *s,
            None => Infection::Clean,
        }
    }

    fn set(&mut self, p: &Coords, s: Infection) {
        let k: i64 = key(p);
        self.states.insert(k, s);
        proof {
            assert forall|q: (int, int)|
                #[trigger] (self.cells())(q) == if q == pt(*p) {
                    s
                } else {
                    (old(self).cells())(q)
                } by {
                if in_i32(q) && key_of(q) == key_of(pt(*p)) {
                    lemma_key_injective(q, pt(*p));
                }
            }
        }
    }
}

/// Whether every character of the block has a coordinate.
pub open spec fn fits_sparse(input: Seq<&str>) -> bool {
    rows_fit(rows_of(input))
}

/// Builds the binary hashed grid of a block: `#` cells infected at their
/// column and row, all others clean.
pub fn read1(input: &[&str]) -> (r: SparseSet)
    requires
        well_formed(rows_of(input@)),
        fits_sparse(input@),
    ensures
        forall|p: (int, int)| #[trigger] (r.cells())(p) == (pattern_cells(rows_of(input@), 0))(p),
{
    let mut grid = SparseSet::new();
    proof {
        assert forall|p: (int, int)| within(rows_of(input@), p) implies #[trigger] grid.covers(
            shift(p, 0),
        ) by {
            assert(rows_of(input@)[p.1].len() < i32::MAX);
        }
    }
    fill(&mut grid, input, 0);
    grid
}

/// Builds the quaternary hashed grid of a block: `#` cells infected at their
/// column and row, all others clean.
pub fn read2(input: &[&str]) -> (r: SparseMap)
    requires
        well_formed(rows_of(input@)),
        fits_sparse(input@),
    ensures
        forall|p: (int, int)| #[trigger] (r.cells())(p) == (pattern_cells(rows_of(input@), 0))(p),
{
    let mut grid = SparseMap::new();
    proof {
        assert forall|p: (int, int)| within(rows_of(input@), p) implies #[trigger] grid.covers(
            shift(p, 0),
        ) by {
            assert(rows_of(input@)[p.1].len() < i32::MAX);
        }
    }
    fill(&mut grid, input, 0);
    grid
}

/// Runs the binary walk for `n` steps from `pos` and returns how many steps
/// infected a cell.
pub fn part1(grid: SparseSet, pos: Coords, n: usize) -> (r: usize)
    requires
        walk_fits(Alphabet::Binary, grid.cells(), pt(pos), n as nat),
    ensures
        r == walk(Alphabet::Binary, grid.cells(), pt(pos), n as nat).count,
{
    match simulate(Alphabet::Binary, grid, pos, n) {
        Ok(c) => c,
        Err(e) => {
            proof {
                assert(in_i32(walk(Alphabet::Binary, grid.cells(), pt(pos), e.step as nat).pos));
            }
            0
        },
    }
}

/// Runs the quaternary walk for `n` steps from `pos` and returns how many
/// steps infected a cell.
pub fn part2(grid: SparseMap, pos: Coords, n: usize) -> (r: usize)
    requires
        walk_fits(Alphabet::Quaternary, grid.cells(), pt(pos), n as nat),
    ensures
        r == walk(Alphabet::Quaternary, grid.cells(), pt(pos), n as nat).count,
{
    match simulate(Alphabet::Quaternary, grid, pos, n) {
        Ok(c) => c,
        Err(e) => {
            proof {
                assert(in_i32(walk(Alphabet::Quaternary, grid.cells(), pt(pos), e.step as nat).pos));
            }
            0
        },
    }
}

} // verus!
