//! The carrier's walk: its mathematical model, the storage capability that
//! the walk needs, and the one walker loop shared by the stores.
use vstd::prelude::*;

use crate::automaton::{orient_in, rule_orient, rule_touch, touch_in, Alphabet, Infection};
use crate::direction::{go, go_wide, in_i32, pt, spec_go, spec_turn, turn, Coords, Wind};
use crate::pattern::pattern_cells;

verus! {

/// A whole grid as a total map from points to states.
pub type Cells = spec_fn((int, int)) -> Infection;

/// The carrier's situation between two steps of a walk.
pub struct Carrier {
    pub cells: Cells,
    pub pos: (int, int),
    pub wind: Wind,
    /// How many steps so far have left a cell infected.
    pub count: nat,
}

/// The cells `g` with the cell at `p` set to `s`.
pub open spec fn update(g: Cells, p: (int, int), s: Infection) -> Cells {
    |q: (int, int)| if q == p { s } else { g(q) }
}

/// One step: turn by the current cell's state, rewrite that cell, count it
/// if it became infected, then move along the new heading.
pub open spec fn step(a: Alphabet, c: Carrier) -> Carrier {
    let s = (c.cells)(c.pos);
    let w = spec_turn(c.wind, rule_orient(a, s));
    let t = rule_touch(a, s);
    Carrier {
        cells: update(c.cells, c.pos, t),
        pos: spec_go(c.pos, w),
        wind: w,
        count: if t == Infection::Infected { c.count + 1 } else { c.count },
    }
}

/// The carrier after `n` steps from `start`, heading north at first.
pub open spec fn walk(a: Alphabet, g: Cells, start: (int, int), n: nat) -> Carrier
    decreases n,
{
    if n == 0 {
        Carrier { cells: g, pos: start, wind: Wind::North, count: 0 }
    } else {
        step(a, walk(a, g, start, (n - 1) as nat))
    }
}

/// A backing store for cell states: reads and writes one cell at a time,
/// over the points that it covers.
pub trait CellStore: Sized {
    /// The store's internal invariant.
    spec fn wf(&self) -> bool;

    /// The state of every point; points never written read as clean.
    spec fn cells(&self) -> Cells;

    /// The points that the store can hold.
    spec fn covers(&self, p: (int, int)) -> bool;

    /// The states that the store can hold.
    spec fn holds(s: Infection) -> bool;

    /// A covered point is a coordinate.
    proof fn lemma_covers_coords(&self, p: (int, int))
        requires
            self.wf(),
            self.covers(p),
        ensures
            in_i32(p),
    ;

    /// Whether the store covers `p`.
    fn contains(&self, p: &Coords) -> (r: bool)
        requires
            self.wf(),
        ensures
            r == self.covers(pt(*p)),
    ;

    /// The state of the cell at `p`.
    fn get(&self, p: &Coords) -> (r: Infection)
        requires
            self.wf(),
            self.covers(pt(*p)),
        ensures
            r == (self.cells())(pt(*p)),
    ;

    /// Overwrites the cell at `p` with `s`.
    fn set(&mut self, p: &Coords, s: Infection)
        requires
            old(self).wf(),
            old(self).covers(pt(*p)),
            Self::holds(s),
        ensures
            final(self).wf(),
            forall|q: (int, int)| final(self).covers(q) == old(self).covers(q),
            forall|q: (int, int)|
                #[trigger] (final(self).cells())(q) == (update(old(self).cells(), pt(*p), s))(q),
    ;
}

/// Every position read during the first `n` steps of the walk lies where
/// `grid` covers.
pub open spec fn stays<G: CellStore>(grid: G, a: Alphabet, start: (int, int), n: nat) -> bool {
    forall|i: nat| i < n ==> grid.covers(#[trigger] walk(a, grid.cells(), start, i).pos)
}

/// What a walk of `n` steps over `grid` yields: the number of steps that
/// left a cell infected when every step reads a covered cell and the final
/// position is a coordinate; otherwise the first position, with its step,
/// that is read but not covered, or that is no coordinate at all.
pub open spec fn outcome<G: CellStore>(
    grid: G,
    a: Alphabet,
    start: (int, int),
    n: nat,
    r: Result<usize, OutOfRange>,
) -> bool {
    match r {
        Ok(c) => {
            &&& stays(grid, a, start, n)
            &&& in_i32(walk(a, grid.cells(), start, n).pos)
            &&& c == walk(a, grid.cells(), start, n).count
        },
        Err(e) => {
            &&& e.step <= n
            &&& stays(grid, a, start, e.step as nat)
            &&& (e.x as int, e.y as int) == walk(a, grid.cells(), start, e.step as nat).pos
            &&& !grid.covers((e.x as int, e.y as int))
            &&& (e.step == n ==> !in_i32((e.x as int, e.y as int)))
        },
    }
}

/// The walk reached a point that the store does not cover.
#[derive(Clone, Copy, PartialEq, Eq, Structural, Debug)]
pub struct OutOfRange {
    /// The step that would have read the point.
    pub step: usize,
    /// The point's column.
    pub x: i64,
    /// The point's row.
    pub y: i64,
}

/// Walks `n` steps from `start` under alphabet `a`, rewriting `grid` as it
/// goes, and counts the steps that left a cell infected. Fails at the first
/// step whose cell the store does not cover, or at the first move that
/// leaves the coordinate range.
#[verifier::loop_isolation(false)]
pub fn simulate<G: CellStore>(a: Alphabet, mut grid: G, start: Coords, n: usize) -> (r: Result<
    usize,
    OutOfRange,
>)
    requires
        grid.wf(),
        forall|s: Infection| G::holds(#[trigger] rule_touch(a, s)),
    ensures
        outcome(grid, a, pt(start), n as nat, r),
{
    let ghost orig = grid;
    let ghost g0 = grid.cells();
    let mut pos = start;
    let mut wind = Wind::North;
    let mut count: usize = 0;
    let mut i: usize = 0;
    while i < n
        invariant
            i <= n,
            count <= i,
            grid.wf(),
            g0 == orig.cells(),
            forall|q: (int, int)| grid.covers(q) == orig.covers(q),
            forall|q: (int, int)|
                #[trigger] (grid.cells())(q) == (walk(a, g0, pt(start), i as nat).cells)(q),
            pt(pos) == walk(a, g0, pt(start), i as nat).pos,
            wind == walk(a, g0, pt(start), i as nat).wind,
            count == walk(a, g0, pt(start), i as nat).count,
            stays(orig, a, pt(start), i as nat),
        decreases n - i,
    {
        if !grid.contains(&pos) {
            return Err(OutOfRange { step: i, x: pos.0 as i64, y: pos.1 as i64 });
        }
        let s = grid.get(&pos);
        wind = turn(&wind, &orient_in(a, &s));
        let t = touch_in(a, &s);
        grid.set(&pos, t);
        if t == Infection::Infected {
            count += 1;
        }
        proof {
            let prev = walk(a, g0, pt(start), i as nat);
            assert(walk(a, g0, pt(start), (i + 1) as nat) == step(a, prev));
            assert forall|j: nat| j < i + 1 implies orig.covers(
                #[trigger] walk(a, orig.cells(), pt(start), j).pos,
            ) by {
                if j < i {
                    assert(orig.covers(walk(a, orig.cells(), pt(start), j).pos));
                }
            }
        }
        let next: (i64, i64) = go_wide(&pos, &wind);
        if !(i32::MIN as i64 <= next.0 && next.0 <= i32::MAX as i64 && i32::MIN as i64 <= next.1
            && next.1 <= i32::MAX as i64) {
            proof {
                if grid.covers((next.0 as int, next.1 as int)) {
                    grid.lemma_covers_coords((next.0 as int, next.1 as int));
                }
            }
            return Err(OutOfRange { step: i + 1, x: next.0, y: next.1 });
        }
        pos = go(&pos, &wind);
        proof {
            let prev = walk(a, g0, pt(start), i as nat);
            assert(walk(a, g0, pt(start), (i + 1) as nat) == step(a, prev));
            assert forall|q: (int, int)|
                #[trigger] (grid.cells())(q) == (walk(a, g0, pt(start), (i + 1) as nat).cells)(q) by {}
            assert forall|j: nat| j < i + 1 implies orig.covers(
                #[trigger] walk(a, orig.cells(), pt(start), j).pos,
            ) by {
                if j < i {
                    assert(orig.covers(walk(a, orig.cells(), pt(start), j).pos));
                }
            }
        }
        i += 1;
    }
    Ok(count)
}

} // verus!

verus! {

/// After `i` steps the carrier is at most `i` units from its start along
/// each axis.
pub proof fn lemma_walk_near(a: Alphabet, g: Cells, start: (int, int), i: nat)
    ensures
        start.0 - i <= walk(a, g, start, i).pos.0 <= start.0 + i,
        start.1 - i <= walk(a, g, start, i).pos.1 <= start.1 + i,
    decreases i,
{
    if i > 0 {
        lemma_walk_near(a, g, start, (i - 1) as nat);
    }
}

/// Whether every position of the walk of `n` steps, the last one
/// included, is a coordinate.
pub open spec fn walk_fits(a: Alphabet, g: Cells, start: (int, int), n: nat) -> bool {
    forall|i: nat| i <= n ==> in_i32(#[trigger] walk(a, g, start, i).pos)
}

/// Whether `start` lies at least `n` units inside the coordinate range
/// along each axis.
pub open spec fn fits_steps(start: Coords, n: nat) -> bool {
    &&& i32::MIN <= start.0 - n
    &&& start.0 + n <= i32::MAX
    &&& i32::MIN <= start.1 - n
    &&& start.1 + n <= i32::MAX
}

/// A start far enough inside the coordinate range keeps the whole walk
/// inside it.
pub proof fn lemma_fits_steps(a: Alphabet, g: Cells, start: Coords, n: nat)
    requires
        fits_steps(start, n),
    ensures
        walk_fits(a, g, pt(start), n),
{
    assert forall|i: nat| i <= n implies in_i32(#[trigger] walk(a, g, pt(start), i).pos) by {
        lemma_walk_near(a, g, pt(start), i);
    }
}

/// The point `p` moved by `off` along both axes.
pub open spec fn shift(p: (int, int), off: int) -> (int, int) {
    (p.0 + off, p.1 + off)
}

/// A walk over a grid moved by `off`, started at the moved start, keeps the
/// same headings and counts, at moved positions over moved cells.
pub proof fn lemma_translation(a: Alphabet, g1: Cells, g2: Cells, start: (int, int), off: int, n: nat)
    requires
        forall|p: (int, int)| #[trigger] g2(shift(p, off)) == g1(p),
    ensures
        walk(a, g2, shift(start, off), n).pos == shift(walk(a, g1, start, n).pos, off),
        walk(a, g2, shift(start, off), n).wind == walk(a, g1, start, n).wind,
        walk(a, g2, shift(start, off), n).count == walk(a, g1, start, n).count,
        forall|p: (int, int)|
            #[trigger] (walk(a, g2, shift(start, off), n).cells)(shift(p, off)) == (walk(
                a,
                g1,
                start,
                n,
            ).cells)(p),
    decreases n,
{
    if n > 0 {
        lemma_translation(a, g1, g2, start, off, (n - 1) as nat);
        let c1 = walk(a, g1, start, (n - 1) as nat);
        let c2 = walk(a, g2, shift(start, off), (n - 1) as nat);
        assert((c2.cells)(c2.pos) == (c1.cells)(c1.pos)) by {
            assert((c2.cells)(shift(c1.pos, off)) == (c1.cells)(c1.pos));
        }
        let w = step(a, c1).wind;
        assert(spec_go(shift(c1.pos, off), w) == shift(spec_go(c1.pos, w), off));
    }
}

/// Two stores built from one block, the second placed `margin` units down
/// and right of the first, give walks with equal counts when the second
/// walk starts `margin` units down and right of the first.
pub proof fn lemma_stores_agree<G: CellStore, H: CellStore>(
    a: Alphabet,
    first: G,
    second: H,
    rows: Seq<Seq<char>>,
    margin: int,
    start: (int, int),
    n: nat,
)
    requires
        forall|p: (int, int)| #[trigger] (first.cells())(p) == (pattern_cells(rows, 0))(p),
        forall|p: (int, int)| #[trigger] (second.cells())(p) == (pattern_cells(rows, margin))(p),
    ensures
        walk(a, second.cells(), shift(start, margin), n).count == walk(
            a,
            first.cells(),
            start,
            n,
        ).count,
{
    assert forall|p: (int, int)| #[trigger] (second.cells())(shift(p, margin)) == (first.cells())(
        p,
    ) by {
        assert((second.cells())(shift(p, margin)) == (pattern_cells(rows, margin))(shift(p, margin)));
        assert((first.cells())(p) == (pattern_cells(rows, 0))(p));
    }
    lemma_translation(a, first.cells(), second.cells(), start, margin, n);
}

/// A walk of no steps infects nothing and leaves the grid as it was.
pub proof fn lemma_zero_steps(a: Alphabet, g: Cells, start: (int, int))
    ensures
        walk(a, g, start, 0).count == 0,
        walk(a, g, start, 0).cells == g,
        walk(a, g, start, 0).pos == start,
{
}

} // verus!
