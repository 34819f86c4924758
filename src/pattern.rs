//! Initial grids given as rectangular text blocks over `.` and `#`.
use vstd::prelude::*;

use crate::automaton::Infection;
use crate::direction::{pt, Coords};
use crate::walk::{shift, CellStore, Cells};

verus! {

broadcast use vstd::string::axiom_spec_iter;

/// The characters of each row of a text block.
pub open spec fn rows_of(input: Seq<&str>) -> Seq<Seq<char>> {
    input.map_values(|s: &str| s@)
}

/// Whether `p` names a character of the block (column `p.0`, row `p.1`).
pub open spec fn within(rows: Seq<Seq<char>>, p: (int, int)) -> bool {
    0 <= p.1 < rows.len() && 0 <= p.0 < rows[p.1].len()
}

/// Whether the block marks `p` as initially infected.
pub open spec fn marked(rows: Seq<Seq<char>>, p: (int, int)) -> bool {
    within(rows, p) && rows[p.1][p.0] == '#'
}

/// The grid that a block describes, placed with its top left corner at
/// `(off, off)`: marked cells infected, every other cell clean.
pub open spec fn pattern_cells(rows: Seq<Seq<char>>, off: int) -> Cells {
    |p: (int, int)|
        if marked(rows, (p.0 - off, p.1 - off)) {
            Infection::Infected
        } else {
            Infection::Clean
        }
}

/// Every row of the block has a length that a coordinate can hold.
pub open spec fn rows_fit(rows: Seq<Seq<char>>) -> bool {
    &&& rows.len() < i32::MAX
    &&& forall|y: int| 0 <= y < rows.len() ==> #[trigger] rows[y].len() < i32::MAX
}

/// Sets every cell that the block marks, shifted by `off`, to infected and
/// leaves every other cell as it was.
pub fn fill<G: CellStore>(grid: &mut G, input: &[&str], off: i32)
    requires
        old(grid).wf(),
        G::holds(Infection::Infected),
        off >= 0,
        rows_fit(rows_of(input@)),
        forall|p: (int, int)|
            within(rows_of(input@), p) ==> old(grid).covers(#[trigger] shift(p, off as int)),
    ensures
        final(grid).wf(),
        forall|q: (int, int)| final(grid).covers(q) == old(grid).covers(q),
        forall|q: (int, int)|
            #[trigger] (final(grid).cells())(q) == if marked(
                rows_of(input@),
                (q.0 - off, q.1 - off),
            ) {
                Infection::Infected
            } else {
                (old(grid).cells())(q)
            },
{
    let ghost rows = rows_of(input@);
    let ghost g0 = grid.cells();
    let mut y: usize = 0;
    while y < input.len()
        invariant
            0 <= y <= input.len(),
            rows == rows_of(input@),
            g0 == old(grid).cells(),
            grid.wf(),
            G::holds(Infection::Infected),
            off >= 0,
            rows_fit(rows),
            forall|q: (int, int)| grid.covers(q) == old(grid).covers(q),
            forall|p: (int, int)| within(rows, p) ==> old(grid).covers(#[trigger] shift(p, off as int)),
            forall|q: (int, int)|
                #[trigger] (grid.cells())(q) == if q.1 - off < y && marked(
                    rows,
                    (q.0 - off, q.1 - off),
                ) {
                    Infection::Infected
                } else {
                    g0(q)
                },
        decreases input.len() - y,
    {
        let row: &str = input[y];
        assert(rows[y as int] == row@);
        let mut x: usize = 0;
        for c in it: row.chars()
            invariant
                0 <= y < input.len(),
                rows == rows_of(input@),
                rows[y as int] == row@,
                it.seq() == row@,
                x == it.index(),
                g0 == old(grid).cells(),
                grid.wf(),
                G::holds(Infection::Infected),
                off >= 0,
                rows_fit(rows),
                forall|q: (int, int)| grid.covers(q) == old(grid).covers(q),
                forall|p: (int, int)|
                    within(rows, p) ==> old(grid).covers(#[trigger] shift(p, off as int)),
                forall|q: (int, int)|
                    #[trigger] (grid.cells())(q) == if (q.1 - off < y || (q.1 - off == y && q.0
                        - off < x)) && marked(rows, (q.0 - off, q.1 - off)) {
                        Infection::Infected
                    } else {
                        g0(q)
                    },
        {
            assert(within(rows, (x as int, y as int)));
            assert(row@.len() < i32::MAX);
            if c == '#' {
                proof {
                    grid.lemma_covers_coords(shift((x as int, y as int), off as int));
                }
                let p: Coords = (x as i32 + off, y as i32 + off);
                assert(pt(p) == shift((x as int, y as int), off as int));
                grid.set(&p, Infection::Infected);
            }
            x += 1;
        }
        y += 1;
    }
}

/// One of the two symbols of a block: `.` clean, `#` infected.
pub open spec fn is_symbol(c: char) -> bool {
    c == '.' || c == '#'
}

/// Row `y` is as long as the first row and holds symbols only.
pub open spec fn row_ok(rows: Seq<Seq<char>>, y: int) -> bool {
    &&& rows[y].len() == rows[0].len()
    &&& forall|x: int| 0 <= x < rows[y].len() ==> is_symbol(#[trigger] rows[y][x])
}

/// A rectangular block over the two symbols.
pub open spec fn well_formed(rows: Seq<Seq<char>>) -> bool {
    forall|y: int| 0 <= y < rows.len() ==> row_ok(rows, y)
}

/// Why a block is not a rectangle over `.` and `#`.
#[derive(Clone, Copy, PartialEq, Eq, Structural, Debug)]
pub enum PatternError {
    /// The row's length differs from the first row's.
    Ragged { row: usize },
    /// The character at this row and column is neither `.` nor `#`.
    BadSymbol { row: usize, column: usize },
}

/// `e` names the first row of the block, in order, that is not as long as
/// the first row or holds another character than `.` and `#`: as ragged if
/// its length is wrong, else at its first such column.
pub open spec fn first_fault(rows: Seq<Seq<char>>, e: PatternError) -> bool {
    match e {
        PatternError::Ragged { row } => {
            &&& row < rows.len()
            &&& forall|y: int| 0 <= y < row ==> row_ok(rows, y)
            &&& rows[row as int].len() != rows[0].len()
        },
        PatternError::BadSymbol { row, column } => {
            &&& row < rows.len()
            &&& forall|y: int| 0 <= y < row ==> row_ok(rows, y)
            &&& rows[row as int].len() == rows[0].len()
            &&& column < rows[row as int].len()
            &&& !is_symbol(rows[row as int][column as int])
            &&& forall|x: int| 0 <= x < column ==> is_symbol(#[trigger] rows[row as int][x])
        },
    }
}

/// The number of characters of `s`.
pub fn char_count(s: &str) -> (r: usize)
    requires
        s@.len() <= usize::MAX,
    ensures
        r == s@.len(),
{
    let mut k: usize = 0;
    for c in it: s.chars()
        invariant
            it.seq() == s@,
            k == it.index(),
            s@.len() <= usize::MAX,
    {
        k += 1;
    }
    k
}

/// Checks that a block is rectangular and uses `.` and `#` only. The first
/// row, in order, that breaks this is reported: as ragged if its length is
/// wrong, else at its first column that holds another character.
pub fn validate(input: &[&str]) -> (r: Result<(), PatternError>)
    requires
        forall|y: int| 0 <= y < input@.len() ==> #[trigger] input@[y]@.len() <= usize::MAX,
    ensures
        r is Ok <==> well_formed(rows_of(input@)),
        r matches Err(e) ==> first_fault(rows_of(input@), e),
{
    let ghost rows = rows_of(input@);
    if input.len() == 0 {
        return Ok(());
    }
    let width: usize = char_count(input[0]);
    let mut y: usize = 0;
    while y < input.len()
        invariant
            0 <= y <= input.len(),
            rows == rows_of(input@),
            width == rows[0].len(),
            forall|j: int| 0 <= j < y ==> row_ok(rows, j),
            forall|j: int| 0 <= j < input@.len() ==> #[trigger] input@[j]@.len() <= usize::MAX,
        decreases input.len() - y,
    {
        let row: &str = input[y];
        assert(rows[y as int] == row@);
        if char_count(row) != width {
            assert(!row_ok(rows, y as int));
            return Err(PatternError::Ragged { row: y });
        }
        let mut x: usize = 0;
        for c in it: row.chars()
            invariant
                0 <= y < input.len(),
                rows == rows_of(input@),
                rows[y as int] == row@,
                width == rows[0].len(),
                row@.len() == width,
                it.seq() == row@,
                x == it.index(),
                forall|j: int| 0 <= j < y ==> row_ok(rows, j),
                forall|i: int| 0 <= i < x ==> is_symbol(#[trigger] row@[i]),
        {
            if c != '.' && c != '#' {
                assert(!is_symbol(rows[y as int][x as int]));
                assert(!row_ok(rows, y as int));
                return Err(PatternError::BadSymbol { row: y, column: x });
            }
            x += 1;
        }
        y += 1;
    }
    Ok(())
}

/// The small example block `..#`, `#..`, `...`.
pub fn test_input() -> (r: Vec<&'static str>)
    ensures
        rows_of(r@) == seq![seq!['.', '.', '#'], seq!['#', '.', '.'], seq!['.', '.', '.']],
{
    proof {
        reveal_strlit("..#");
        reveal_strlit("#..");
        reveal_strlit("...");
    }
    let r = vec!["..#", "#..", "..."];
    assert(rows_of(r@)[0] =~= seq!['.', '.', '#']);
    assert(rows_of(r@)[1] =~= seq!['#', '.', '.']);
    assert(rows_of(r@)[2] =~= seq!['.', '.', '.']);
    assert(rows_of(r@) =~= seq![seq!['.', '.', '#'], seq!['#', '.', '.'], seq!['.', '.', '.']]);
    r
}

/// A 25 by 25 block over `.` and `#`.
pub fn challenge_input() -> (r: Vec<&'static str>)
    ensures
        r@.len() == 25,
        r@[0]@ == ".###.#.#####.##.#...#...."@,
        r@[1]@ == "..####.##.##.#..#.....#.."@,
        r@[2]@ == ".#####.........#####..###"@,
        r@[3]@ == "#.#..##..#.###.###.#.####"@,
        r@[4]@ == ".##.##..#.###.###...#...#"@,
        r@[5]@ == "#.####..#.#.##.##...##.##"@,
        r@[6]@ == "..#......#...#...#.#....#"@,
        r@[7]@ == "###.#.#.##.#.##.######..#"@,
        r@[8]@ == "###..##....#...##....#..."@,
        r@[9]@ == "###......#..#..###.#...#."@,
        r@[10]@ == "#.##..####.##..####...##."@,
        r@[11]@ == "###.#.#....######.#.###.."@,
        r@[12]@ == ".#.##.##...##.#.#..#...##"@,
        r@[13]@ == "######....##..##.######.."@,
        r@[14]@ == "##..##.#.####.##.###.#.##"@,
        r@[15]@ == "#.###.#.##....#.##..####."@,
        r@[16]@ == "#.#......##..####.###.#.."@,
        r@[17]@ == "#..###.###...#..#.#.##..."@,
        r@[18]@ == "#######..#.....#######..#"@,
        r@[19]@ == "##..##..#..#.####..###.#."@,
        r@[20]@ == "..#......##...#..##.###.#"@,
        r@[21]@ == "....##..#.#.##....#..#.#."@,
        r@[22]@ == "..#...#.##....###...###.#"@,
        r@[23]@ == "#.#.#.#..##..##..#..#.##."@,
        r@[24]@ == "#.####.#......#####.####."@,
        well_formed(rows_of(r@)),
        rows_of(r@)[0].len() == 25,
{
    proof {
        reveal_strlit(".###.#.#####.##.#...#....");
        reveal_strlit("..####.##.##.#..#.....#..");
        reveal_strlit(".#####.........#####..###");
        reveal_strlit("#.#..##..#.###.###.#.####");
        reveal_strlit(".##.##..#.###.###...#...#");
        reveal_strlit("#.####..#.#.##.##...##.##");
        reveal_strlit("..#......#...#...#.#....#");
        reveal_strlit("###.#.#.##.#.##.######..#");
        reveal_strlit("###..##....#...##....#...");
        reveal_strlit("###......#..#..###.#...#.");
        reveal_strlit("#.##..####.##..####...##.");
        reveal_strlit("###.#.#....######.#.###..");
        reveal_strlit(".#.##.##...##.#.#..#...##");
        reveal_strlit("######....##..##.######..");
        reveal_strlit("##..##.#.####.##.###.#.##");
        reveal_strlit("#.###.#.##....#.##..####.");
        reveal_strlit("#.#......##..####.###.#..");
        reveal_strlit("#..###.###...#..#.#.##...");
        reveal_strlit("#######..#.....#######..#");
        reveal_strlit("##..##..#..#.####..###.#.");
        reveal_strlit("..#......##...#..##.###.#");
        reveal_strlit("....##..#.#.##....#..#.#.");
        reveal_strlit("..#...#.##....###...###.#");
        reveal_strlit("#.#.#.#..##..##..#..#.##.");
        reveal_strlit("#.####.#......#####.####.");
    }
    let r = vec![
        ".###.#.#####.##.#...#....",
        "..####.##.##.#..#.....#..",
        ".#####.........#####..###",
        "#.#..##..#.###.###.#.####",
        ".##.##..#.###.###...#...#",
        "#.####..#.#.##.##...##.##",
        "..#......#...#...#.#....#",
        "###.#.#.##.#.##.######..#",
        "###..##....#...##....#...",
        "###......#..#..###.#...#.",
        "#.##..####.##..####...##.",
        "###.#.#....######.#.###..",
        ".#.##.##...##.#.#..#...##",
        "######....##..##.######..",
        "##..##.#.####.##.###.#.##",
        "#.###.#.##....#.##..####.",
        "#.#......##..####.###.#..",
        "#..###.###...#..#.#.##...",
        "#######..#.....#######..#",
        "##..##..#..#.####..###.#.",
        "..#......##...#..##.###.#",
        "....##..#.#.##....#..#.#.",
        "..#...#.##....###...###.#",
        "#.#.#.#..##..##..#..#.##.",
        "#.####.#......#####.####.",
    ];
    r
}

} // verus!
