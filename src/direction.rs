//! Compass headings, relative turns, and unit moves on the grid.
use vstd::prelude::*;

verus! {

/// A grid coordinate `(x, y)`; `y` grows downward, as text rows do.
pub type Coords = (i32, i32);

/// The mathematical point named by a coordinate.
pub open spec fn pt(c: Coords) -> (int, int) {
    (c.0 as int, c.1 as int)
}

/// A compass heading.
#[derive(Clone, Copy, PartialEq, Eq, Structural, Debug)]
pub enum Wind {
    North,
    East,
    South,
    West,
}

/// A change of heading relative to the current one.
#[derive(Clone, Copy, PartialEq, Eq, Structural, Debug)]
pub enum Turn {
    Left,
    Right,
    Straight,
    Back,
}

/// Position of a heading in the clockwise cycle North, East, South, West.
pub open spec fn wind_index(w: Wind) -> int {
    match w {
        Wind::North => 0,
        Wind::East => 1,
        Wind::South => 2,
        Wind::West => 3,
    }
}

/// The heading at position `i` (taken modulo 4) of the clockwise cycle.
pub open spec fn wind_at(i: int) -> Wind {
    let k = i % 4;
    if k == 0 {
        Wind::North
    } else if k == 1 {
        Wind::East
    } else if k == 2 {
        Wind::South
    } else {
        Wind::West
    }
}

/// Clockwise quarter steps made by a turn.
pub open spec fn turn_offset(t: Turn) -> int {
    match t {
        Turn::Straight => 0,
        Turn::Right => 1,
        Turn::Back => 2,
        Turn::Left => 3,
    }
}

/// The heading reached by turning `t` from `w`, as arithmetic on the cycle.
pub open spec fn spec_turn(w: Wind, t: Turn) -> Wind {
    wind_at(wind_index(w) + turn_offset(t))
}

/// The mirror image of a turn: left and right swap,
/// straight and back swap.
pub open spec fn opposite(t: Turn) -> Turn {
    match t {
        Turn::Left => Turn::Right,
        Turn::Right => Turn::Left,
        Turn::Straight => Turn::Back,
        Turn::Back => Turn::Straight,
    }
}

/// The neighbour of `p` one unit along `w`.
pub open spec fn spec_go(p: (int, int), w: Wind) -> (int, int) {
    match w {
        Wind::North => (p.0, p.1 - 1),
        Wind::East => (p.0 + 1, p.1),
        Wind::South => (p.0, p.1 + 1),
        Wind::West => (p.0 - 1, p.1),
    }
}

/// Whether a point is representable as a coordinate.
pub open spec fn in_i32(p: (int, int)) -> bool {
    i32::MIN <= p.0 <= i32::MAX && i32::MIN <= p.1 <= i32::MAX
}

/// The heading after turning `rel` from `wind`, looked up in a table that
/// agrees with the cyclic arithmetic on every pair.
pub fn turn(wind: &Wind, rel: &Turn) -> (r: Wind)
    ensures
        r == spec_turn(*wind, *rel),
{
    match (wind, rel) {
        (Wind::East, Turn::Left) | (Wind::West, Turn::Right) | (Wind::South, Turn::Back) => {
            Wind::North
        },
        (Wind::North, Turn::Right) | (Wind::South, Turn::Left) | (Wind::West, Turn::Back) => {
            Wind::East
        },
        (Wind::North, Turn::Left) | (Wind::South, Turn::Right) | (Wind::East, Turn::Back) => {
            Wind::West
        },
        (Wind::East, Turn::Right) | (Wind::West, Turn::Left) | (Wind::North, Turn::Back) => {
            Wind::South
        },
        (w, Turn::Straight) => *w,
    }
}

/// The coordinate one unit from `pos` along `wind`.
pub fn go(pos: &Coords, wind: &Wind) -> (r: Coords)
    requires
        in_i32(spec_go(pt(*pos), *wind)),
    ensures
        pt(r) == spec_go(pt(*pos), *wind),
{
    let (x, y) = *pos;
    match wind {
        Wind::North => (x, y - 1),
        Wind::East => (x + 1, y),
        Wind::South => (x, y + 1),
        Wind::West => (x - 1, y),
    }
}

/// The point one unit from `pos` along `wind`, in a wider type that holds
/// it even where it leaves the coordinate range.
pub fn go_wide(pos: &Coords, wind: &Wind) -> (r: (i64, i64))
    ensures
        (r.0 as int, r.1 as int) == spec_go(pt(*pos), *wind),
{
    let x: i64 = pos.0 as i64;
    let y: i64 = pos.1 as i64;
    match wind {
        Wind::North => (x, y - 1),
        Wind::East => (x + 1, y),
        Wind::South => (x, y + 1),
        Wind::West => (x - 1, y),
    }
}

/// Turning back twice, or left or right four times, restores the heading;
/// turning back after any turn is the opposite turn.
pub proof fn lemma_turn_cycles(h: Wind, t: Turn)
    ensures
        spec_turn(spec_turn(h, Turn::Back), Turn::Back) == h,
        spec_turn(spec_turn(spec_turn(spec_turn(h, Turn::Left), Turn::Left), Turn::Left), Turn::Left)
            == h,
        spec_turn(
            spec_turn(spec_turn(spec_turn(h, Turn::Right), Turn::Right), Turn::Right),
            Turn::Right,
        ) == h,
        spec_turn(spec_turn(h, t), Turn::Back) == spec_turn(h, opposite(t)),
{
}

} // verus!
