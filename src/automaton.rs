//! Cell states and the rules that turn the carrier and change a cell.
use vstd::prelude::*;

use crate::direction::Turn;

verus! {

/// The state of one cell. The binary alphabet uses `Clean` and `Infected`
/// only; the quaternary alphabet cycles through all four.
#[derive(Clone, Copy, PartialEq, Eq, Structural, Debug)]
pub enum Infection {
    Clean,
    Weakened,
    Flagged,
    Infected,
}

/// Which rule set drives the carrier.
#[derive(Clone, Copy, PartialEq, Eq, Structural, Debug)]
pub enum Alphabet {
    Binary,
    Quaternary,
}

/// Quaternary rule: the turn made on a cell in state `s`.
pub open spec fn spec_orient(s: Infection) -> Turn {
    match s {
        Infection::Clean => Turn::Left,
        Infection::Weakened => Turn::Straight,
        Infection::Infected => Turn::Right,
        Infection::Flagged => Turn::Back,
    }
}

/// Quaternary rule: the cyclic successor Clean, Weakened, Infected, Flagged.
pub open spec fn spec_touch(s: Infection) -> Infection {
    match s {
        Infection::Clean => Infection::Weakened,
        Infection::Weakened => Infection::Infected,
        Infection::Infected => Infection::Flagged,
        Infection::Flagged => Infection::Clean,
    }
}

/// Binary rule: left on a clean cell, right on an infected one.
pub open spec fn spec_orient_binary(s: Infection) -> Turn {
    if s == Infection::Infected {
        Turn::Right
    } else {
        Turn::Left
    }
}

/// Binary rule: an infected cell is cleaned, any other is infected.
pub open spec fn spec_touch_binary(s: Infection) -> Infection {
    if s == Infection::Infected {
        Infection::Clean
    } else {
        Infection::Infected
    }
}

/// A state of the binary alphabet.
pub open spec fn is_binary(s: Infection) -> bool {
    s == Infection::Clean || s == Infection::Infected
}

/// The turn that alphabet `a` makes on state `s`.
pub open spec fn rule_orient(a: Alphabet, s: Infection) -> Turn {
    match a {
        Alphabet::Binary => spec_orient_binary(s),
        Alphabet::Quaternary => spec_orient(s),
    }
}

/// The state that alphabet `a` writes over state `s`.
pub open spec fn rule_touch(a: Alphabet, s: Infection) -> Infection {
    match a {
        Alphabet::Binary => spec_touch_binary(s),
        Alphabet::Quaternary => spec_touch(s),
    }
}

/// Integer code of a state: its position in the quaternary cycle.
pub open spec fn ordinal(s: Infection) -> int {
    match s {
        Infection::Clean => 0,
        Infection::Weakened => 1,
        Infection::Infected => 2,
        Infection::Flagged => 3,
    }
}

/// The state with integer code `c` (taken modulo 4).
pub open spec fn state_of_code(c: int) -> Infection {
    let k = c % 4;
    if k == 0 {
        Infection::Clean
    } else if k == 1 {
        Infection::Weakened
    } else if k == 2 {
        Infection::Infected
    } else {
        Infection::Flagged
    }
}

/// Quaternary rule: the turn made on a cell in state `infection`.
pub fn orient(infection: &Infection) -> (r: Turn)
    ensures
        r == spec_orient(*infection),
{
    match infection {
        Infection::Clean => Turn::Left,
        Infection::Weakened => Turn::Straight,
        Infection::Infected => Turn::Right,
        Infection::Flagged => Turn::Back,
    }
}

/// Quaternary rule: the next state of a cell in state `infection`.
pub fn touch(infection: &Infection) -> (r: Infection)
    ensures
        r == spec_touch(*infection),
{
    match infection {
        Infection::Clean => Infection::Weakened,
        Infection::Weakened => Infection::Infected,
        Infection::Infected => Infection::Flagged,
        Infection::Flagged => Infection::Clean,
    }
}

/// Binary rule: the turn made on a cell in state `infection`.
pub fn orient_binary(infection: &Infection) -> (r: Turn)
    ensures
        r == spec_orient_binary(*infection),
{
    if *infection == Infection::Infected {
        Turn::Right
    } else {
        Turn::Left
    }
}

/// Binary rule: the next state of a cell in state `infection`.
pub fn touch_binary(infection: &Infection) -> (r: Infection)
    ensures
        r == spec_touch_binary(*infection),
{
    if *infection == Infection::Infected {
        Infection::Clean
    } else {
        Infection::Infected
    }
}

/// The turn that alphabet `a` makes on state `s`.
pub fn orient_in(a: Alphabet, s: &Infection) -> (r: Turn)
    ensures
        r == rule_orient(a, *s),
{
    match a {
        Alphabet::Binary => orient_binary(s),
        Alphabet::Quaternary => orient(s),
    }
}

/// The state that alphabet `a` writes over state `s`.
pub fn touch_in(a: Alphabet, s: &Infection) -> (r: Infection)
    ensures
        r == rule_touch(a, *s),
{
    match a {
        Alphabet::Binary => touch_binary(s),
        Alphabet::Quaternary => touch(s),
    }
}

/// The integer code of a state.
pub fn code_of(s: &Infection) -> (r: u8)
    ensures
        r as int == ordinal(*s),
        r < 4,
        state_of_code(r as int) == *s,
{
    match s {
        Infection::Clean => 0,
        Infection::Weakened => 1,
        Infection::Infected => 2,
        Infection::Flagged => 3,
    }
}

/// The state with integer code `c`.
pub fn state_from_code(c: u8) -> (r: Infection)
    requires
        c < 4,
    ensures
        r == state_of_code(c as int),
        ordinal(r) == c as int,
{
    if c == 0 {
        Infection::Clean
    } else if c == 1 {
        Infection::Weakened
    } else if c == 2 {
        Infection::Infected
    } else {
        Infection::Flagged
    }
}

/// The quaternary cycle on integer codes: adding one modulo 4 is `touch`.
pub fn touch_code(c: u8) -> (r: u8)
    requires
        c < 4,
    ensures
        r < 4,
        state_of_code(r as int) == spec_touch(state_of_code(c as int)),
{
    (c + 1) % 4
}

/// Four quaternary touches restore a state; two binary touches restore a
/// state of the binary alphabet, which a binary touch never leaves.
pub proof fn lemma_touch_cycles(s: Infection)
    ensures
        spec_touch(spec_touch(spec_touch(spec_touch(s)))) == s,
        is_binary(s) ==> spec_touch_binary(spec_touch_binary(s)) == s,
        is_binary(spec_touch_binary(s)),
{
}

/// The integer encoding agrees with the enum automaton on every state.
pub proof fn lemma_code_agrees(s: Infection)
    ensures
        state_of_code(ordinal(s)) == s,
        state_of_code(ordinal(s) + 1) == spec_touch(s),
{
}

} // verus!
