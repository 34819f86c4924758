use sporifica::automaton::{
    code_of, orient_binary, state_from_code, touch_binary, touch_code, Infection,
};
use sporifica::{go, orient, touch, turn, Turn, Wind};

const WINDS: [Wind; 4] = [Wind::North, Wind::East, Wind::South, Wind::West];
const TURNS: [Turn; 4] = [Turn::Left, Turn::Right, Turn::Straight, Turn::Back];
const STATES: [Infection; 4] = [
    Infection::Clean,
    Infection::Weakened,
    Infection::Infected,
    Infection::Flagged,
];

fn clockwise_steps(t: Turn) -> usize {
    match t {
        Turn::Straight => 0,
        Turn::Right => 1,
        Turn::Back => 2,
        Turn::Left => 3,
    }
}

#[test]
fn turn_table_agrees_with_cycle_arithmetic() {
    for (i, w) in WINDS.iter().enumerate() {
        for t in TURNS.iter() {
            assert_eq!(turn(w, t), WINDS[(i + clockwise_steps(*t)) % 4]);
        }
    }
}

#[test]
fn turn_table_named_cases() {
    assert_eq!(turn(&Wind::East, &Turn::Left), Wind::North);
    assert_eq!(turn(&Wind::West, &Turn::Right), Wind::North);
    assert_eq!(turn(&Wind::South, &Turn::Back), Wind::North);
    assert_eq!(turn(&Wind::West, &Turn::Straight), Wind::West);
}

#[test]
fn turn_cycles_restore_heading() {
    for w in WINDS.iter() {
        assert_eq!(turn(&turn(w, &Turn::Back), &Turn::Back), *w);
        let mut l = *w;
        let mut r = *w;
        for _ in 0..4 {
            l = turn(&l, &Turn::Left);
            r = turn(&r, &Turn::Right);
        }
        assert_eq!(l, *w);
        assert_eq!(r, *w);
    }
}

#[test]
fn go_moves_one_unit() {
    assert_eq!(go(&(3, 4), &Wind::North), (3, 3));
    assert_eq!(go(&(3, 4), &Wind::South), (3, 5));
    assert_eq!(go(&(3, 4), &Wind::East), (4, 4));
    assert_eq!(go(&(3, 4), &Wind::West), (2, 4));
}

#[test]
fn quaternary_rules() {
    assert_eq!(orient(&Infection::Clean), Turn::Left);
    assert_eq!(orient(&Infection::Weakened), Turn::Straight);
    assert_eq!(orient(&Infection::Infected), Turn::Right);
    assert_eq!(orient(&Infection::Flagged), Turn::Back);
    assert_eq!(touch(&Infection::Clean), Infection::Weakened);
    assert_eq!(touch(&Infection::Weakened), Infection::Infected);
    assert_eq!(touch(&Infection::Infected), Infection::Flagged);
    assert_eq!(touch(&Infection::Flagged), Infection::Clean);
}

#[test]
fn binary_rules() {
    assert_eq!(orient_binary(&Infection::Clean), Turn::Left);
    assert_eq!(orient_binary(&Infection::Infected), Turn::Right);
    assert_eq!(touch_binary(&Infection::Clean), Infection::Infected);
    assert_eq!(touch_binary(&Infection::Infected), Infection::Clean);
}

#[test]
fn touch_cycles_restore_state() {
    for s in STATES.iter() {
        assert_eq!(touch(&touch(&touch(&touch(s)))), *s);
    }
    for s in [Infection::Clean, Infection::Infected].iter() {
        assert_eq!(touch_binary(&touch_binary(s)), *s);
    }
}

#[test]
fn integer_codes_agree_with_enum_rules() {
    for s in STATES.iter() {
        let c = code_of(s);
        assert_eq!(state_from_code(c), *s);
        assert_eq!(state_from_code(touch_code(c)), touch(s));
    }
    assert_eq!(code_of(&Infection::Infected), 2);
    assert_eq!(touch_code(3), 0);
}
