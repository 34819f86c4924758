use sporifica::pattern::{char_count, validate};
use sporifica::{build_grid, Grid, Strategy};
use sporifica::{
    challenge_input, part1, part2, part3, part4, read1, read2, read3, read4, simulate, test_input,
    Alphabet, CellStore, DenseCodes, DenseGrid, Infection, OutOfRange, PatternError, SparseMap,
    SparseSet,
};

#[test]
fn read_back_marked_and_unmarked_cells() {
    let input = test_input();
    let g1 = read1(&input);
    let g2 = read2(&input);
    let g3 = read3(&input, 10, 4);
    let g4 = read4(&input, 10, 4);
    for y in -1..5i32 {
        for x in -1..5i32 {
            let marked = (x, y) == (2, 0) || (x, y) == (0, 1);
            let want = if marked { Infection::Infected } else { Infection::Clean };
            assert_eq!(g1.get(&(x, y)), want);
            assert_eq!(g2.get(&(x, y)), want);
            assert_eq!(g3.get(&(x + 4, y + 4)), want);
            assert_eq!(g4.get(&(x + 4, y + 4)), want);
        }
    }
}

#[test]
fn empty_stores_are_clean() {
    assert_eq!(SparseSet::new().get(&(-7, 9)), Infection::Clean);
    assert_eq!(SparseMap::new().get(&(i32::MAX - 1, i32::MIN + 1)), Infection::Clean);
    assert_eq!(DenseGrid::new(3).get(&(2, 2)), Infection::Clean);
    assert_eq!(DenseCodes::new(3).get(&(0, 1)), Infection::Clean);
}

#[test]
fn sparse_set_clean_removes() {
    let mut g = SparseSet::new();
    g.set(&(5, -5), Infection::Infected);
    assert_eq!(g.get(&(5, -5)), Infection::Infected);
    assert_eq!(g.get(&(-5, 5)), Infection::Clean);
    g.set(&(5, -5), Infection::Clean);
    assert_eq!(g.get(&(5, -5)), Infection::Clean);
}

#[test]
fn stores_keep_every_state() {
    let mut m = SparseMap::new();
    let mut d = DenseGrid::new(4);
    let mut c = DenseCodes::new(4);
    m.set(&(1, 2), Infection::Flagged);
    d.set(&(1, 2), Infection::Weakened);
    c.set(&(1, 2), Infection::Flagged);
    assert_eq!(m.get(&(1, 2)), Infection::Flagged);
    assert_eq!(d.get(&(1, 2)), Infection::Weakened);
    assert_eq!(c.get(&(1, 2)), Infection::Flagged);
    assert_eq!(c.get(&(2, 1)), Infection::Clean);
}

#[test]
fn dense_covers_its_square_only() {
    let d = DenseGrid::new(3);
    assert!(d.contains(&(0, 0)));
    assert!(d.contains(&(2, 2)));
    assert!(!d.contains(&(3, 0)));
    assert!(!d.contains(&(0, -1)));
    let s = SparseSet::new();
    assert!(s.contains(&(-1000, 1000)));
    assert!(s.contains(&(i32::MAX, i32::MIN)));
}

#[test]
fn dense_walk_leaving_square_fails() {
    let empty: Vec<&str> = Vec::new();
    let r = part3(read3(&empty, 1, 0), (0, 0), 5);
    assert_eq!(r, Err(OutOfRange { step: 1, x: -1, y: 0 }));
    let r = part4(read4(&empty, 1, 0), (0, 0), 5);
    assert_eq!(r, Err(OutOfRange { step: 1, x: -1, y: 0 }));
    let r = part3(read3(&empty, 1, 0), (0, 0), 1);
    assert_eq!(r, Ok(0));
}

#[test]
fn start_outside_square_fails_at_once() {
    let input = test_input();
    assert_eq!(
        part4(read4(&input, 3, 0), (3, 1), 2),
        Err(OutOfRange { step: 0, x: 3, y: 1 })
    );
}

#[test]
fn zero_steps_count_nothing() {
    let input = challenge_input();
    assert_eq!(part1(read1(&input), (12, 12), 0), 0);
    assert_eq!(part2(read2(&input), (12, 12), 0), 0);
    assert_eq!(part3(read3(&input, 30, 2), (14, 14), 0), Ok(0));
    assert_eq!(part4(read4(&input, 30, 2), (14, 14), 0), Ok(0));
    assert_eq!(simulate(Alphabet::Binary, read1(&input), (-5, 7), 0), Ok(0));
}

#[test]
fn binary_sparse_and_dense_agree() {
    let input = challenge_input();
    for n in [0usize, 1, 7, 70, 1000, 10_000].iter() {
        let sparse = part1(read1(&input), (12, 12), *n);
        let dense = simulate(Alphabet::Binary, read3(&input, 2000, 1000), (1012, 1012), *n);
        assert_eq!(dense, Ok(sparse));
    }
}

#[test]
fn quaternary_stores_agree() {
    let input = challenge_input();
    for n in [0usize, 1, 8, 100, 10_000, 100_000].iter() {
        let sparse = part2(read2(&input), (12, 12), *n);
        assert_eq!(part3(read3(&input, 2000, 1000), (1012, 1012), *n), Ok(sparse));
        assert_eq!(part4(read4(&input, 2000, 1000), (1012, 1012), *n), Ok(sparse));
        let generic = simulate(Alphabet::Quaternary, read4(&input, 2000, 1000), (1012, 1012), *n);
        assert_eq!(generic, Ok(sparse));
    }
}

#[test]
fn built_in_patterns_are_well_formed() {
    assert_eq!(test_input(), vec!["..#", "#..", "..."]);
    let c = challenge_input();
    assert_eq!(c.len(), 25);
    assert_eq!(validate(&c), Ok(()));
    assert_eq!(validate(&test_input()), Ok(()));
}

#[test]
fn validate_reports_first_fault() {
    assert_eq!(validate(&["..#", "#.", "x.."]), Err(PatternError::Ragged { row: 1 }));
    assert_eq!(
        validate(&["..#", "#.x", "..."]),
        Err(PatternError::BadSymbol { row: 1, column: 2 })
    );
    assert_eq!(validate(&["é.#", "..."]), Err(PatternError::BadSymbol { row: 0, column: 0 }));
    assert_eq!(validate(&["é.#", "...."]), Err(PatternError::BadSymbol { row: 0, column: 0 }));
    assert_eq!(validate(&["..#", "....", "é"]), Err(PatternError::Ragged { row: 1 }));
    assert_eq!(validate(&[]), Ok(()));
    assert_eq!(validate(&["", ""]), Ok(()));
    assert_eq!(char_count("é.#"), 3);
}

#[test]
fn every_strategy_gives_the_same_counts() {
    let input = test_input();
    let strategies = [
        (Strategy::Keyed, (1, 1)),
        (Strategy::Array { side: 600, margin: 300 }, (301, 301)),
        (Strategy::Codes { side: 600, margin: 300 }, (301, 301)),
    ];
    for n in [0usize, 8, 100, 10_000].iter() {
        let want = part2(read2(&input), (1, 1), *n);
        for (s, start) in strategies.iter() {
            assert_eq!(build_grid(*s, &input).unwrap().simulate(*start, *n), Ok(want));
        }
    }
    assert_eq!(build_grid(Strategy::Hashed, &input).unwrap().simulate((1, 1), 70), Ok(41));
    assert_eq!(build_grid(Strategy::Keyed, &input).unwrap().simulate((1, 1), 100), Ok(26));
}

#[test]
fn build_grid_places_block_at_margin() {
    let input = test_input();
    match build_grid(Strategy::Codes { side: 5, margin: 2 }, &input) {
        Ok(Grid::Codes(g)) => {
            assert_eq!(g.get(&(4, 2)), Infection::Infected);
            assert_eq!(g.get(&(2, 3)), Infection::Infected);
            assert_eq!(g.get(&(2, 2)), Infection::Clean);
            assert!(!g.contains(&(5, 2)));
        }
        _ => panic!("wrong store"),
    }
    let small = build_grid(Strategy::Array { side: 3, margin: 0 }, &input).unwrap();
    assert_eq!(
        small.simulate((1, 1), 10_000),
        Err(OutOfRange { step: 3, x: -1, y: 0 })
    );
}

#[test]
fn build_grid_refuses_malformed_blocks() {
    assert!(matches!(
        build_grid(Strategy::Hashed, &["..#", "#.", "..."]),
        Err(PatternError::Ragged { row: 1 })
    ));
    assert!(matches!(
        build_grid(Strategy::Codes { side: 10, margin: 2 }, &["..#", "#x.", "..."]),
        Err(PatternError::BadSymbol { row: 1, column: 1 })
    ));
    assert!(build_grid(Strategy::Keyed, &[]).is_ok());
}

#[test]
fn sparse_walks_reach_the_coordinate_edge() {
    assert_eq!(part1(SparseSet::new(), (i32::MAX, 0), 0), 0);
    assert_eq!(part2(SparseMap::new(), (i32::MIN, i32::MAX), 0), 0);
    // Turning left on clean cells from the east edge circles back westward.
    assert_eq!(part1(SparseSet::new(), (i32::MAX, 0), 3), 3);
    assert_eq!(part1(SparseSet::new(), (i32::MAX, 0), 4), 4);
    assert_eq!(part1(SparseSet::new(), (i32::MAX - 1, 0), 5), 4);
    assert_eq!(
        part2(SparseMap::new(), (i32::MAX - 5, 0), 10),
        part2(SparseMap::new(), (0, 0), 10)
    );
}

#[test]
fn walk_leaving_coordinate_range_fails() {
    let r = simulate(Alphabet::Binary, SparseSet::new(), (i32::MIN, 0), 1);
    assert_eq!(r, Err(OutOfRange { step: 1, x: i32::MIN as i64 - 1, y: 0 }));
    let r = simulate(Alphabet::Quaternary, SparseMap::new(), (i32::MIN, 0), 5);
    assert_eq!(r, Err(OutOfRange { step: 1, x: i32::MIN as i64 - 1, y: 0 }));
    assert_eq!(simulate(Alphabet::Binary, SparseSet::new(), (i32::MIN, 0), 0), Ok(0));
}
