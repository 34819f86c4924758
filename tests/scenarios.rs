use sporifica::{part1, part2, part3, part4, read1, read2, read3, read4, simulate, test_input, Alphabet};

#[test]
fn binary_7_steps() {
    assert_eq!(part1(read1(&test_input()), (1, 1), 7), 5);
}

#[test]
fn binary_70_steps() {
    assert_eq!(part1(read1(&test_input()), (1, 1), 70), 41);
}

#[test]
fn binary_10k_steps() {
    assert_eq!(part1(read1(&test_input()), (1, 1), 10_000), 5587);
}

#[test]
fn binary_dense_10k_steps() {
    let r = simulate(Alphabet::Binary, read3(&test_input(), 2000, 1000), (1001, 1001), 10_000);
    assert_eq!(r, Ok(5587));
}

#[test]
fn quaternary_8_steps() {
    assert_eq!(part2(read2(&test_input()), (1, 1), 8), 1);
    assert_eq!(part3(read3(&test_input(), 2000, 1000), (1001, 1001), 8), Ok(1));
    assert_eq!(part4(read4(&test_input(), 2000, 1000), (1001, 1001), 8), Ok(1));
}

#[test]
fn quaternary_100_steps() {
    assert_eq!(part2(read2(&test_input()), (1, 1), 100), 26);
    assert_eq!(part3(read3(&test_input(), 2000, 1000), (1001, 1001), 100), Ok(26));
    assert_eq!(part4(read4(&test_input(), 2000, 1000), (1001, 1001), 100), Ok(26));
}

#[test]
fn quaternary_10m_steps_sparse() {
    assert_eq!(part2(read2(&test_input()), (1, 1), 10_000_000), 2_511_944);
}

#[test]
fn quaternary_10m_steps_dense() {
    assert_eq!(part3(read3(&test_input(), 2000, 1000), (1001, 1001), 10_000_000), Ok(2_511_944));
}

#[test]
fn quaternary_10m_steps_codes() {
    assert_eq!(part4(read4(&test_input(), 2000, 1000), (1001, 1001), 10_000_000), Ok(2_511_944));
}
