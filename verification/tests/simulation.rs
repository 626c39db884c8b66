use galton_board::board::GaltonBoard;
use galton_board::walk::deflect;
use rand::rngs::StdRng;
use rand::SeedableRng;

fn sum(table: &[u32]) -> u64 {
    table.iter().map(|&count| count as u64).sum()
}

#[test]
fn new_board_has_empty_bins() {
    let board = GaltonBoard::new(800, 400, 10000, StdRng::seed_from_u64(1));
    assert_eq!(board.board_width(), 800);
    assert_eq!(board.board_height(), 400);
    assert_eq!(board.num_balls(), 10000);
    assert_eq!(board.num_levels(), 400);
    assert_eq!(board.column_counts().len(), 401);
    assert!(board.column_counts().iter().all(|&count| count == 0));
}

#[test]
fn board_without_pegs_has_one_bin() {
    let mut board = GaltonBoard::new(5, 0, 12, StdRng::seed_from_u64(2));
    assert_eq!(board.column_counts(), &vec![0]);
    board.run_simulation();
    assert_eq!(board.column_counts(), &vec![12]);
}

#[test]
fn deflect_moves_right_only_on_a_right_turn() {
    assert_eq!(deflect(0, true), 1);
    assert_eq!(deflect(0, false), 0);
    assert_eq!(deflect(41, true), 42);
    assert_eq!(deflect(41, false), 41);
}

#[test]
fn record_ball_adds_one_to_its_bin_only() {
    let mut board = GaltonBoard::new(10, 3, 0, StdRng::seed_from_u64(3));
    board.record_ball(2);
    assert_eq!(board.column_counts(), &vec![0, 0, 1, 0]);
    board.record_ball(2);
    board.record_ball(0);
    board.record_ball(3);
    assert_eq!(board.column_counts(), &vec![1, 0, 2, 1]);
    assert_eq!(board.board_width(), 10);
    assert_eq!(board.board_height(), 3);
    assert_eq!(board.num_balls(), 0);
    assert_eq!(board.num_levels(), 3);
}

#[test]
fn final_bin_is_one_of_the_bins() {
    for levels in [0u32, 1, 2, 7, 64] {
        let mut board = GaltonBoard::new(100, levels, 1, StdRng::seed_from_u64(levels as u64));
        for _ in 0..500 {
            let bin = board.calculate_final_bin();
            assert!(bin <= levels as usize);
        }
        assert!(board.column_counts().iter().all(|&count| count == 0));
        assert_eq!(board.column_counts().len(), levels as usize + 1);
    }
}

#[test]
fn final_bin_reaches_both_ends() {
    let mut board = GaltonBoard::new(100, 2, 1, StdRng::seed_from_u64(11));
    let mut seen = [false; 3];
    for _ in 0..200 {
        seen[board.calculate_final_bin()] = true;
    }
    assert_eq!(seen, [true, true, true]);
}

#[test]
fn table_sums_to_the_number_of_balls() {
    for (height, balls, seed) in [(1u32, 1u32, 5u64), (10, 1000, 6), (50, 12345, 7), (400, 10000, 8)] {
        let mut board = GaltonBoard::new(800, height, balls, StdRng::seed_from_u64(seed));
        board.run_simulation();
        assert_eq!(sum(board.column_counts()), balls as u64);
        assert_eq!(board.column_counts().len(), height as usize + 1);
        assert_eq!(board.num_balls(), balls);
        assert_eq!(board.board_height(), height);
        assert_eq!(board.board_width(), 800);
    }
}

#[test]
fn simulate_counts_every_ball() {
    let board = GaltonBoard::simulate(640, 20, 5000, StdRng::seed_from_u64(9));
    assert_eq!(board.column_counts().len(), 21);
    assert_eq!(sum(board.column_counts()), 5000);
    assert!(board.column_counts().iter().all(|&count| count <= 5000));
    assert_eq!(board.board_width(), 640);
    assert_eq!(board.board_height(), 20);
    assert_eq!(board.num_balls(), 5000);
    assert_eq!(board.num_levels(), 20);
}

#[test]
fn no_balls_leave_the_table_empty() {
    let mut board = GaltonBoard::new(800, 400, 0, StdRng::seed_from_u64(10));
    board.run_simulation();
    assert_eq!(board.column_counts().len(), 401);
    assert!(board.column_counts().iter().all(|&count| count == 0));
}

#[test]
fn a_second_run_adds_to_the_first() {
    let mut board = GaltonBoard::new(100, 8, 300, StdRng::seed_from_u64(12));
    board.run_simulation();
    let first = board.column_counts().clone();
    board.run_simulation();
    let second = board.column_counts().clone();
    assert_eq!(sum(&second), 600);
    for bin in 0..first.len() {
        assert!(first[bin] <= second[bin]);
    }
}

#[test]
fn same_seed_gives_the_same_table() {
    let one = GaltonBoard::simulate(100, 12, 2000, StdRng::seed_from_u64(77));
    let two = GaltonBoard::simulate(100, 12, 2000, StdRng::seed_from_u64(77));
    assert_eq!(one.column_counts(), two.column_counts());
}

#[test]
fn bins_follow_the_binomial_distribution() {
    let levels = 10u32;
    let balls = 100_000u32;
    let board = GaltonBoard::simulate(100, levels, balls, StdRng::seed_from_u64(2024));
    let table = board.column_counts();
    assert_eq!(table.len(), 11);
    assert_eq!(sum(table), balls as u64);

    let fullest = (0..table.len()).max_by_key(|&bin| table[bin]).unwrap();
    assert_eq!(fullest, 5);

    let ways: [f64; 11] = [1.0, 10.0, 45.0, 120.0, 210.0, 252.0, 210.0, 120.0, 45.0, 10.0, 1.0];
    let mut chi_square = 0.0f64;
    for bin in 0..11 {
        let expected = balls as f64 * ways[bin] / 1024.0;
        let seen = table[bin] as f64;
        chi_square += (seen - expected) * (seen - expected) / expected;
    }
    // 29.59 is the 99.9th percentile of chi-square with 10 degrees of freedom.
    assert!(chi_square < 29.59, "chi-square {}", chi_square);
}
