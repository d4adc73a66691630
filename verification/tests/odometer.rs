use backtest::grid::update;
use backtest::time_series;
use backtest::Backtest;
use backtest::ConstantMix;
use backtest::Range;
use backtest::SCALE;

fn starts(ranges: &Vec<Range>) -> Vec<i64> {
    let mut values = Vec::new();
    for r in ranges {
        values.push(r.start);
    }
    values
}

/// Drive the odometer from the initial vector to exhaustion, collecting
/// every visited vector.
fn traverse(ranges: &Vec<Range>) -> Vec<Vec<i64>> {
    let mut values = starts(ranges);
    let mut visited = Vec::new();
    loop {
        visited.push(values.clone());
        if update(ranges, &mut values) {
            break;
        }
    }
    visited
}

#[test]
fn range_new_keeps_fields() {
    let r = Range::new(2, 10, 3);
    assert_eq!(r.start, 2);
    assert_eq!(r.end, 10);
    assert_eq!(r.step, 3);
}

#[test]
fn odometer_visits_whole_grid_in_order() {
    let ranges = vec![Range::new(0, 4, 2), Range::new(0, 6, 3)];
    let visited = traverse(&ranges);
    let expected: Vec<Vec<i64>> = vec![
        vec![0, 0],
        vec![0, 3],
        vec![0, 6],
        vec![2, 0],
        vec![2, 3],
        vec![2, 6],
        vec![4, 0],
        vec![4, 3],
        vec![4, 6],
    ];
    assert_eq!(visited, expected);
}

#[test]
fn odometer_exhaustion_resets_to_starts() {
    let ranges = vec![Range::new(1, 5, 2)];
    let mut values = starts(&ranges);
    assert!(!update(&ranges, &mut values));
    assert_eq!(values, vec![3]);
    assert!(!update(&ranges, &mut values));
    assert_eq!(values, vec![5]);
    assert!(update(&ranges, &mut values));
    assert_eq!(values, vec![1]);
}

#[test]
fn odometer_snaps_final_value_to_end() {
    // Span 10, step 6: the last increment overshoots by less than half a
    // step beyond the midpoint rule, so the final value snaps to end.
    let ranges = vec![Range::new(0, 10, 6)];
    let visited = traverse(&ranges);
    assert_eq!(visited, vec![vec![0], vec![6], vec![10]]);

    // Span divisible by the step: the final value is exactly end.
    let ranges = vec![Range::new(0, 8, 2)];
    let visited = traverse(&ranges);
    assert_eq!(visited, vec![vec![0], vec![2], vec![4], vec![6], vec![8]]);
}

#[test]
fn odometer_remainder_at_most_half_step_stops_short() {
    // Span 10, step 4 leaves remainder 2, not more than half a step: the
    // traversal ends at 8 and never snaps to 10.
    let ranges = vec![Range::new(0, 10, 4)];
    let visited = traverse(&ranges);
    assert_eq!(visited, vec![vec![0], vec![4], vec![8]]);
}

fn small_backtest() -> Backtest {
    let real = vec![10_000_000i64, 20_000_000, 30_000_000, 25_000_000, 15_000_000];
    let nominal = vec![5_000_000i64, 0, 7_000_000, 0, 3_000_000];
    Backtest::new(
        1_000_000_000,
        real,
        nominal,
        time_series::TOTAL_STOCK_MARKET.to_vec(),
        time_series::TOTAL_BOND_MARKET.to_vec(),
    )
}

fn worst_value_of_constant_mix(backtest: &Backtest, fraction: i64) -> (usize, i64, usize, i64) {
    let constant = vec![fraction; 5];
    backtest.worst_year(&constant).unwrap()
}

#[test]
fn best_fractions_matches_brute_force() {
    let backtest = small_backtest();
    let quarter = SCALE / 4;
    let ranges = vec![Range::new(0, SCALE, quarter)];

    // Brute force over the five grid points, first-found winning ties.
    let mut best_fraction = 0i64;
    let mut best = worst_value_of_constant_mix(&backtest, 0);
    let mut f = quarter;
    while f <= SCALE {
        let candidate = worst_value_of_constant_mix(&backtest, f);
        if candidate.1 > best.1 {
            best = candidate;
            best_fraction = f;
        }
        f += quarter;
    }

    let (best_values, best_end, best_year, second_end, second_year) =
        backtest.best_fractions(&ranges, &ConstantMix {}, 5).unwrap();
    assert_eq!(best_values, vec![best_fraction]);
    assert_eq!(best_end, best.1);
    assert_eq!(best_year, best.0);
    assert_eq!(second_end, best.3);
    assert_eq!(second_year, best.2);
}

#[test]
fn best_fractions_empty_grid_scores_all_bonds() {
    // With no dimensions the grid holds exactly the empty vector, which the
    // constant mix maps to an all-bond sequence.
    let backtest = small_backtest();
    let ranges: Vec<Range> = vec![];
    let (best_values, best_end, best_year, second_end, second_year) =
        backtest.best_fractions(&ranges, &ConstantMix {}, 5).unwrap();
    assert!(best_values.is_empty());
    let expected = worst_value_of_constant_mix(&backtest, 0);
    assert_eq!(
        (best_year, best_end, second_year, second_end),
        expected
    );
}

#[test]
fn best_fractions_reports_sanity_ceiling() {
    let backtest = Backtest::new(
        backtest::CAP,
        vec![0],
        vec![0],
        time_series::TOTAL_STOCK_MARKET.to_vec(),
        time_series::TOTAL_BOND_MARKET.to_vec(),
    );
    let ranges = vec![Range::new(0, SCALE, SCALE)];
    let r = backtest.best_fractions(&ranges, &ConstantMix {}, 1);
    assert!(matches!(r, Err(backtest::ScanError::SanityCeiling)));
}

#[test]
fn best_fractions_tie_keeps_first_found() {
    // The second dimension never affects the constant mix, so every score
    // ties across it and the winner must keep the first-found value 0.
    let backtest = small_backtest();
    let ranges = vec![Range::new(0, SCALE, SCALE / 2), Range::new(0, 2, 1)];
    let (best_values, _, _, _, _) = backtest.best_fractions(&ranges, &ConstantMix {}, 5).unwrap();
    assert_eq!(best_values.len(), 2);
    assert_eq!(best_values[1], 0);

    let one_dim = vec![Range::new(0, SCALE, SCALE / 2)];
    let (one_values, one_end, _, _, _) =
        backtest.best_fractions(&one_dim, &ConstantMix {}, 5).unwrap();
    assert_eq!(best_values[0], one_values[0]);
    let (_, two_end, _, _, _) = backtest.best_fractions(&ranges, &ConstantMix {}, 5).unwrap();
    assert_eq!(one_end, two_end);
}
