use backtest::sim::ScanError;
use backtest::time_series;
use backtest::Backtest;
use backtest::FixedAllocation;

/// Fixed-point units per 1.0, as a float, for converting test inputs.
const S: f64 = 1_000_000.0;

fn to_fixed(x: f64) -> i64 {
    (x * S).round() as i64
}

fn to_fixed_vec(xs: &[f64]) -> Vec<i64> {
    let mut r = Vec::new();
    for &x in xs {
        r.push(to_fixed(x));
    }
    r
}

fn percent_table(table: &[i64]) -> Vec<f64> {
    let mut r = Vec::new();
    for &v in table {
        r.push(v as f64 / 100.0);
    }
    r
}

fn stonks() -> Vec<i64> {
    time_series::TOTAL_STOCK_MARKET.to_vec()
}

fn bonds() -> Vec<i64> {
    time_series::TOTAL_BOND_MARKET.to_vec()
}

/// A float reference simulation that processes one year at a time, keeping
/// cumulative portfolio and inflation-factor state between calls.
struct SimpleBacktest {
    real_expenses: Vec<f64>,
    nominal_expenses: Vec<f64>,
    stonks: Vec<f64>,
    bonds: Vec<f64>,
    inflation: Vec<f64>,

    stock_fractions: Vec<f64>,
    year_offset: usize,

    i: usize,
    portfolio: f64,
    inflation_factor: f64,
}

impl SimpleBacktest {
    fn new(
        start_portfolio: f64,
        real_expenses: Vec<f64>,
        nominal_expenses: Vec<f64>,
        stonks: Vec<f64>,
        bonds: Vec<f64>,
        inflation: Vec<f64>,
        stock_fractions: Vec<f64>,
        year_offset: usize,
    ) -> Self {
        assert_eq!(real_expenses.len(), nominal_expenses.len());
        assert_eq!(stock_fractions.len(), real_expenses.len());

        assert_eq!(stonks.len(), time_series::YEARS);
        assert_eq!(bonds.len(), time_series::YEARS);

        assert!(year_offset < time_series::YEARS - stock_fractions.len());

        SimpleBacktest {
            real_expenses,
            nominal_expenses,
            stonks,
            bonds,
            inflation,
            stock_fractions,
            year_offset,
            i: 0,
            portfolio: start_portfolio,
            inflation_factor: 1.0,
        }
    }

    fn portfolio(&self) -> f64 {
        self.portfolio
    }

    fn one_iteration(&mut self) {
        self.portfolio -=
            self.real_expenses[self.i] + self.nominal_expenses[self.i] / self.inflation_factor;

        self.portfolio *= (1.0 + self.stonks[self.year_offset + self.i] / 100.0)
            * self.stock_fractions[self.i]
            + (1.0 + self.bonds[self.year_offset + self.i] / 100.0)
                * (1.0 - self.stock_fractions[self.i]);

        self.inflation_factor *= 1.0 + self.inflation[self.year_offset + self.i] / 100.0;
        self.i += 1;
    }
}

fn compare(
    real_expenses: &[f64],
    nominal_expenses: &[f64],
    stock_fractions: &[f64],
    start_year: usize,
) {
    const START_PORTFOLIO: f64 = 1_000.;
    let year_offset = start_year - time_series::FIRST_YEAR;

    let mut simple = SimpleBacktest::new(
        START_PORTFOLIO,
        real_expenses.to_vec(),
        nominal_expenses.to_vec(),
        percent_table(&time_series::TOTAL_STOCK_MARKET),
        percent_table(&time_series::TOTAL_BOND_MARKET),
        percent_table(&time_series::INFLATION),
        stock_fractions.to_vec(),
        year_offset,
    );

    for i in 0..stock_fractions.len() {
        let backtest = Backtest::new(
            to_fixed(START_PORTFOLIO),
            to_fixed_vec(&real_expenses[0..=i]),
            to_fixed_vec(&nominal_expenses[0..=i]),
            stonks(),
            bonds(),
        );

        let fractions = to_fixed_vec(&stock_fractions[0..=i]);
        let actual_end_portfolio = backtest.single_run(&fractions, year_offset) as f64 / S;
        simple.one_iteration();
        assert!((actual_end_portfolio - simple.portfolio()).abs() < 1e-3);
    }
}

#[test]
fn real_only() {
    compare(
        &vec![1., 2., 3., 4., 5.],
        &vec![0.; 5],
        &vec![0.4, 0.5, 0.6, 0.7, 0.8],
        1929,
    );
}

#[test]
fn real_and_nominal_only() {
    compare(
        &vec![1., 22., 53., -4., -11.],
        &vec![100., 123., 99., -54., 978.],
        &vec![0.4, 0.5, 0.45, 0.9, 0.23],
        1965,
    );
}

#[test]
fn data_tables_cover_every_year() {
    assert_eq!(time_series::FIRST_YEAR, 1871);
    assert_eq!(time_series::YEARS, 150);
    assert_eq!(time_series::INFLATION.len(), 150);
    assert_eq!(time_series::TOTAL_STOCK_MARKET.len(), 150);
    assert_eq!(time_series::TOTAL_BOND_MARKET.len(), 150);
    assert_eq!(time_series::INFLATION[0], 153);
    assert_eq!(time_series::TOTAL_STOCK_MARKET[149], 1936);
    assert_eq!(time_series::TOTAL_BOND_MARKET[149], 627);
}

#[test]
fn empty_horizon_returns_start_portfolio() {
    let backtest = Backtest::new(to_fixed(1000.0), vec![], vec![], stonks(), bonds());
    assert_eq!(backtest.single_run(&vec![], 0), 1_000_000_000);
    assert_eq!(backtest.horizon(), 0);
}

#[test]
fn one_year_blended_return_exact() {
    // 1871: stocks 13.86%, bonds 1.22%.  Start 1000, spend 10, then apply
    // 1.0122 + 0.5 * 0.1264 = 1.0754 to the remaining 990.
    let backtest = Backtest::new(
        to_fixed(1000.0),
        vec![to_fixed(10.0)],
        vec![0],
        stonks(),
        bonds(),
    );
    assert_eq!(backtest.single_run(&vec![500_000], 0), 1_064_646_000);
}

#[test]
fn nominal_expense_deflated_exact() {
    // All in bonds for two years from 1871; the year-two nominal expense of
    // 100 is deflated by one year of 1.53% inflation before subtraction.
    let backtest = Backtest::new(
        to_fixed(1000.0),
        vec![0, 0],
        vec![0, to_fixed(100.0)],
        stonks(),
        bonds(),
    );
    assert_eq!(backtest.single_run(&vec![0, 0], 0), 909_686_633);
}

#[test]
fn worst_year_matches_manual_scan() {
    let real = vec![10., 20., 30., 25., 15.];
    let nominal = vec![5., 0., 7., 0., 3.];
    let fractions = to_fixed_vec(&[0.5, 0.6, 0.4, 0.7, 0.3]);
    let backtest = Backtest::new(
        to_fixed(1000.0),
        to_fixed_vec(&real),
        to_fixed_vec(&nominal),
        stonks(),
        bonds(),
    );

    let offsets = time_series::YEARS - real.len() + 1;
    assert_eq!(offsets, 146);

    let mut worst_off = 0usize;
    let mut worst_value = i64::MAX;
    let mut second_off = 0usize;
    let mut second_value = i64::MAX;
    for off in 0..offsets {
        let value = backtest.single_run(&fractions, off);
        if value < worst_value {
            second_off = worst_off;
            second_value = worst_value;
            worst_off = off;
            worst_value = value;
        } else if value < second_value {
            second_off = off;
            second_value = value;
        }
    }

    let (wy, wv, sy, sv) = backtest.worst_year(&fractions).unwrap();
    assert_eq!(wy, worst_off + time_series::FIRST_YEAR);
    assert_eq!(wv, worst_value);
    assert_eq!(sy, second_off + time_series::FIRST_YEAR);
    assert_eq!(sv, second_value);
    assert_ne!(wy, sy);
    assert!(wv <= sv);
}

#[test]
fn worst_year_general_matches_fixed_allocation() {
    let real = vec![10., 20., 30., 25., 15.];
    let nominal = vec![5., 0., 7., 0., 3.];
    let backtest = Backtest::new(
        to_fixed(1000.0),
        to_fixed_vec(&real),
        to_fixed_vec(&nominal),
        stonks(),
        bonds(),
    );

    let policy = FixedAllocation { fraction: to_fixed(0.6) };
    let constant = vec![to_fixed(0.6); 5];

    assert_eq!(
        backtest.single_run_general(&policy, 40),
        backtest.single_run(&constant, 40)
    );
    assert_eq!(
        backtest.worst_year_general(&policy).unwrap(),
        backtest.worst_year(&constant).unwrap()
    );
}

#[test]
fn sanity_ceiling_reported() {
    // A start portfolio at the saturation bound blows past the ceiling on
    // the very first scanned path.
    let backtest = Backtest::new(backtest::CAP, vec![0], vec![0], stonks(), bonds());
    let r = backtest.worst_year(&vec![0]);
    assert!(matches!(r, Err(ScanError::SanityCeiling)));
}

#[test]
fn ruin_is_an_ordinary_result() {
    // Expenses far above the portfolio drive it negative; the scan treats
    // that as a legitimate outcome, not an error.
    let backtest = Backtest::new(
        to_fixed(100.0),
        vec![to_fixed(1000.0)],
        vec![0],
        stonks(),
        bonds(),
    );
    let (_, wv, _, sv) = backtest.worst_year(&vec![0]).unwrap();
    assert!(wv < 0);
    assert!(sv < 0);
}
