use vstd::prelude::*;

use crate::fixed::add_fx;
use crate::fixed::clamp;
use crate::fixed::clamp_wide;
use crate::fixed::div_fx;
use crate::fixed::fx_add;
use crate::fixed::fx_div;
use crate::fixed::fx_mul;
use crate::fixed::fx_sub;
use crate::fixed::in_band;
use crate::fixed::mul_fx;
use crate::fixed::sub_fx;
use crate::fixed::FACTOR_SCALE;
use crate::fixed::SCALE;
use crate::time_series::FIRST_YEAR;
use crate::time_series::INFLATION;
use crate::time_series::YEARS;

verus! {

/// Mathematical image of a `Backtest`: the owned scalars and sequences,
/// with no executable representation attached.
pub struct BacktestModel {
    pub start_portfolio: i64,
    pub real_expenses: Seq<i64>,
    pub nominal_expenses: Seq<i64>,
    pub bond_return: Seq<i64>,
    pub delta_return: Seq<i64>,
    pub inflation: Seq<i64>,
}

/// The growth multiplier `1 + p/100` of a yearly percentage `p` given in
/// hundredths of a percent, in multiplier fixed-point units.
pub open spec fn growth_factor(p: int) -> int {
    clamp(FACTOR_SCALE + p * 100_000)
}

/// The excess-return slope `(s - b)/100` of stock and bond percentages given
/// in hundredths of a percent, in multiplier fixed-point units.
pub open spec fn delta_factor(s: int, b: int) -> int {
    clamp((s - b) * 100_000)
}

impl BacktestModel {
    /// Well-formedness: the invariants the constructor establishes.
    pub open spec fn wf(self) -> bool {
        &&& self.real_expenses.len() == self.nominal_expenses.len()
        &&& self.real_expenses.len() <= YEARS
        &&& self.bond_return.len() == YEARS
        &&& self.delta_return.len() == YEARS
        &&& self.inflation.len() == YEARS
        &&& in_band(self.start_portfolio as int)
        &&& forall|i: int|
            0 <= i < self.real_expenses.len() ==> in_band(#[trigger] self.real_expenses[i] as int)
        &&& forall|i: int|
            0 <= i < self.nominal_expenses.len() ==> in_band(
                #[trigger] self.nominal_expenses[i] as int,
            )
        &&& forall|y: int| 0 <= y < YEARS ==> in_band(#[trigger] self.bond_return[y] as int)
        &&& forall|y: int| 0 <= y < YEARS ==> in_band(#[trigger] self.delta_return[y] as int)
        &&& forall|y: int| 0 <= y < YEARS ==> in_band(#[trigger] self.inflation[y] as int)
    }

    /// Number of years simulated per path.
    pub open spec fn horizon(self) -> nat {
        self.real_expenses.len()
    }

    /// Largest start-year offset for which a full path fits in the data.
    pub open spec fn last_offset(self) -> int {
        YEARS - self.horizon()
    }
}

/// Every stock fraction of a sequence lies in the representable band.
pub open spec fn fractions_in_band(fr: Seq<i64>) -> bool {
    forall|i: int| 0 <= i < fr.len() ==> in_band(#[trigger] fr[i] as int)
}

/// Running state of one path simulation: the current portfolio value in
/// money units and the cumulative inflation factor in multiplier units.
pub struct SimState {
    pub portfolio: int,
    pub inflation_factor: int,
}

/// One simulated year: expenses are removed at the start of the year (the
/// nominal part deflated by the cumulative inflation factor), then the
/// blended return is applied in the delta form
/// `bond_return + fraction * delta_return`, then inflation compounds.
pub open spec fn sim_step(m: BacktestModel, fraction: i64, i: int, off: int, s: SimState) -> SimState {
    let expenses = fx_add(
        fx_div(m.nominal_expenses[i] as int, s.inflation_factor, FACTOR_SCALE as int),
        m.real_expenses[i] as int,
    );
    let blended = fx_add(
        m.bond_return[off + i] as int,
        fx_mul(fraction as int, m.delta_return[off + i] as int, SCALE as int),
    );
    SimState {
        portfolio: fx_mul(fx_sub(s.portfolio, expenses), blended, FACTOR_SCALE as int),
        inflation_factor: fx_mul(
            s.inflation_factor,
            m.inflation[off + i] as int,
            FACTOR_SCALE as int,
        ),
    }
}

/// State after the first `i` simulated years of a path that starts at
/// `year_offset` `off` under the per-year stock fractions `fractions`.
pub open spec fn state_at(m: BacktestModel, fractions: Seq<i64>, off: int, i: nat) -> SimState
    decreases i,
{
    if i == 0 {
        SimState { portfolio: m.start_portfolio as int, inflation_factor: FACTOR_SCALE as int }
    } else {
        sim_step(m, fractions[i - 1], i - 1, off, state_at(m, fractions, off, (i - 1) as nat))
    }
}

/// Ending portfolio value of one full path.
pub open spec fn run_value(m: BacktestModel, fractions: Seq<i64>, off: int) -> int {
    state_at(m, fractions, off, fractions.len()).portfolio
}

/// Step-by-step state equality behind the incremental/batch equivalence: a
/// backtest over the `k`-year prefix of the schedule moves through exactly
/// the states of the full simulation, for the first `k` years.
proof fn lemma_state_prefix(
    m: BacktestModel,
    prefix: BacktestModel,
    fractions: Seq<i64>,
    off: int,
    k: nat,
    i: nat,
)
    requires
        i <= k,
        k <= m.horizon(),
        k <= m.nominal_expenses.len(),
        k <= fractions.len(),
        prefix.start_portfolio == m.start_portfolio,
        prefix.real_expenses == m.real_expenses.take(k as int),
        prefix.nominal_expenses == m.nominal_expenses.take(k as int),
        prefix.bond_return == m.bond_return,
        prefix.delta_return == m.delta_return,
        prefix.inflation == m.inflation,
    ensures
        state_at(prefix, fractions.take(k as int), off, i) == state_at(m, fractions, off, i),
    decreases i,
{
    if i > 0 {
        lemma_state_prefix(m, prefix, fractions, off, k, (i - 1) as nat);
        assert(fractions.take(k as int)[i - 1] == fractions[i - 1]);
        assert(prefix.real_expenses[i - 1] == m.real_expenses[i - 1]);
        assert(prefix.nominal_expenses[i - 1] == m.nominal_expenses[i - 1]);
    }
}

/// Incremental/batch equivalence: for every prefix length `k`, a backtest
/// whose expense schedule is the `k`-year prefix of `m`'s, run under the
/// `k`-year prefix of the allocation sequence, ends exactly where the
/// step-by-step state of the full simulation stands after `k` years.
pub proof fn lemma_incremental_batch(
    m: BacktestModel,
    prefix: BacktestModel,
    fractions: Seq<i64>,
    off: int,
    k: nat,
)
    requires
        k <= m.horizon(),
        k <= m.nominal_expenses.len(),
        k <= fractions.len(),
        prefix.start_portfolio == m.start_portfolio,
        prefix.real_expenses == m.real_expenses.take(k as int),
        prefix.nominal_expenses == m.nominal_expenses.take(k as int),
        prefix.bond_return == m.bond_return,
        prefix.delta_return == m.delta_return,
        prefix.inflation == m.inflation,
    ensures
        run_value(prefix, fractions.take(k as int), off) == state_at(m, fractions, off, k).portfolio,
{
    lemma_state_prefix(m, prefix, fractions, off, k, k);
}

/// An allocation policy: a pure map from the portfolio value at the start
/// of a year and the number of years remaining to a stock fraction, with no
/// state between calls.  A fraction is expected in `[0, SCALE]`; whatever
/// comes back is saturated into the band like every other quantity.
pub trait AllocationPolicy: Sized {
    /// Mathematical content of the policy.
    spec fn spec_fraction(&self, portfolio: i64, years_left: usize) -> i64;

    /// The stock fraction to hold this year.
    fn stock_fraction(&self, portfolio: i64, years_left: usize) -> (r: i64)
        ensures
            r == self.spec_fraction(portfolio, years_left),
    ;
}

/// State after the first `i` simulated years under a dynamic allocation
/// policy: each year's stock fraction is drawn from the policy, given the
/// portfolio value at the start of the year and the years remaining, and is
/// saturated into the band like every other quantity.
pub open spec fn general_state_at<P: AllocationPolicy>(
    m: BacktestModel,
    policy: P,
    off: int,
    i: nat,
) -> SimState
    decreases i,
{
    if i == 0 {
        SimState { portfolio: m.start_portfolio as int, inflation_factor: FACTOR_SCALE as int }
    } else {
        let prev = general_state_at(m, policy, off, (i - 1) as nat);
        let years_left = (m.horizon() - (i - 1)) as usize;
        let fraction = clamp(policy.spec_fraction(prev.portfolio as i64, years_left) as int) as i64;
        sim_step(m, fraction, i - 1, off, prev)
    }
}

/// Ending portfolio value of one full path under a dynamic policy.
pub open spec fn general_run_value<P: AllocationPolicy>(
    m: BacktestModel,
    policy: P,
    off: int,
) -> int {
    general_state_at(m, policy, off, m.horizon()).portfolio
}

/// The ending values of every path of a dynamic-policy scan.
pub open spec fn general_scan_values<P: AllocationPolicy>(m: BacktestModel, policy: P) -> Seq<
    int,
> {
    Seq::new((m.last_offset() + 1) as nat, |off: int| general_run_value(m, policy, off))
}

/// Highest ending value a scan accepts: anything at or above it is treated
/// as a numerical blow-up, not a legitimate result.
pub const CEILING: i64 = 1_000_000_000_000_000_000;

/// Failure of a scan or a search.
#[derive(Clone, Copy, Debug, PartialEq, Eq, Structural)]
pub enum ScanError {
    /// Some simulated ending value reached the sanity ceiling.
    SanityCeiling,
}

/// The ending values of every path the scan evaluates, one per start-year
/// offset `0 ..= last_offset`.
pub open spec fn scan_values(m: BacktestModel, fr: Seq<i64>) -> Seq<int> {
    Seq::new((m.last_offset() + 1) as nat, |off: int| run_value(m, fr, off))
}

/// Every value stays below the sanity ceiling.
pub open spec fn below_ceiling(vals: Seq<int>) -> bool {
    forall|o: int| 0 <= o < vals.len() ==> #[trigger] vals[o] < CEILING
}

/// `off` is the earliest index attaining the minimum: ties at the minimum
/// are broken toward the lowest index.
pub open spec fn first_min_of(vals: Seq<int>, off: int) -> bool {
    &&& 0 <= off < vals.len()
    &&& forall|o: int| 0 <= o < vals.len() ==> vals[off] <= #[trigger] vals[o]
    &&& forall|o: int| 0 <= o < off ==> vals[off] < #[trigger] vals[o]
}

/// `off` is the earliest index attaining the minimum among all indices
/// other than `excl`.
pub open spec fn first_min_excluding_of(vals: Seq<int>, off: int, excl: int) -> bool {
    &&& 0 <= off < vals.len()
    &&& off != excl
    &&& forall|o: int| 0 <= o < vals.len() && o != excl ==> vals[off] <= #[trigger] vals[o]
    &&& forall|o: int| 0 <= o < off && o != excl ==> vals[off] < #[trigger] vals[o]
}

/// The minimum of a nonempty value sequence.
pub open spec fn min_of(vals: Seq<int>) -> int
    recommends
        vals.len() > 0,
    decreases vals.len(),
{
    if vals.len() <= 1 {
        vals[0]
    } else {
        let rest = min_of(vals.drop_first());
        if vals[0] <= rest {
            vals[0]
        } else {
            rest
        }
    }
}

/// The minimum bounds every element and is attained.
pub proof fn lemma_min_of(vals: Seq<int>)
    requires
        vals.len() > 0,
    ensures
        forall|o: int| 0 <= o < vals.len() ==> min_of(vals) <= #[trigger] vals[o],
        exists|o: int| 0 <= o < vals.len() && #[trigger] vals[o] == min_of(vals),
    decreases vals.len(),
{
    if vals.len() > 1 {
        lemma_min_of(vals.drop_first());
        assert forall|o: int| 0 <= o < vals.len() implies min_of(vals) <= #[trigger] vals[o] by {
            if o > 0 {
                assert(vals.drop_first()[o - 1] == vals[o]);
            }
        }
        if vals[0] <= min_of(vals.drop_first()) {
            assert(vals[0] == min_of(vals));
        } else {
            let w = choose|o: int|
                0 <= o < vals.drop_first().len() && #[trigger] vals.drop_first()[o] == min_of(
                    vals.drop_first(),
                );
            assert(vals.drop_first()[w] == vals[w + 1]);
            assert(vals[w + 1] == min_of(vals));
        }
    } else {
        assert(vals[0] == min_of(vals));
    }
}

/// At the earliest minimum index the value is the minimum itself.
pub proof fn lemma_first_min_value(vals: Seq<int>, off: int)
    requires
        first_min_of(vals, off),
    ensures
        vals[off] == min_of(vals),
{
    lemma_min_of(vals);
    let w = choose|o: int| 0 <= o < vals.len() && #[trigger] vals[o] == min_of(vals);
    assert(vals[off] <= vals[w]);
}

/// A portfolio backtest: a start value, an expense schedule, and per-year
/// return and inflation multipliers precomputed from the historical series.
pub struct Backtest {
    start_portfolio: i64,
    real_expenses: Vec<i64>,
    nominal_expenses: Vec<i64>,
    bond_return: Vec<i64>,
    delta_return: Vec<i64>,
    inflation: Vec<i64>,
}

impl View for Backtest {
    type V = BacktestModel;

    closed spec fn view(&self) -> BacktestModel {
        BacktestModel {
            start_portfolio: self.start_portfolio,
            real_expenses: self.real_expenses@,
            nominal_expenses: self.nominal_expenses@,
            bond_return: self.bond_return@,
            delta_return: self.delta_return@,
            inflation: self.inflation@,
        }
    }
}

impl Backtest {
    /// Build a backtest from a start portfolio value, the two expense
    /// schedules (`real` already inflation-adjusted, `nominal` in start-year
    /// money, to be deflated), and the stock and bond return series, each
    /// covering every historical year.  The inflation multipliers come from
    /// the built-in inflation series.
    pub fn new(
        start_portfolio: i64,
        real_expenses: Vec<i64>,
        nominal_expenses: Vec<i64>,
        stonks: Vec<i64>,
        bonds: Vec<i64>,
    ) -> (r: Backtest)
        requires
            real_expenses@.len() == nominal_expenses@.len(),
            real_expenses@.len() <= YEARS,
            stonks@.len() == YEARS,
            bonds@.len() == YEARS,
            in_band(start_portfolio as int),
            forall|i: int|
                0 <= i < real_expenses@.len() ==> in_band(#[trigger] real_expenses@[i] as int),
            forall|i: int|
                0 <= i < nominal_expenses@.len() ==> in_band(
                    #[trigger] nominal_expenses@[i] as int,
                ),
        ensures
            r@.wf(),
            r@.start_portfolio == start_portfolio,
            r@.real_expenses == real_expenses@,
            r@.nominal_expenses == nominal_expenses@,
            forall|y: int|
                0 <= y < YEARS ==> (#[trigger] r@.bond_return[y]) as int == growth_factor(
                    bonds@[y] as int,
                ),
            forall|y: int|
                0 <= y < YEARS ==> (#[trigger] r@.delta_return[y]) as int == delta_factor(
                    stonks@[y] as int,
                    bonds@[y] as int,
                ),
            forall|y: int|
                0 <= y < YEARS ==> (#[trigger] r@.inflation[y]) as int == growth_factor(
                    INFLATION[y] as int,
                ),
    {
        let mut bond_return: Vec<i64> = Vec::new();
        let mut delta_return: Vec<i64> = Vec::new();
        let mut inflation: Vec<i64> = Vec::new();
        let mut i: usize = 0;
        while i < YEARS
            invariant
                i <= YEARS,
                stonks@.len() == YEARS,
                bonds@.len() == YEARS,
                bond_return@.len() == i,
                delta_return@.len() == i,
                inflation@.len() == i,
                forall|y: int|
                    0 <= y < i ==> (#[trigger] bond_return@[y]) as int == growth_factor(
                        bonds@[y] as int,
                    ) && in_band(bond_return@[y] as int),
                forall|y: int|
                    0 <= y < i ==> (#[trigger] delta_return@[y]) as int == delta_factor(
                        stonks@[y] as int,
                        bonds@[y] as int,
                    ) && in_band(delta_return@[y] as int),
                forall|y: int|
                    0 <= y < i ==> (#[trigger] inflation@[y]) as int == growth_factor(
                        INFLATION[y] as int,
                    ) && in_band(inflation@[y] as int),
            decreases YEARS - i,
        {
            bond_return.push(clamp_wide(FACTOR_SCALE as i128 + (bonds[i] as i128) * 100_000));
            delta_return.push(clamp_wide(((stonks[i] as i128) - (bonds[i] as i128)) * 100_000));
            inflation.push(clamp_wide(FACTOR_SCALE as i128 + (INFLATION[i] as i128) * 100_000));
            i += 1;
        }
        Backtest {
            start_portfolio,
            real_expenses,
            nominal_expenses,
            bond_return,
            delta_return,
            inflation,
        }
    }

    /// Number of years simulated per path: the length of the expense
    /// schedule.
    pub fn horizon(&self) -> (r: usize)
        ensures
            r == self@.horizon(),
    {
        self.real_expenses.len()
    }

    /// Run one path for a fixed per-year allocation sequence, returning the
    /// ending portfolio value (negative values signal ruin and are ordinary
    /// results).
    pub fn single_run(&self, stock_fractions: &Vec<i64>, year_offset: usize) -> (r: i64)
        requires
            self@.wf(),
            stock_fractions@.len() == self@.horizon(),
            fractions_in_band(stock_fractions@),
            year_offset + self@.horizon() <= YEARS,
        ensures
            r as int == run_value(self@, stock_fractions@, year_offset as int),
            in_band(r as int),
    {
        let l = stock_fractions.len();
        let mut portfolio: i64 = self.start_portfolio;
        let mut inflation_factor: i64 = FACTOR_SCALE;
        let mut i: usize = 0;
        while i < l
            invariant
                self@.wf(),
                l == self@.horizon(),
                stock_fractions@.len() == l,
                fractions_in_band(stock_fractions@),
                year_offset + l <= YEARS,
                i <= l,
                in_band(portfolio as int),
                in_band(inflation_factor as int),
                portfolio as int == state_at(
                    self@,
                    stock_fractions@,
                    year_offset as int,
                    i as nat,
                ).portfolio,
                inflation_factor as int == state_at(
                    self@,
                    stock_fractions@,
                    year_offset as int,
                    i as nat,
                ).inflation_factor,
            decreases l - i,
        {
            let expenses = add_fx(
                div_fx(self.nominal_expenses[i], inflation_factor, FACTOR_SCALE),
                self.real_expenses[i],
            );
            portfolio = sub_fx(portfolio, expenses);
            let blended = add_fx(
                self.bond_return[year_offset + i],
                mul_fx(stock_fractions[i], self.delta_return[year_offset + i], SCALE),
            );
            portfolio = mul_fx(portfolio, blended, FACTOR_SCALE);
            inflation_factor = mul_fx(inflation_factor, self.inflation[year_offset + i], FACTOR_SCALE);
            i += 1;
        }
        portfolio
    }

    /// Run one path per feasible start-year offset and reduce to the worst
    /// and second-worst outcomes, earliest offset winning every tie.  The
    /// returned years are calendar years.  The scan aborts as soon as an
    /// ending value reaches the sanity ceiling.
    pub fn worst_year(&self, stock_fractions: &Vec<i64>) -> (r: Result<
        (usize, i64, usize, i64),
        ScanError,
    >)
        requires
            self@.wf(),
            stock_fractions@.len() == self@.horizon(),
            fractions_in_band(stock_fractions@),
            self@.horizon() + 1 <= YEARS,
        ensures
            match r {
                Ok(t) => {
                    &&& below_ceiling(scan_values(self@, stock_fractions@))
                    &&& t.0 >= FIRST_YEAR
                    &&& first_min_of(scan_values(self@, stock_fractions@), t.0 - FIRST_YEAR)
                    &&& t.1 as int == run_value(self@, stock_fractions@, t.0 - FIRST_YEAR)
                    &&& t.1 as int == min_of(scan_values(self@, stock_fractions@))
                    &&& t.2 >= FIRST_YEAR
                    &&& first_min_excluding_of(
                        scan_values(self@, stock_fractions@),
                        t.2 - FIRST_YEAR,
                        t.0 - FIRST_YEAR,
                    )
                    &&& t.3 as int == run_value(self@, stock_fractions@, t.2 - FIRST_YEAR)
                },
                Err(e) => !below_ceiling(scan_values(self@, stock_fractions@)) && e
                    == ScanError::SanityCeiling,
            },
    {
        let n = YEARS - stock_fractions.len();
        let v0 = self.single_run(stock_fractions, 0);
        if v0 >= CEILING {
            proof {
                assert(scan_values(self@, stock_fractions@)[0] == run_value(
                    self@,
                    stock_fractions@,
                    0,
                ));
            }
            return Err(ScanError::SanityCeiling);
        }
        let v1 = self.single_run(stock_fractions, 1);
        if v1 >= CEILING {
            proof {
                assert(scan_values(self@, stock_fractions@)[1] == run_value(
                    self@,
                    stock_fractions@,
                    1,
                ));
            }
            return Err(ScanError::SanityCeiling);
        }
        let mut worst_off: usize;
        let mut worst_value: i64;
        let mut second_off: usize;
        let mut second_value: i64;
        if v1 < v0 {
            worst_off = 1;
            worst_value = v1;
            second_off = 0;
            second_value = v0;
        } else {
            worst_off = 0;
            worst_value = v0;
            second_off = 1;
            second_value = v1;
        }
        let mut off: usize = 2;
        while off <= n
            invariant
                self@.wf(),
                stock_fractions@.len() == self@.horizon(),
                fractions_in_band(stock_fractions@),
                self@.horizon() + 1 <= YEARS,
                n == self@.last_offset(),
                2 <= off <= n + 1,
                worst_off < off,
                worst_value as int == run_value(self@, stock_fractions@, worst_off as int),
                forall|o: int|
                    0 <= o < off ==> worst_value as int <= #[trigger] run_value(
                        self@,
                        stock_fractions@,
                        o,
                    ),
                forall|o: int|
                    0 <= o < worst_off ==> (worst_value as int) < #[trigger] run_value(
                        self@,
                        stock_fractions@,
                        o,
                    ),
                second_off < off,
                second_off != worst_off,
                second_value as int == run_value(self@, stock_fractions@, second_off as int),
                forall|o: int|
                    0 <= o < off && o != worst_off ==> second_value as int <= #[trigger] run_value(
                        self@,
                        stock_fractions@,
                        o,
                    ),
                forall|o: int|
                    0 <= o < second_off && o != worst_off ==> (second_value as int)
                        < #[trigger] run_value(self@, stock_fractions@, o),
                forall|o: int|
                    0 <= o < off ==> #[trigger] run_value(self@, stock_fractions@, o) < CEILING,
            decreases n + 1 - off,
        {
            let v = self.single_run(stock_fractions, off);
            if v >= CEILING {
                proof {
                    assert(scan_values(self@, stock_fractions@)[off as int] == run_value(
                        self@,
                        stock_fractions@,
                        off as int,
                    ));
                }
                return Err(ScanError::SanityCeiling);
            }
            if v < worst_value {
                second_off = worst_off;
                second_value = worst_value;
                worst_off = off;
                worst_value = v;
            } else if v < second_value {
                second_off = off;
                second_value = v;
            }
            off += 1;
        }
        proof {
            lemma_first_min_value(scan_values(self@, stock_fractions@), worst_off as int);
        }
        Ok((worst_off + FIRST_YEAR, worst_value, second_off + FIRST_YEAR, second_value))
    }

    /// Run one path under a dynamic allocation policy, returning the ending
    /// portfolio value.  The loop structure is that of `single_run`, with
    /// each year's stock fraction computed on the fly from the current
    /// portfolio value and the years remaining.
    pub fn single_run_general<P: AllocationPolicy>(&self, policy: &P, year_offset: usize) -> (r:
        i64)
        requires
            self@.wf(),
            year_offset + self@.horizon() <= YEARS,
        ensures
            r as int == general_run_value(self@, *policy, year_offset as int),
            in_band(r as int),
    {
        let l = self.real_expenses.len();
        let mut portfolio: i64 = self.start_portfolio;
        let mut inflation_factor: i64 = FACTOR_SCALE;
        let mut i: usize = 0;
        while i < l
            invariant
                self@.wf(),
                l == self@.horizon(),
                year_offset + l <= YEARS,
                i <= l,
                in_band(portfolio as int),
                in_band(inflation_factor as int),
                portfolio as int == general_state_at(
                    self@,
                    *policy,
                    year_offset as int,
                    i as nat,
                ).portfolio,
                inflation_factor as int == general_state_at(
                    self@,
                    *policy,
                    year_offset as int,
                    i as nat,
                ).inflation_factor,
            decreases l - i,
        {
            let years_left = l - i;
            let fraction = clamp_wide(policy.stock_fraction(portfolio, years_left) as i128);
            let expenses = add_fx(
                div_fx(self.nominal_expenses[i], inflation_factor, FACTOR_SCALE),
                self.real_expenses[i],
            );
            portfolio = sub_fx(portfolio, expenses);
            let blended = add_fx(
                self.bond_return[year_offset + i],
                mul_fx(fraction, self.delta_return[year_offset + i], SCALE),
            );
            portfolio = mul_fx(portfolio, blended, FACTOR_SCALE);
            inflation_factor = mul_fx(inflation_factor, self.inflation[year_offset + i], FACTOR_SCALE);
            i += 1;
        }
        portfolio
    }

    /// The dynamic-policy counterpart of `worst_year`: one path per feasible
    /// start-year offset, reduced to the worst and second-worst outcomes
    /// with the same tie-breaks, the same calendar-year conversion and the
    /// same sanity ceiling.
    pub fn worst_year_general<P: AllocationPolicy>(&self, policy: &P) -> (r: Result<
        (usize, i64, usize, i64),
        ScanError,
    >)
        requires
            self@.wf(),
            self@.horizon() + 1 <= YEARS,
        ensures
            match r {
                Ok(t) => {
                    &&& below_ceiling(general_scan_values(self@, *policy))
                    &&& t.0 >= FIRST_YEAR
                    &&& first_min_of(general_scan_values(self@, *policy), t.0 - FIRST_YEAR)
                    &&& t.1 as int == general_run_value(self@, *policy, t.0 - FIRST_YEAR)
                    &&& t.1 as int == min_of(general_scan_values(self@, *policy))
                    &&& t.2 >= FIRST_YEAR
                    &&& first_min_excluding_of(
                        general_scan_values(self@, *policy),
                        t.2 - FIRST_YEAR,
                        t.0 - FIRST_YEAR,
                    )
                    &&& t.3 as int == general_run_value(self@, *policy, t.2 - FIRST_YEAR)
                },
                Err(e) => !below_ceiling(general_scan_values(self@, *policy)) && e
                    == ScanError::SanityCeiling,
            },
    {
        let n = YEARS - self.real_expenses.len();
        let v0 = self.single_run_general(policy, 0);
        if v0 >= CEILING {
            proof {
                assert(general_scan_values(self@, *policy)[0] == general_run_value(
                    self@,
                    *policy,
                    0,
                ));
            }
            return Err(ScanError::SanityCeiling);
        }
        let v1 = self.single_run_general(policy, 1);
        if v1 >= CEILING {
            proof {
                assert(general_scan_values(self@, *policy)[1] == general_run_value(
                    self@,
                    *policy,
                    1,
                ));
            }
            return Err(ScanError::SanityCeiling);
        }
        let mut worst_off: usize;
        let mut worst_value: i64;
        let mut second_off: usize;
        let mut second_value: i64;
        if v1 < v0 {
            worst_off = 1;
            worst_value = v1;
            second_off = 0;
            second_value = v0;
        } else {
            worst_off = 0;
            worst_value = v0;
            second_off = 1;
            second_value = v1;
        }
        let mut off: usize = 2;
        while off <= n
            invariant
                self@.wf(),
                self@.horizon() + 1 <= YEARS,
                n == self@.last_offset(),
                2 <= off <= n + 1,
                worst_off < off,
                worst_value as int == general_run_value(self@, *policy, worst_off as int),
                forall|o: int|
                    0 <= o < off ==> worst_value as int <= #[trigger] general_run_value(
                        self@,
                        *policy,
                        o,
                    ),
                forall|o: int|
                    0 <= o < worst_off ==> (worst_value as int) < #[trigger] general_run_value(
                        self@,
                        *policy,
                        o,
                    ),
                second_off < off,
                second_off != worst_off,
                second_value as int == general_run_value(self@, *policy, second_off as int),
                forall|o: int|
                    0 <= o < off && o != worst_off ==> second_value as int
                        <= #[trigger] general_run_value(self@, *policy, o),
                forall|o: int|
                    0 <= o < second_off && o != worst_off ==> (second_value as int)
                        < #[trigger] general_run_value(self@, *policy, o),
                forall|o: int|
                    0 <= o < off ==> #[trigger] general_run_value(self@, *policy, o) < CEILING,
            decreases n + 1 - off,
        {
            let v = self.single_run_general(policy, off);
            if v >= CEILING {
                proof {
                    assert(general_scan_values(self@, *policy)[off as int] == general_run_value(
                        self@,
                        *policy,
                        off as int,
                    ));
                }
                return Err(ScanError::SanityCeiling);
            }
            if v < worst_value {
                second_off = worst_off;
                second_value = worst_value;
                worst_off = off;
                worst_value = v;
            } else if v < second_value {
                second_off = off;
                second_value = v;
            }
            off += 1;
        }
        proof {
            lemma_first_min_value(general_scan_values(self@, *policy), worst_off as int);
        }
        Ok((worst_off + FIRST_YEAR, worst_value, second_off + FIRST_YEAR, second_value))
    }
}

/// The allocation policy that holds one fixed stock fraction whatever the
/// portfolio value and however many years remain.
pub struct FixedAllocation {
    /// The fraction held every year, in fixed-point units.
    pub fraction: i64,
}

impl AllocationPolicy for FixedAllocation {
    open spec fn spec_fraction(&self, portfolio: i64, years_left: usize) -> i64 {
        self.fraction
    }

    fn stock_fraction(&self, portfolio: i64, years_left: usize) -> (r: i64) {
        self.fraction
    }
}

} // verus!
