use vstd::prelude::*;

use crate::fixed::SCALE;
use crate::grid::lemma_odometer_step_props;
use crate::grid::lemma_odometer_visits_all;
use crate::grid::lemma_rank_injective;
use crate::grid::lemma_start_tuple;
use crate::grid::grid_size;
use crate::grid::ranges_wf;
use crate::grid::start_tuple;
use crate::grid::tuple_rank;
use crate::grid::update;
use crate::grid::valid_tuple;
use crate::grid::Range;
use crate::sim::below_ceiling;
use crate::sim::first_min_excluding_of;
use crate::sim::first_min_of;
use crate::sim::fractions_in_band;
use crate::sim::min_of;
use crate::sim::run_value;
use crate::sim::scan_values;
use crate::sim::Backtest;
use crate::sim::BacktestModel;
use crate::sim::ScanError;
use crate::time_series::FIRST_YEAR;
use crate::time_series::YEARS;

verus! {

/// A fraction mapping: a pure map from a parameter vector and a horizon
/// length to a per-year allocation sequence of exactly that length, with no
/// side effects and no dependence on earlier calls.
pub trait FractionMap: Sized {
    /// Mathematical content of the mapping.
    spec fn spec_fractions(&self, values: Seq<i64>, length: nat) -> Seq<i64>;

    /// The allocation sequence for one parameter vector.
    fn fractions(&self, values: &Vec<i64>, length: usize) -> (r: Vec<i64>)
        ensures
            r@ == self.spec_fractions(values@, length as nat),
            r@.len() == length as nat,
            fractions_in_band(r@),
    ;
}

/// Worst-case ending value of the allocation sequence that a parameter
/// tuple maps to: the score the grid search maximizes.
pub open spec fn tuple_score<P: FractionMap>(
    m: BacktestModel,
    map: P,
    t: Seq<i64>,
    length: nat,
) -> int {
    min_of(scan_values(m, map.spec_fractions(t, length)))
}

/// The scan of the sequence a tuple maps to stays below the sanity ceiling.
pub open spec fn tuple_below_ceiling<P: FractionMap>(
    m: BacktestModel,
    map: P,
    t: Seq<i64>,
    length: nat,
) -> bool {
    below_ceiling(scan_values(m, map.spec_fractions(t, length)))
}

/// An element-wise copy of a parameter vector.
fn copy_values(src: &Vec<i64>) -> (r: Vec<i64>)
    ensures
        r@ == src@,
{
    let mut r: Vec<i64> = Vec::new();
    let mut i: usize = 0;
    while i < src.len()
        invariant
            i <= src.len(),
            r@ == src@.take(i as int),
        decreases src.len() - i,
    {
        r.push(src[i]);
        proof {
            assert(r@ =~= src@.take(i + 1));
        }
        i += 1;
    }
    proof {
        assert(r@ =~= src@);
    }
    r
}

impl Backtest {
    /// Exhaustive grid search: initialize the parameter vector to every
    /// dimension's start, drive the odometer through every grid point, map
    /// each vector to an allocation sequence, score it by the worst-year
    /// scan, and keep the vector with the highest worst-case ending value;
    /// ties keep the first-found vector.  Returns that vector, its
    /// worst-case value and calendar year, and the second-worst value and
    /// year of the same vector.  The search aborts as soon as any scan hits
    /// the sanity ceiling.
    pub fn best_fractions<P: FractionMap>(
        &self,
        ranges: &Vec<Range>,
        get_fractions: &P,
        length: usize,
    ) -> (r: Result<(Vec<i64>, i64, usize, i64, usize), ScanError>)
        requires
            self@.wf(),
            self@.horizon() + 1 <= YEARS,
            length == self@.horizon(),
            ranges_wf(ranges@),
        ensures
            match r {
                Ok(t) => {
                    &&& valid_tuple(ranges@, t.0@)
                    &&& t.1 as int == tuple_score(self@, *get_fractions, t.0@, length as nat)
                    &&& forall|u: Seq<i64>|
                        valid_tuple(ranges@, u) ==> #[trigger] tuple_score(
                            self@,
                            *get_fractions,
                            u,
                            length as nat,
                        ) <= t.1 as int
                    &&& forall|u: Seq<i64>|
                        valid_tuple(ranges@, u) && tuple_rank(ranges@, u) < tuple_rank(
                            ranges@,
                            t.0@,
                        ) ==> #[trigger] tuple_score(self@, *get_fractions, u, length as nat) < t.1 as int
                    &&& forall|u: Seq<i64>|
                        valid_tuple(ranges@, u) ==> #[trigger] tuple_below_ceiling(
                            self@,
                            *get_fractions,
                            u,
                            length as nat,
                        )
                    &&& t.2 >= FIRST_YEAR
                    &&& first_min_of(
                        scan_values(self@, get_fractions.spec_fractions(t.0@, length as nat)),
                        t.2 - FIRST_YEAR,
                    )
                    &&& t.4 >= FIRST_YEAR
                    &&& first_min_excluding_of(
                        scan_values(self@, get_fractions.spec_fractions(t.0@, length as nat)),
                        t.4 - FIRST_YEAR,
                        t.2 - FIRST_YEAR,
                    )
                    &&& t.3 as int == run_value(
                        self@,
                        get_fractions.spec_fractions(t.0@, length as nat),
                        t.4 - FIRST_YEAR,
                    )
                },
                Err(e) => {
                    &&& exists|u: Seq<i64>|
                        valid_tuple(ranges@, u) && !#[trigger] tuple_below_ceiling(
                            self@,
                            *get_fractions,
                            u,
                            length as nat,
                        )
                    &&& e == ScanError::SanityCeiling
                },
            },
    {
        let n = ranges.len();
        let mut values: Vec<i64> = Vec::new();
        let mut d: usize = 0;
        while d < n
            invariant
                d <= n,
                n == ranges@.len(),
                values@.len() == d,
                forall|j: int| 0 <= j < d ==> values@[j] == (#[trigger] ranges@[j]).start,
            decreases n - d,
        {
            values.push(ranges[d].start);
            d += 1;
        }
        proof {
            assert(values@ =~= start_tuple(ranges@));
            lemma_start_tuple(ranges@);
        }

        let fr0 = get_fractions.fractions(&values, length);
        let mut best_end: i64;
        let mut best_year: usize;
        let mut second_end: i64;
        let mut second_year: usize;
        match self.worst_year(&fr0) {
            Err(e) => {
                proof {
                    assert(valid_tuple(ranges@, values@) && !tuple_below_ceiling(
                        self@,
                        *get_fractions,
                        values@,
                        length as nat,
                    ));
                }
                return Err(e);
            },
            Ok(t0) => {
                best_year = t0.0;
                best_end = t0.1;
                second_year = t0.2;
                second_end = t0.3;
            },
        }
        let mut best_values = copy_values(&values);
        let ghost mut k: int = 1;
        let mut exhausted = update(ranges, &mut values);
        proof {
            lemma_odometer_step_props(ranges@, start_tuple(ranges@));
            if !exhausted {
                lemma_odometer_visits_all(ranges@, values@);
            }
            assert forall|u: Seq<i64>|
                valid_tuple(ranges@, u) && tuple_rank(ranges@, u) < 1 implies #[trigger] tuple_score(
                self@,
                *get_fractions,
                u,
                length as nat,
            ) <= best_end as int by {
                lemma_odometer_visits_all(ranges@, u);
                lemma_rank_injective(ranges@, u, best_values@);
            }
            assert forall|u: Seq<i64>|
                valid_tuple(ranges@, u) && tuple_rank(ranges@, u) < 1 implies #[trigger] tuple_below_ceiling(
                self@,
                *get_fractions,
                u,
                length as nat,
            ) by {
                lemma_odometer_visits_all(ranges@, u);
                lemma_rank_injective(ranges@, u, best_values@);
            }
            assert forall|u: Seq<i64>|
                valid_tuple(ranges@, u) && tuple_rank(ranges@, u) < tuple_rank(
                    ranges@,
                    best_values@,
                ) implies #[trigger] tuple_score(self@, *get_fractions, u, length as nat)
                < best_end as int by {
                lemma_odometer_visits_all(ranges@, u);
            }
        }
        while !exhausted
            invariant
                self@.wf(),
                self@.horizon() + 1 <= YEARS,
                length == self@.horizon(),
                n == ranges@.len(),
                ranges_wf(ranges@),
                1 <= k <= grid_size(ranges@),
                !exhausted ==> valid_tuple(ranges@, values@) && tuple_rank(ranges@, values@) == k
                    && k < grid_size(ranges@),
                exhausted ==> k == grid_size(ranges@),
                valid_tuple(ranges@, best_values@),
                tuple_rank(ranges@, best_values@) < k,
                best_end as int == tuple_score(self@, *get_fractions, best_values@, length as nat),
                forall|u: Seq<i64>|
                    valid_tuple(ranges@, u) && tuple_rank(ranges@, u) < k ==> #[trigger] tuple_score(
                        self@,
                        *get_fractions,
                        u,
                        length as nat,
                    ) <= best_end as int,
                forall|u: Seq<i64>|
                    valid_tuple(ranges@, u) && tuple_rank(ranges@, u) < tuple_rank(
                        ranges@,
                        best_values@,
                    ) ==> #[trigger] tuple_score(self@, *get_fractions, u, length as nat) < best_end as int,
                forall|u: Seq<i64>|
                    valid_tuple(ranges@, u) && tuple_rank(ranges@, u) < k
                        ==> #[trigger] tuple_below_ceiling(self@, *get_fractions, u, length as nat),
                best_year >= FIRST_YEAR,
                first_min_of(
                    scan_values(self@, get_fractions.spec_fractions(best_values@, length as nat)),
                    best_year - FIRST_YEAR,
                ),
                second_year >= FIRST_YEAR,
                first_min_excluding_of(
                    scan_values(self@, get_fractions.spec_fractions(best_values@, length as nat)),
                    second_year - FIRST_YEAR,
                    best_year - FIRST_YEAR,
                ),
                second_end as int == run_value(
                    self@,
                    get_fractions.spec_fractions(best_values@, length as nat),
                    second_year - FIRST_YEAR,
                ),
            decreases grid_size(ranges@) - k,
        {
            let fr = get_fractions.fractions(&values, length);
            match self.worst_year(&fr) {
                Err(e) => {
                    proof {
                        assert(valid_tuple(ranges@, values@) && !tuple_below_ceiling(
                            self@,
                            *get_fractions,
                            values@,
                            length as nat,
                        ));
                    }
                    return Err(e);
                },
                Ok(t) => {
                    if t.1 > best_end {
                        best_year = t.0;
                        best_end = t.1;
                        second_year = t.2;
                        second_end = t.3;
                        best_values = copy_values(&values);
                    }
                    proof {
                        assert forall|u: Seq<i64>|
                            valid_tuple(ranges@, u) && tuple_rank(ranges@, u) < k + 1 implies
                            #[trigger] tuple_score(self@, *get_fractions, u, length as nat)
                            <= best_end as int by {
                            if tuple_rank(ranges@, u) == k {
                                lemma_rank_injective(ranges@, u, values@);
                            }
                        }
                        assert forall|u: Seq<i64>|
                            valid_tuple(ranges@, u) && tuple_rank(ranges@, u) < k + 1 implies
                            #[trigger] tuple_below_ceiling(self@, *get_fractions, u, length as nat)
                            by {
                            if tuple_rank(ranges@, u) == k {
                                lemma_rank_injective(ranges@, u, values@);
                            }
                        }
                        assert forall|u: Seq<i64>|
                            valid_tuple(ranges@, u) && tuple_rank(ranges@, u) < tuple_rank(
                                ranges@,
                                best_values@,
                            ) implies #[trigger] tuple_score(self@, *get_fractions, u, length as nat)
                            < best_end as int by {
                            if tuple_rank(ranges@, u) == k {
                                lemma_rank_injective(ranges@, u, values@);
                            }
                        }
                    }
                },
            }
            let ghost prev = values@;
            exhausted = update(ranges, &mut values);
            proof {
                lemma_odometer_step_props(ranges@, prev);
                if !exhausted {
                    lemma_odometer_visits_all(ranges@, values@);
                }
                k = k + 1;
            }
        }
        proof {
            assert forall|u: Seq<i64>| valid_tuple(ranges@, u) implies #[trigger] tuple_score(
                self@,
                *get_fractions,
                u,
                length as nat,
            ) <= best_end as int by {
                lemma_odometer_visits_all(ranges@, u);
            }
            assert forall|u: Seq<i64>| valid_tuple(ranges@, u) implies #[trigger] tuple_below_ceiling(
                self@,
                *get_fractions,
                u,
                length as nat,
            ) by {
                lemma_odometer_visits_all(ranges@, u);
            }
            assert forall|u: Seq<i64>|
                valid_tuple(ranges@, u) && tuple_rank(ranges@, u) < tuple_rank(
                    ranges@,
                    best_values@,
                ) implies #[trigger] tuple_score(self@, *get_fractions, u, length as nat)
                < best_end as int by {
                lemma_odometer_visits_all(ranges@, u);
            }
        }
        Ok((best_values, best_end, best_year, second_end, second_year))
    }
}

/// A fraction out of the unit interval is pulled back to its nearest bound.
pub open spec fn unit_clamp(v: i64) -> i64 {
    if v < 0 {
        0i64
    } else if v > SCALE {
        SCALE
    } else {
        v
    }
}

/// The fraction mapping that holds one constant mix: the first parameter,
/// pulled into the unit interval, is the stock fraction of every year; an
/// empty parameter vector means all bonds.
pub struct ConstantMix {
}

impl FractionMap for ConstantMix {
    open spec fn spec_fractions(&self, values: Seq<i64>, length: nat) -> Seq<i64> {
        Seq::new(
            length,
            |i: int|
                if values.len() > 0 {
                    unit_clamp(values[0])
                } else {
                    0i64
                },
        )
    }

    fn fractions(&self, values: &Vec<i64>, length: usize) -> (r: Vec<i64>)
        ensures
            r@ == self.spec_fractions(values@, length as nat),
            r@.len() == length as nat,
            fractions_in_band(r@),
    {
        let f: i64 = if values.len() > 0 {
            let v = values[0];
            if v < 0 {
                0
            } else if v > SCALE {
                SCALE
            } else {
                v
            }
        } else {
            0
        };
        let mut r: Vec<i64> = Vec::new();
        let mut i: usize = 0;
        while i < length
            invariant
                i <= length,
                r@.len() == i,
                forall|j: int| 0 <= j < i ==> #[trigger] r@[j] == f,
                f == (if values@.len() > 0 {
                    unit_clamp(values@[0])
                } else {
                    0i64
                }),
                0 <= f <= SCALE,
            decreases length - i,
        {
            r.push(f);
            i += 1;
        }
        proof {
            assert(r@ =~= self.spec_fractions(values@, length as nat));
        }
        r
    }
}

} // verus!
