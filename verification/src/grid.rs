use vstd::prelude::*;

use vstd::arithmetic::div_mod::lemma_fundamental_div_mod;
use vstd::arithmetic::div_mod::lemma_fundamental_div_mod_converse;
use vstd::arithmetic::div_mod::lemma_mod_multiples_vanish;

use crate::fixed::in_band;

verus! {

/// One dimension of a search grid: the values `start`, `start + step`, ...,
/// with the last visited value snapped to `end` when the final increment
/// would overshoot it by less than half a step.
#[derive(Clone, Copy, Debug)]
pub struct Range {
    /// First value of the dimension.
    pub start: i64,
    /// Upper bound of the dimension.
    pub end: i64,
    /// Distance between consecutive values; always positive.
    pub step: i64,
}

impl Range {
    /// A dimension is well-formed when its step is positive, its bounds are
    /// ordered, and all three lie in the representable band.  Degenerate
    /// dimensions (a nonpositive step, or `start > end`) are rejected here,
    /// as a precondition, rather than silently traversed.
    pub open spec fn wf(self) -> bool {
        &&& 0 < self.step
        &&& self.start <= self.end
        &&& in_band(self.start as int)
        &&& in_band(self.end as int)
        &&& in_band(self.step as int)
    }

    /// Half-step tolerance: the last value of the dimension is snapped to
    /// `end` whenever it lies within this distance of it.
    pub open spec fn eps(self) -> int {
        self.step / 2
    }

    pub fn new(start: i64, end: i64, step: i64) -> (r: Range)
        requires
            0 < step,
            start <= end,
            in_band(start as int),
            in_band(end as int),
            in_band(step as int),
        ensures
            r == (Range { start, end, step }),
            r.wf(),
    {
        Range { start, end, step }
    }
}

/// The traversal advances past `v` in this dimension exactly when `v` is
/// more than half a step below `end`.
pub open spec fn can_advance(r: Range, v: int) -> bool {
    v < r.end - r.eps()
}

/// The value visited after `v`: one step further, snapped to `end` on
/// overshoot.
pub open spec fn next_value(r: Range, v: int) -> int {
    if v + r.step > r.end {
        r.end as int
    } else {
        v + r.step
    }
}

/// Number of values the traversal still visits from `v` on, `v` included.
pub open spec fn tail_len(r: Range, v: int) -> nat
    decreases r.end - v
        when r.wf() && v <= r.end
{
    if can_advance(r, v) {
        1 + tail_len(r, next_value(r, v))
    } else {
        1
    }
}

/// The traversal of this dimension, started at `w`, visits `v`.
pub open spec fn reaches(r: Range, w: int, v: int) -> bool
    decreases r.end - w
        when r.wf() && w <= r.end
{
    w == v || (can_advance(r, w) && reaches(r, next_value(r, w), v))
}

/// `v` is one of the values the traversal visits in this dimension.
pub open spec fn on_chain(r: Range, v: int) -> bool {
    reaches(r, r.start as int, v)
}

/// Number of values this dimension's traversal visits in all.
pub open spec fn count(r: Range) -> nat {
    tail_len(r, r.start as int)
}

/// Position of `v` in this dimension's traversal, counted from `start`.
pub open spec fn pos_of(r: Range, v: int) -> int {
    count(r) - tail_len(r, v)
}

/// Everything the traversal visits lies between `w` and `end`, and no
/// later value has a longer tail.
pub proof fn lemma_reaches_bounds(r: Range, w: int, v: int)
    requires
        r.wf(),
        w <= r.end,
        reaches(r, w, v),
    ensures
        w <= v <= r.end,
        tail_len(r, v) <= tail_len(r, w),
        v != w ==> tail_len(r, v) < tail_len(r, w),
    decreases r.end - w,
{
    if w != v {
        lemma_reaches_bounds(r, next_value(r, w), v);
    }
}

/// Values the traversal visits lie between `start` and `end`, hence in the
/// representable band.
pub proof fn lemma_on_chain_bounds(r: Range, v: int)
    requires
        r.wf(),
        on_chain(r, v),
    ensures
        r.start <= v <= r.end,
        in_band(v),
{
    lemma_reaches_bounds(r, r.start as int, v);
}

/// Of two values the traversal visits, one is reached from the other.
pub proof fn lemma_chain_linear(r: Range, w: int, v1: int, v2: int)
    requires
        r.wf(),
        w <= r.end,
        reaches(r, w, v1),
        reaches(r, w, v2),
    ensures
        reaches(r, v1, v2) || reaches(r, v2, v1),
    decreases r.end - w,
{
    if w == v1 || w == v2 {
        lemma_reaches_bounds(r, w, v1);
        lemma_reaches_bounds(r, w, v2);
    } else {
        lemma_chain_linear(r, next_value(r, w), v1, v2);
    }
}

/// Distinct visited values have distinct positions: the position determines
/// the value.
pub proof fn lemma_pos_injective(r: Range, v1: int, v2: int)
    requires
        r.wf(),
        on_chain(r, v1),
        on_chain(r, v2),
        pos_of(r, v1) == pos_of(r, v2),
    ensures
        v1 == v2,
{
    lemma_chain_linear(r, r.start as int, v1, v2);
    lemma_on_chain_bounds(r, v1);
    lemma_on_chain_bounds(r, v2);
    if v1 != v2 {
        if reaches(r, v1, v2) {
            lemma_reaches_bounds(r, v1, v2);
        } else {
            lemma_reaches_bounds(r, v2, v1);
        }
    }
}

/// Position bounds along the chain; the last position belongs exactly to
/// the values the traversal cannot advance past.
pub proof fn lemma_pos_bounds(r: Range, v: int)
    requires
        r.wf(),
        on_chain(r, v),
    ensures
        0 <= pos_of(r, v) < count(r),
        pos_of(r, v) == count(r) - 1 <==> !can_advance(r, v),
        can_advance(r, v) ==> on_chain(r, next_value(r, v)) && pos_of(r, next_value(r, v))
            == pos_of(r, v) + 1,
        count(r) >= 1,
{
    lemma_on_chain_bounds(r, v);
    lemma_reaches_bounds(r, r.start as int, v);
    if can_advance(r, v) {
        lemma_next_on_chain(r, r.start as int, v);
        assert(next_value(r, v) <= r.end);
        assert(tail_len(r, next_value(r, v)) >= 1);
        assert(tail_len(r, v) == 1 + tail_len(r, next_value(r, v)));
    } else {
        assert(tail_len(r, v) == 1);
    }
}

/// Every dimension of the grid is well-formed.
pub open spec fn ranges_wf(ranges: Seq<Range>) -> bool {
    forall|i: int| 0 <= i < ranges.len() ==> (#[trigger] ranges[i]).wf()
}

/// The tuple assigns every dimension a value its traversal visits.
pub open spec fn valid_tuple(ranges: Seq<Range>, vals: Seq<i64>) -> bool {
    &&& vals.len() == ranges.len()
    &&& forall|i: int| 0 <= i < ranges.len() ==> on_chain(ranges[i], #[trigger] vals[i] as int)
}

/// The tuple holding every dimension's first value: the initial vector of
/// the traversal.
pub open spec fn start_tuple(ranges: Seq<Range>) -> Seq<i64> {
    Seq::new(ranges.len(), |i: int| ranges[i].start)
}

/// Mixed-radix rank of the positions of dimensions `0 ..= i`, the last
/// dimension varying most rapidly.
pub open spec fn prefix_rank(ranges: Seq<Range>, vals: Seq<i64>, i: int) -> int
    decreases i + 1,
{
    if i < 0 {
        0
    } else {
        prefix_rank(ranges, vals, i - 1) * count(ranges[i]) + pos_of(ranges[i], vals[i] as int)
    }
}

/// Number of distinct position tuples of dimensions `0 ..= i`.
pub open spec fn prefix_total(ranges: Seq<Range>, i: int) -> int
    decreases i + 1,
{
    if i < 0 {
        1
    } else {
        prefix_total(ranges, i - 1) * count(ranges[i])
    }
}

/// Rank of a tuple in the traversal order: 0 for the initial vector, and
/// one more for each advance.
pub open spec fn tuple_rank(ranges: Seq<Range>, vals: Seq<i64>) -> int {
    prefix_rank(ranges, vals, ranges.len() - 1)
}

/// Number of tuples the traversal visits in all.
pub open spec fn grid_size(ranges: Seq<Range>) -> int {
    prefix_total(ranges, ranges.len() - 1)
}

/// One advance of the odometer, working on dimensions `i` down to `0`:
/// advance the last dimension that can still advance, reset every later one
/// to its start; when none can, every dimension has been reset and the
/// traversal is exhausted (first component true).
pub open spec fn odometer_next(ranges: Seq<Range>, vals: Seq<i64>, i: int) -> (bool, Seq<i64>)
    decreases i + 1,
{
    if i < 0 {
        (true, vals)
    } else if can_advance(ranges[i], vals[i] as int) {
        (false, vals.update(i, next_value(ranges[i], vals[i] as int) as i64))
    } else {
        odometer_next(ranges, vals.update(i, ranges[i].start), i - 1)
    }
}

/// One advance of the odometer over the whole vector.
pub open spec fn odometer_step(ranges: Seq<Range>, vals: Seq<i64>) -> (bool, Seq<i64>) {
    odometer_next(ranges, vals, ranges.len() - 1)
}

/// Advance the parameter vector in place to the next grid point, dimension
/// by dimension from the last one backward; the result is true exactly when
/// the traversal is exhausted, and the vector is then back at the initial
/// one.
pub fn update(ranges: &Vec<Range>, values: &mut Vec<i64>) -> (exhausted: bool)
    requires
        ranges_wf(ranges@),
        valid_tuple(ranges@, old(values)@),
    ensures
        exhausted == odometer_step(ranges@, old(values)@).0,
        final(values)@ == odometer_step(ranges@, old(values)@).1,
{
    let n = ranges.len();
    let mut i: usize = n;
    while i > 0
        invariant
            i <= n,
            n == ranges@.len(),
            ranges_wf(ranges@),
            values@.len() == n,
            forall|j: int| 0 <= j < i ==> values@[j] == old(values)@[j],
            forall|j: int| 0 <= j < n ==> on_chain(ranges@[j], #[trigger] old(values)@[j] as int),
            odometer_step(ranges@, old(values)@) == odometer_next(ranges@, values@, i - 1),
        decreases i,
    {
        let j = i - 1;
        let this = ranges[j];
        proof {
            lemma_on_chain_bounds(ranges@[j as int], values@[j as int] as int);
        }
        if values[j] < this.end - this.step / 2 {
            let mut nv = values[j] + this.step;
            if nv > this.end {
                nv = this.end;
            }
            values.set(j, nv);
            return false;
        }
        values.set(j, this.start);
        i = j;
    }
    true
}

/// The value after a visited value is visited too.
proof fn lemma_next_on_chain(r: Range, w: int, v: int)
    requires
        r.wf(),
        w <= r.end,
        reaches(r, w, v),
        can_advance(r, v),
    ensures
        reaches(r, w, next_value(r, v)),
    decreases r.end - w,
{
    if w == v {
        assert(next_value(r, v) <= r.end);
        assert(reaches(r, next_value(r, v), next_value(r, v)));
    } else {
        lemma_next_on_chain(r, next_value(r, w), v);
    }
}

/// The rank over dimensions `0 ..= i` reads only those dimensions.
proof fn lemma_prefix_rank_congruence(ranges: Seq<Range>, v1: Seq<i64>, v2: Seq<i64>, i: int)
    requires
        forall|j: int| 0 <= j <= i ==> v1[j] == v2[j],
    ensures
        prefix_rank(ranges, v1, i) == prefix_rank(ranges, v2, i),
    decreases i + 1,
{
    if i >= 0 {
        lemma_prefix_rank_congruence(ranges, v1, v2, i - 1);
    }
}

/// The rank over dimensions `0 ..= i` of a tuple on the chains lies in
/// `[0, prefix_total)`, and the total is positive.
proof fn lemma_prefix_rank_bounds(ranges: Seq<Range>, vals: Seq<i64>, i: int)
    requires
        ranges_wf(ranges),
        i < ranges.len(),
        forall|j: int| 0 <= j < ranges.len() ==> on_chain(ranges[j], #[trigger] vals[j] as int),
    ensures
        prefix_total(ranges, i) >= 1,
        0 <= prefix_rank(ranges, vals, i) < prefix_total(ranges, i),
    decreases i + 1,
{
    if i >= 0 {
        lemma_prefix_rank_bounds(ranges, vals, i - 1);
        lemma_pos_bounds(ranges[i], vals[i] as int);
        let rp = prefix_rank(ranges, vals, i - 1);
        let tp = prefix_total(ranges, i - 1);
        let c = count(ranges[i]) as int;
        let p = pos_of(ranges[i], vals[i] as int);
        assert(tp * c >= 1) by (nonlinear_arith)
            requires
                tp >= 1,
                c >= 1,
        ;
        assert(rp * c + p >= 0) by (nonlinear_arith)
            requires
                rp >= 0,
                c >= 1,
                p >= 0,
        ;
        assert(rp * c + p < tp * c) by (nonlinear_arith)
            requires
                0 <= rp <= tp - 1,
                0 <= p < c,
        ;
    }
}

/// What one advance of the odometer does over dimensions `0 ..= i`: the
/// later dimensions are untouched, the result stays on the chains, an
/// advance raises the rank by exactly one, and exhaustion happens exactly
/// at the last position tuple, resetting the processed dimensions.
proof fn lemma_odometer_next_props(ranges: Seq<Range>, vals: Seq<i64>, i: int)
    requires
        ranges_wf(ranges),
        vals.len() == ranges.len(),
        -1 <= i < ranges.len(),
        forall|j: int| 0 <= j < ranges.len() ==> on_chain(ranges[j], #[trigger] vals[j] as int),
    ensures
        odometer_next(ranges, vals, i).1.len() == vals.len(),
        forall|j: int| i < j < ranges.len() ==> odometer_next(ranges, vals, i).1[j] == vals[j],
        forall|j: int|
            0 <= j < ranges.len() ==> on_chain(
                ranges[j],
                #[trigger] odometer_next(ranges, vals, i).1[j] as int,
            ),
        odometer_next(ranges, vals, i).0 ==> prefix_rank(ranges, vals, i) == prefix_total(
            ranges,
            i,
        ) - 1 && (forall|j: int|
            0 <= j <= i ==> odometer_next(ranges, vals, i).1[j] == ranges[j].start),
        !odometer_next(ranges, vals, i).0 ==> prefix_rank(
            ranges,
            odometer_next(ranges, vals, i).1,
            i,
        ) == prefix_rank(ranges, vals, i) + 1,
    decreases i + 1,
{
    if i < 0 {
    } else if can_advance(ranges[i], vals[i] as int) {
        lemma_pos_bounds(ranges[i], vals[i] as int);
        let nxt = next_value(ranges[i], vals[i] as int);
        lemma_on_chain_bounds(ranges[i], nxt);
        let nv = odometer_next(ranges, vals, i).1;
        assert(nv == vals.update(i, nxt as i64));
        assert(nv[i] as int == nxt);
        lemma_prefix_rank_congruence(ranges, nv, vals, i - 1);
        assert forall|j: int| i < j < ranges.len() implies odometer_next(ranges, vals, i).1[j]
            == vals[j] by {
            assert(nv[j] == vals[j]);
        }
    } else {
        lemma_pos_bounds(ranges[i], vals[i] as int);
        let c = count(ranges[i]) as int;
        let vals2 = vals.update(i, ranges[i].start);
        assert(on_chain(ranges[i], ranges[i].start as int));
        assert(forall|j: int|
            0 <= j < ranges.len() ==> on_chain(ranges[j], #[trigger] vals2[j] as int));
        lemma_odometer_next_props(ranges, vals2, i - 1);
        lemma_prefix_rank_congruence(ranges, vals2, vals, i - 1);
        assert(odometer_next(ranges, vals, i) == odometer_next(ranges, vals2, i - 1));
        let nv = odometer_next(ranges, vals, i).1;
        assert(forall|j: int|
            i - 1 < j < ranges.len() ==> nv[j] == #[trigger] vals2[j]);
        assert(vals2[i] == ranges[i].start);
        assert forall|j: int| i < j < ranges.len() implies odometer_next(ranges, vals, i).1[j]
            == vals[j] by {
            assert(nv[j] == vals2[j]);
            assert(vals2[j] == vals[j]);
        }
        let rp = prefix_rank(ranges, vals, i - 1);
        if odometer_next(ranges, vals, i).0 {
            let tp = prefix_total(ranges, i - 1);
            assert(rp == tp - 1);
            assert(prefix_rank(ranges, vals, i) == rp * c + (c - 1));
            assert((tp - 1) * c + (c - 1) == tp * c - 1) by (nonlinear_arith);
            assert(nv[i] == ranges[i].start);
        } else {
            assert(prefix_rank(ranges, nv, i - 1) == rp + 1);
            assert(nv[i] == vals2[i]);
            assert(pos_of(ranges[i], ranges[i].start as int) == 0);
            assert(prefix_rank(ranges, nv, i) == (rp + 1) * c);
            assert(prefix_rank(ranges, vals, i) == rp * c + (c - 1));
            assert((rp + 1) * c == rp * c + c) by (nonlinear_arith);
        }
    }
}

/// What one advance of the odometer does over the whole vector: the result
/// is a valid tuple; an advance raises the rank by exactly one; exhaustion
/// happens exactly after the tuple of rank `grid_size - 1` and leaves the
/// vector at the initial one.
pub proof fn lemma_odometer_step_props(ranges: Seq<Range>, vals: Seq<i64>)
    requires
        ranges_wf(ranges),
        valid_tuple(ranges, vals),
    ensures
        valid_tuple(ranges, odometer_step(ranges, vals).1),
        odometer_step(ranges, vals).0 ==> tuple_rank(ranges, vals) == grid_size(ranges) - 1
            && odometer_step(ranges, vals).1 == start_tuple(ranges),
        !odometer_step(ranges, vals).0 ==> tuple_rank(ranges, odometer_step(ranges, vals).1)
            == tuple_rank(ranges, vals) + 1,
{
    lemma_odometer_next_props(ranges, vals, ranges.len() - 1);
    if odometer_step(ranges, vals).0 {
        assert(odometer_step(ranges, vals).1 =~= start_tuple(ranges));
    }
}

/// Equal ranks force equal digits on dimensions `0 ..= i`.
proof fn lemma_rank_digits(ranges: Seq<Range>, v1: Seq<i64>, v2: Seq<i64>, i: int)
    requires
        ranges_wf(ranges),
        i < ranges.len(),
        forall|j: int| 0 <= j < ranges.len() ==> on_chain(ranges[j], #[trigger] v1[j] as int),
        forall|j: int| 0 <= j < ranges.len() ==> on_chain(ranges[j], #[trigger] v2[j] as int),
        prefix_rank(ranges, v1, i) == prefix_rank(ranges, v2, i),
    ensures
        forall|j: int| 0 <= j <= i ==> v1[j] == v2[j],
    decreases i + 1,
{
    if i >= 0 {
        lemma_prefix_rank_bounds(ranges, v1, i - 1);
        lemma_prefix_rank_bounds(ranges, v2, i - 1);
        lemma_pos_bounds(ranges[i], v1[i] as int);
        lemma_pos_bounds(ranges[i], v2[i] as int);
        let x = prefix_rank(ranges, v1, i);
        let c = count(ranges[i]) as int;
        lemma_fundamental_div_mod_converse(
            x,
            c,
            prefix_rank(ranges, v1, i - 1),
            pos_of(ranges[i], v1[i] as int),
        );
        lemma_fundamental_div_mod_converse(
            x,
            c,
            prefix_rank(ranges, v2, i - 1),
            pos_of(ranges[i], v2[i] as int),
        );
        lemma_pos_injective(ranges[i], v1[i] as int, v2[i] as int);
        lemma_on_chain_bounds(ranges[i], v1[i] as int);
        lemma_on_chain_bounds(ranges[i], v2[i] as int);
        assert(v1[i] == v2[i]);
        lemma_rank_digits(ranges, v1, v2, i - 1);
    }
}

/// The rank determines the tuple: the traversal never visits a tuple twice.
pub proof fn lemma_rank_injective(ranges: Seq<Range>, v1: Seq<i64>, v2: Seq<i64>)
    requires
        ranges_wf(ranges),
        valid_tuple(ranges, v1),
        valid_tuple(ranges, v2),
        tuple_rank(ranges, v1) == tuple_rank(ranges, v2),
    ensures
        v1 == v2,
{
    lemma_rank_digits(ranges, v1, v2, ranges.len() - 1);
    assert(v1 =~= v2);
}

/// The tuple the traversal visits `k` advances after the initial vector.
pub open spec fn nth_tuple(ranges: Seq<Range>, k: nat) -> Seq<i64>
    decreases k,
{
    if k == 0 {
        start_tuple(ranges)
    } else {
        odometer_step(ranges, nth_tuple(ranges, (k - 1) as nat)).1
    }
}

/// A tuple of all starts has rank zero over dimensions `0 ..= i`.
proof fn lemma_prefix_rank_zero(ranges: Seq<Range>, vals: Seq<i64>, i: int)
    requires
        ranges_wf(ranges),
        i < ranges.len(),
        forall|j: int| 0 <= j < ranges.len() ==> vals[j] == (#[trigger] ranges[j]).start,
    ensures
        prefix_rank(ranges, vals, i) == 0,
    decreases i + 1,
{
    if i >= 0 {
        lemma_prefix_rank_zero(ranges, vals, i - 1);
        assert(pos_of(ranges[i], vals[i] as int) == 0);
        assert(prefix_rank(ranges, vals, i - 1) * count(ranges[i]) == 0) by (nonlinear_arith)
            requires
                prefix_rank(ranges, vals, i - 1) == 0,
        ;
    }
}

/// The initial vector is a valid tuple of rank zero.
pub proof fn lemma_start_tuple(ranges: Seq<Range>)
    requires
        ranges_wf(ranges),
    ensures
        valid_tuple(ranges, start_tuple(ranges)),
        tuple_rank(ranges, start_tuple(ranges)) == 0,
{
    assert forall|j: int| 0 <= j < ranges.len() implies on_chain(
        ranges[j],
        #[trigger] start_tuple(ranges)[j] as int,
    ) by {
        lemma_on_chain_bounds(ranges[j], ranges[j].start as int);
    }
    lemma_prefix_rank_zero(ranges, start_tuple(ranges), ranges.len() - 1);
}

/// Odometer totality, first half: the tuple visited after `k` advances is
/// valid and has rank `k`, and the traversal reports exhaustion exactly
/// when leaving the tuple of the highest rank.
pub proof fn lemma_odometer_totality(ranges: Seq<Range>, k: nat)
    requires
        ranges_wf(ranges),
        k < grid_size(ranges),
    ensures
        valid_tuple(ranges, nth_tuple(ranges, k)),
        tuple_rank(ranges, nth_tuple(ranges, k)) == k,
        odometer_step(ranges, nth_tuple(ranges, k)).0 <==> k == grid_size(ranges) - 1,
    decreases k,
{
    if k == 0 {
        lemma_start_tuple(ranges);
    } else {
        lemma_odometer_totality(ranges, (k - 1) as nat);
        lemma_odometer_step_props(ranges, nth_tuple(ranges, (k - 1) as nat));
    }
    let t = nth_tuple(ranges, k);
    lemma_odometer_step_props(ranges, t);
    if !odometer_step(ranges, t).0 {
        lemma_prefix_rank_bounds(ranges, odometer_step(ranges, t).1, ranges.len() - 1);
    }
}

/// Odometer totality, second half: every valid tuple is visited, namely
/// after exactly `tuple_rank` advances.
pub proof fn lemma_odometer_visits_all(ranges: Seq<Range>, t: Seq<i64>)
    requires
        ranges_wf(ranges),
        valid_tuple(ranges, t),
    ensures
        0 <= tuple_rank(ranges, t) < grid_size(ranges),
        nth_tuple(ranges, tuple_rank(ranges, t) as nat) == t,
{
    lemma_prefix_rank_bounds(ranges, t, ranges.len() - 1);
    let k = tuple_rank(ranges, t) as nat;
    lemma_odometer_totality(ranges, k);
    lemma_rank_injective(ranges, nth_tuple(ranges, k), t);
}

/// When the odometer reports exhaustion over dimensions `0 ..= i`, none of
/// those dimensions could advance.
proof fn lemma_odometer_next_exhausted(ranges: Seq<Range>, vals: Seq<i64>, i: int)
    requires
        ranges_wf(ranges),
        vals.len() == ranges.len(),
        -1 <= i < ranges.len(),
        odometer_next(ranges, vals, i).0,
    ensures
        forall|j: int| 0 <= j <= i ==> !can_advance(ranges[j], #[trigger] vals[j] as int),
    decreases i + 1,
{
    if i >= 0 {
        let vals2 = vals.update(i, ranges[i].start);
        lemma_odometer_next_exhausted(ranges, vals2, i - 1);
        assert forall|j: int| 0 <= j <= i implies !can_advance(
            ranges[j],
            #[trigger] vals[j] as int,
        ) by {
            if j < i {
                assert(vals2[j] == vals[j]);
            }
        }
    }
}

/// The traversal is exhausted exactly when every dimension stands at the
/// last value of its chain; together with `lemma_last_value_is_end` this
/// pins the last visited value of each dimension to its `end`.
pub proof fn lemma_exhaustion_at_chain_ends(ranges: Seq<Range>, t: Seq<i64>)
    requires
        ranges_wf(ranges),
        valid_tuple(ranges, t),
        odometer_step(ranges, t).0,
    ensures
        forall|d: int| 0 <= d < ranges.len() ==> !can_advance(ranges[d], #[trigger] t[d] as int),
{
    lemma_odometer_next_exhausted(ranges, t, ranges.len() - 1);
}

/// Along the chain, every value is `start` plus a multiple of `step`, or
/// the snapped final value `end`.
proof fn lemma_chain_mod(r: Range, w: int, v: int)
    requires
        r.wf(),
        w <= r.end,
        (w - r.start) % (r.step as int) == 0 || w == r.end,
        reaches(r, w, v),
    ensures
        (v - r.start) % (r.step as int) == 0 || v == r.end,
    decreases r.end - w,
{
    if w != v {
        let nxt = next_value(r, w);
        if nxt == r.end {
            lemma_chain_mod(r, nxt, v);
        } else {
            assert(nxt == w + r.step);
            assert((w + r.step - r.start) % (r.step as int) == (w - r.start) % (r.step as int)) by {
                lemma_mod_multiples_vanish(1, w - r.start, r.step as int);
            }
            lemma_chain_mod(r, nxt, v);
        }
    }
}

/// The last value this dimension's traversal visits is exactly `end`,
/// provided the dimension's span is a whole number of steps or the final
/// remainder is more than half a step (so the snap reaches `end`).
pub proof fn lemma_last_value_is_end(r: Range, v: int)
    requires
        r.wf(),
        on_chain(r, v),
        !can_advance(r, v),
        (r.end - r.start) % (r.step as int) == 0 || 2 * ((r.end - r.start) % (r.step as int)) > r.step,
    ensures
        v == r.end,
{
    lemma_on_chain_bounds(r, v);
    assert((r.start - r.start) % (r.step as int) == 0) by {
        vstd::arithmetic::div_mod::lemma_small_mod(0nat, r.step as nat);
    }
    lemma_chain_mod(r, r.start as int, v);
    if v != r.end {
        assert((v - r.start) % (r.step as int) == 0);
        let q = (v - r.start) / (r.step as int);
        lemma_fundamental_div_mod(v - r.start, r.step as int);
        assert(v - r.start == (r.step as int) * q);
        assert(((r.step as int) * q + (r.end - v)) % (r.step as int) == (r.end - v) % (r.step as int)) by {
            lemma_mod_multiples_vanish(q, r.end - v, r.step as int);
        }
        assert(r.end - r.start == (r.step as int) * q + (r.end - v));
        assert(0 <= r.end - v <= r.eps());
        assert(2 * (r.step / 2) <= r.step);
        assert(r.end - v < r.step);
        assert((r.end - v) % (r.step as int) == r.end - v) by {
            vstd::arithmetic::div_mod::lemma_small_mod((r.end - v) as nat, r.step as nat);
        }
        assert((r.end - r.start) % (r.step as int) == r.end - v);
        assert(false);
    }
}

} // verus!
