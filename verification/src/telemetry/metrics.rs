//! The distribution of measured times.
use vstd::prelude::*;

verus! {

/// The time between two moments, if both are known and in order.
pub open spec fn between(later: Option<u64>, earlier: Option<u64>) -> Option<u64> {
    match (later, earlier) {
        (Some(end), Some(start)) => if end >= start {
            Some((end - start) as u64)
        } else {
            None
        },
        _ => None,
    }
}

/// The time between two moments, if both are known and in order.
pub fn duration(later: Option<u64>, earlier: Option<u64>) -> (r: Option<u64>)
    ensures
        r == between(later, earlier),
{
    match (later, earlier) {
        (Some(end), Some(start)) => end.checked_sub(start),
        _ => None,
    }
}

/// The sum of two numbers, if both are known and it fits.
pub open spec fn added(a: Option<u64>, b: Option<u64>) -> Option<u64> {
    match (a, b) {
        (Some(x), Some(y)) => if x + y <= u64::MAX {
            Some((x + y) as u64)
        } else {
            None
        },
        _ => None,
    }
}

/// The sum of two numbers, if both are known and it fits.
pub fn checked_sum(a: Option<u64>, b: Option<u64>) -> (r: Option<u64>)
    ensures
        r == added(a, b),
{
    match (a, b) {
        (Some(x), Some(y)) => x.checked_add(y),
        _ => None,
    }
}

/// Where a value goes among rising ones: behind those that are not greater.
pub open spec fn place(rising: Seq<u64>, value: u64) -> int
    decreases rising.len(),
{
    if rising.len() == 0 {
        0
    } else if rising.last() <= value {
        rising.len() as int
    } else {
        place(rising.drop_last(), value)
    }
}

/// The values in rising order.
pub open spec fn rising(values: Seq<u64>) -> Seq<u64>
    decreases values.len(),
{
    if values.len() == 0 {
        Seq::empty()
    } else {
        let before = rising(values.drop_last());
        before.insert(place(before, values.last()), values.last())
    }
}

proof fn place_splits(rising: Seq<u64>, value: u64)
    ensures
        0 <= place(rising, value) <= rising.len(),
        forall|k: int| place(rising, value) <= k < rising.len() ==> #[trigger] rising[k] > value,
        place(rising, value) > 0 ==> rising[place(rising, value) - 1] <= value,
    decreases rising.len(),
{
    if rising.len() > 0 && rising.last() > value {
        let shorter = rising.drop_last();
        place_splits(shorter, value);
        assert forall|k: int| place(rising, value) <= k < rising.len() implies #[trigger] rising[k]
            > value by {
            if k < shorter.len() {
                assert(rising[k] == shorter[k]);
            }
        }
    }
}

/// Putting values in order keeps all of them, and the order is rising.
pub proof fn rising_is_sorted(values: Seq<u64>)
    ensures
        rising(values).len() == values.len(),
        rising(values).to_multiset() == values.to_multiset(),
        forall|i: int, j: int|
            0 <= i < j < rising(values).len() ==> #[trigger] rising(values)[i]
                <= #[trigger] rising(values)[j],
    decreases values.len(),
{
    if values.len() == 0 {
        assert(values =~= Seq::empty());
    } else {
        let shorter = values.drop_last();
        let before = rising(shorter);
        let value = values.last();
        rising_is_sorted(shorter);
        place_splits(before, value);
        let at = place(before, value);
        let now = rising(values);
        assert(now == before.insert(at, value));
        before.to_multiset_ensures();
        shorter.to_multiset_ensures();
        vstd::seq_lib::to_multiset_insert(before, at, value);
        assert(values =~= shorter.push(value));
        assert forall|i: int, j: int| 0 <= i < j < now.len() implies #[trigger] now[i]
            <= #[trigger] now[j] by {
            if j < at {
                assert(now[i] == before[i] && now[j] == before[j]);
            } else if j == at {
                assert(now[i] == before[i]);
                if i < at - 1 {
                    assert(before[i] <= before[at - 1]);
                }
            } else {
                assert(now[j] == before[j - 1]);
                if i < at {
                    assert(now[i] == before[i]);
                } else if i > at {
                    assert(now[i] == before[i - 1]);
                }
            }
        }
    }
}

/// The sum of values.
pub open spec fn total(values: Seq<u64>) -> nat
    decreases values.len(),
{
    if values.len() == 0 {
        0
    } else {
        total(values.drop_last()) + values.last() as nat
    }
}

/// The value below which, or at which, `percent` out of a hundred of the
/// values lie.
pub open spec fn percentile_of(sorted: Seq<u64>, percent: nat) -> Option<u64> {
    let rank = (percent * sorted.len() + 99) / 100;
    let at = if rank == 0 {
        0
    } else {
        rank - 1
    };
    if at < sorted.len() {
        Some(sorted[at as int])
    } else {
        None
    }
}

/// How measured times are distributed. Their mean is the sum by the count.
#[derive(Clone, Copy, Debug, PartialEq, Eq, Structural)]
pub struct MetricSummary {
    pub count: usize,
    pub min: Option<u64>,
    pub sum: u128,
    pub p50: Option<u64>,
    pub p95: Option<u64>,
    pub max: Option<u64>,
}

/// How the values are distributed.
pub open spec fn distribution(values: Seq<u64>) -> MetricSummary {
    let sorted = rising(values);
    MetricSummary {
        count: values.len() as usize,
        min: if sorted.len() == 0 {
            None
        } else {
            Some(sorted[0])
        },
        sum: total(values) as u128,
        p50: percentile_of(sorted, 50),
        p95: percentile_of(sorted, 95),
        max: if sorted.len() == 0 {
            None
        } else {
            Some(sorted.last())
        },
    }
}

/// The values in rising order.
pub fn sort(values: &Vec<u64>) -> (r: Vec<u64>)
    ensures
        r@ == rising(values@),
{
    let mut out: Vec<u64> = Vec::new();
    let mut i: usize = 0;
    assert(values@.take(0) =~= Seq::empty());
    while i < values.len()
        invariant
            i <= values@.len(),
            out@ == rising(values@.take(i as int)),
        decreases values@.len() - i,
    {
        let ghost before = out@;
        let value: u64 = values[i];
        assert(values@.take(i + 1).drop_last() =~= values@.take(i as int));
        assert(values@.take(i + 1).last() == value);
        let mut at: usize = out.len();
        assert(before.take(at as int) =~= before);
        while at > 0 && out[at - 1] > value
            invariant
                before == out@,
                at <= out@.len(),
                place(before, value) == place(before.take(at as int), value),
            decreases at,
        {
            assert(before.take(at as int).last() == before[at - 1]);
            assert(before.take(at as int).drop_last() =~= before.take(at - 1));
            at -= 1;
        }
        proof {
            if at > 0 {
                assert(before.take(at as int).last() == before[at - 1]);
            }
        }
        out.insert(at, value);
        i += 1;
    }
    assert(values@.take(i as int) =~= values@);
    out
}

/// The sum of the values.
pub fn sum(values: &Vec<u64>) -> (r: u128)
    ensures
        r == total(values@),
{
    let mut sum: u128 = 0;
    let mut i: usize = 0;
    assert(values@.take(0) =~= Seq::empty());
    while i < values.len()
        invariant
            i <= values@.len(),
            sum == total(values@.take(i as int)),
            sum <= i * u64::MAX,
        decreases values@.len() - i,
    {
        assert(values@.take(i + 1).drop_last() =~= values@.take(i as int));
        assert(values@.take(i + 1).last() == values@[i as int]);
        assert((i + 1) * u64::MAX == i * u64::MAX + u64::MAX) by (nonlinear_arith);
        assert((i + 1) * u64::MAX <= u128::MAX) by (nonlinear_arith)
            requires
                0 <= i < u64::MAX,
        ;
        sum = sum + values[i] as u128;
        i += 1;
    }
    assert(values@.take(i as int) =~= values@);
    sum
}

fn percentile(sorted: &Vec<u64>, percent: u64) -> (r: Option<u64>)
    requires
        percent <= 100,
    ensures
        r == percentile_of(sorted@, percent as nat),
{
    let n: usize = sorted.len();
    assert(percent * n <= 100 * u64::MAX) by (nonlinear_arith)
        requires
            0 <= percent <= 100,
            0 <= n <= u64::MAX,
    ;
    let rank: u128 = (percent as u128 * n as u128 + 99) / 100;
    let at: u128 = if rank == 0 {
        0
    } else {
        rank - 1
    };
    if at < n as u128 {
        Some(sorted[at as usize])
    } else {
        None
    }
}

/// How the values are distributed.
pub fn metric_summary(values: &Vec<u64>) -> (r: MetricSummary)
    ensures
        r == distribution(values@),
{
    let sorted = sort(values);
    proof {
        rising_is_sorted(values@);
    }
    let n: usize = sorted.len();
    MetricSummary {
        count: values.len(),
        min: if n == 0 {
            None
        } else {
            Some(sorted[0])
        },
        sum: sum(values),
        p50: percentile(&sorted, 50),
        p95: percentile(&sorted, 95),
        max: if n == 0 {
            None
        } else {
            Some(sorted[n - 1])
        },
    }
}

/// Of any values, the least is not above the middle, the middle not above the
/// high one, and that not above the greatest; and all are known.
pub proof fn distributions_are_in_order(values: Seq<u64>)
    requires
        values.len() > 0,
    ensures
        ({
            let d = distribution(values);
            &&& d.min is Some && d.p50 is Some && d.p95 is Some && d.max is Some
            &&& d.min->0 <= d.p50->0 <= d.p95->0 <= d.max->0
        }),
{
    rising_is_sorted(values);
    let sorted = rising(values);
    let n = sorted.len();
    assert(1 <= (50 * n + 99) / 100 <= (95 * n + 99) / 100 <= n);
}

proof fn total_without_one(values: Seq<u64>, at: int)
    requires
        0 <= at < values.len(),
    ensures
        total(values) == total(values.remove(at)) + values[at],
    decreases values.len(),
{
    if at == values.len() - 1 {
        assert(values.remove(at) =~= values.drop_last());
    } else {
        total_without_one(values.drop_last(), at);
        assert(values.remove(at).drop_last() =~= values.drop_last().remove(at));
        assert(values.remove(at).last() == values.last());
    }
}

proof fn total_ignores_order(a: Seq<u64>, b: Seq<u64>)
    requires
        a.to_multiset() == b.to_multiset(),
    ensures
        total(a) == total(b),
    decreases a.len(),
{
    a.to_multiset_ensures();
    b.to_multiset_ensures();
    if a.len() > 0 {
        let value = a.last();
        assert(a.contains(value));
        assert(b.to_multiset().count(value) > 0);
        let at = choose|k: int| 0 <= k < b.len() && b[k] == value;
        assert(a.remove(a.len() - 1) =~= a.drop_last());
        total_without_one(b, at);
        total_ignores_order(a.drop_last(), b.remove(at));
    }
}

/// The order of values does not matter for how they are distributed.
pub proof fn distributions_ignore_order(a: Seq<u64>, b: Seq<u64>)
    requires
        a.to_multiset() == b.to_multiset(),
    ensures
        distribution(a) == distribution(b),
{
    rising_is_sorted(a);
    rising_is_sorted(b);
    total_ignores_order(a, b);
    a.to_multiset_ensures();
    b.to_multiset_ensures();
    let leq = |x: u64, y: u64| x <= y;
    assert(vstd::relations::sorted_by(rising(a), leq));
    assert(vstd::relations::sorted_by(rising(b), leq));
    vstd::seq_lib::lemma_sorted_unique(rising(a), rising(b), leq);
}

/// A span of time is known exactly where both moments are and the later one is
/// not before the other; a sum where both parts are and it can be counted.
pub proof fn spans_need_both_moments(a: u64, b: u64, other: Option<u64>)
    ensures
        between(Some(a), Some(b)) is Some <==> b <= a,
        b <= a ==> between(Some(a), Some(b)) == Some((a - b) as u64),
        between(None, other) is None,
        between(other, None) is None,
        a + b <= u64::MAX ==> added(Some(a), Some(b)) == Some((a + b) as u64),
        a + b > u64::MAX ==> added(Some(a), Some(b)) is None,
        added(None, other) is None,
        added(other, None) is None,
{
}

proof fn rising_holds_the_same(values: Seq<u64>, value: u64)
    ensures
        rising(values).contains(value) <==> values.contains(value),
{
    rising_is_sorted(values);
    values.to_multiset_ensures();
    rising(values).to_multiset_ensures();
    assert(rising(values).contains(value) <==> rising(values).to_multiset().count(value) > 0);
    assert(values.contains(value) <==> values.to_multiset().count(value) > 0);
}

/// The least value is one of the values and none is less; the greatest is one of
/// them and none is greater.
pub proof fn the_extremes_are_among_the_values(values: Seq<u64>, k: int)
    requires
        0 <= k < values.len(),
    ensures
        ({
            let d = distribution(values);
            &&& d.min is Some && values.contains(d.min->0) && d.min->0 <= values[k]
            &&& d.max is Some && values.contains(d.max->0) && values[k] <= d.max->0
            &&& values.len() <= usize::MAX ==> d.count == values.len()
            &&& total(values) <= u128::MAX ==> d.sum == total(values)
        }),
{
    let sorted = rising(values);
    rising_is_sorted(values);
    rising_holds_the_same(values, sorted[0]);
    rising_holds_the_same(values, sorted.last());
    rising_holds_the_same(values, values[k]);
    let at = choose|at: int| 0 <= at < sorted.len() && sorted[at] == values[k];
    assert(values.contains(values[k]));
    assert(sorted[0] <= sorted[at]) by {
        if at > 0 {
            assert(sorted[0] <= sorted[at]);
        }
    }
    assert(sorted[at] <= sorted[sorted.len() - 1]) by {
        if at < sorted.len() - 1 {
            assert(sorted[at] <= sorted[sorted.len() - 1]);
        }
    }
    assert(sorted.contains(sorted[0]));
    assert(sorted.contains(sorted[sorted.len() - 1]));
}

/// A percentile is the first of the values in order at which so many of a
/// hundred are reached: half of them, and ninety-five of a hundred.
pub proof fn percentiles_are_the_first_to_reach_their_share(values: Seq<u64>)
    requires
        values.len() > 0,
    ensures
        exists|k: int|
            0 <= k < values.len() && distribution(values).p50 == Some(#[trigger] rising(values)[k])
                && 100 * k < 50 * values.len() <= 100 * (k + 1),
        exists|k: int|
            0 <= k < values.len() && distribution(values).p95 == Some(#[trigger] rising(values)[k])
                && 100 * k < 95 * values.len() <= 100 * (k + 1),
{
    rising_is_sorted(values);
    let n = values.len();
    let half = (50 * n + 99) / 100 - 1;
    let most = (95 * n + 99) / 100 - 1;
    assert(distribution(values).p50 == Some(rising(values)[half]));
    assert(distribution(values).p95 == Some(rising(values)[most]));
}

/// Without values nothing is known of them, and sums add up.
pub proof fn sums_add_up(a: Seq<u64>, b: Seq<u64>, value: u64)
    ensures
        total(a + b) == total(a) + total(b),
        total(seq![value]) == value,
        total(Seq::empty()) == 0,
        distribution(Seq::empty()) == (MetricSummary {
            count: 0,
            min: None,
            sum: 0,
            p50: None,
            p95: None,
            max: None,
        }),
    decreases b.len(),
{
    assert(seq![value].drop_last() =~= Seq::empty());
    assert(total(seq![value].drop_last()) == 0);
    if b.len() == 0 {
        assert(a + b =~= a);
    } else {
        sums_add_up(a, b.drop_last(), value);
        assert((a + b).drop_last() =~= a + b.drop_last());
    }
}

} // verus!
