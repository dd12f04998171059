//! Sums, means, deviations and extremes of sequences of numbers, in the order they are given.

use vstd::prelude::*;
use crate::binary64::Binary64;
use crate::exact;
use crate::exact::{exact, size};

verus! {

/// The numbers added one after the other to `start`.
pub open spec fn sum_from(start: Binary64, numbers: Seq<Binary64>) -> Binary64
    decreases numbers.len(),
{
    if numbers.len() == 0 {
        start
    } else {
        sum_from(start, numbers.drop_last()).plus(numbers.last())
    }
}

/// The numbers added up; negative zero for none, which adds to nothing.
pub open spec fn total_of(numbers: Seq<Binary64>) -> Binary64 {
    sum_from(Binary64::negative_zero(), numbers)
}

pub open spec fn mean_of(numbers: Seq<Binary64>) -> Binary64 {
    total_of(numbers).over(Binary64::count_spec(numbers.len() as u64))
}

/// The squared distances of the numbers from `center`.
pub open spec fn squares_of(numbers: Seq<Binary64>, center: Binary64) -> Seq<Binary64> {
    Seq::new(
        numbers.len(),
        |i: int| numbers[i].minus(center).times(numbers[i].minus(center)),
    )
}

/// The sample standard deviation; zero for fewer than two numbers.
pub open spec fn sample_deviation_of(numbers: Seq<Binary64>) -> Binary64 {
    if numbers.len() < 2 {
        Binary64::zero()
    } else {
        total_of(squares_of(numbers, mean_of(numbers))).over(
            Binary64::count_spec((numbers.len() - 1) as u64),
        ).sqrt()
    }
}

/// The smallest number, positive infinity for none.
pub open spec fn lowest_of(numbers: Seq<Binary64>) -> Binary64
    decreases numbers.len(),
{
    if numbers.len() == 0 {
        Binary64::infinity()
    } else {
        lowest_of(numbers.drop_last()).min(numbers.last())
    }
}

/// The largest number, negative infinity for none.
pub open spec fn highest_of(numbers: Seq<Binary64>) -> Binary64
    decreases numbers.len(),
{
    if numbers.len() == 0 {
        Binary64::negative_infinity()
    } else {
        highest_of(numbers.drop_last()).max(numbers.last())
    }
}

pub fn sum_onto(start: Binary64, numbers: &Vec<Binary64>) -> (r: Binary64)
    ensures
        r == sum_from(start, numbers@),
{
    let mut sum: Binary64 = start;
    let mut i: usize = 0;
    while i < numbers.len()
        invariant
            i <= numbers@.len(),
            sum == sum_from(start, numbers@.take(i as int)),
        decreases numbers@.len() - i,
    {
        sum = sum.plus(numbers[i]);
        i = i + 1;
        assert(numbers@.take(i as int).drop_last() =~= numbers@.take(i - 1));
    }
    assert(numbers@.take(i as int) =~= numbers@);
    sum
}

pub fn total(numbers: &Vec<Binary64>) -> (r: Binary64)
    ensures
        r == total_of(numbers@),
{
    sum_onto(Binary64::negative_zero(), numbers)
}

pub fn fmean(numbers: &Vec<Binary64>) -> (r: Binary64)
    ensures
        r == mean_of(numbers@),
{
    total(numbers).over(Binary64::count(numbers.len() as u64))
}

pub fn squares(numbers: &Vec<Binary64>, center: Binary64) -> (r: Vec<Binary64>)
    ensures
        r@ == squares_of(numbers@, center),
{
    let mut r: Vec<Binary64> = Vec::new();
    let mut i: usize = 0;
    while i < numbers.len()
        invariant
            i <= numbers@.len(),
            r@ == squares_of(numbers@.take(i as int), center),
        decreases numbers@.len() - i,
    {
        let d: Binary64 = numbers[i].minus(center);
        r.push(d.times(d));
        i = i + 1;
        assert(r@ =~= squares_of(numbers@.take(i as int), center));
    }
    assert(numbers@.take(i as int) =~= numbers@);
    r
}

pub fn fstd_s(numbers: &Vec<Binary64>) -> (r: Binary64)
    ensures
        r == sample_deviation_of(numbers@),
{
    if numbers.len() < 2 {
        return Binary64::zero();
    }
    let m: Binary64 = fmean(numbers);
    let deviations: Vec<Binary64> = squares(numbers, m);
    total(&deviations).over(Binary64::count((numbers.len() - 1) as u64)).sqrt()
}

pub fn lowest(numbers: &Vec<Binary64>) -> (r: Binary64)
    ensures
        r == lowest_of(numbers@),
{
    let mut low: Binary64 = Binary64::infinity();
    let mut i: usize = 0;
    while i < numbers.len()
        invariant
            i <= numbers@.len(),
            low == lowest_of(numbers@.take(i as int)),
        decreases numbers@.len() - i,
    {
        low = low.min(numbers[i]);
        i = i + 1;
        assert(numbers@.take(i as int).drop_last() =~= numbers@.take(i - 1));
    }
    assert(numbers@.take(i as int) =~= numbers@);
    low
}

pub fn highest(numbers: &Vec<Binary64>) -> (r: Binary64)
    ensures
        r == highest_of(numbers@),
{
    let mut high: Binary64 = Binary64::negative_infinity();
    let mut i: usize = 0;
    while i < numbers.len()
        invariant
            i <= numbers@.len(),
            high == highest_of(numbers@.take(i as int)),
        decreases numbers@.len() - i,
    {
        high = high.max(numbers[i]);
        i = i + 1;
        assert(numbers@.take(i as int).drop_last() =~= numbers@.take(i - 1));
    }
    assert(numbers@.take(i as int) =~= numbers@);
    high
}

/// Whether every number is finite.
pub open spec fn all_finite(numbers: Seq<Binary64>) -> bool {
    forall|i: int| 0 <= i < numbers.len() ==> (#[trigger] numbers[i]).is_finite()
}

/// The smallest of some finite numbers is one of them, and none is below it.
pub proof fn law_lowest(numbers: Seq<Binary64>) -> (k: int)
    requires
        numbers.len() > 0,
        all_finite(numbers),
    ensures
        0 <= k < numbers.len(),
        lowest_of(numbers) == numbers[k],
        forall|i: int| 0 <= i < numbers.len() ==> exact(numbers[k]) <= exact(#[trigger] numbers[i]),
    decreases numbers.len(),
{
    let last = numbers.len() - 1;
    let front = numbers.drop_last();
    assert(numbers[last].is_finite());
    if last == 0 {
        reveal_with_fuel(lowest_of, 2);
        last
    } else {
        assert(all_finite(front)) by {
            assert forall|i: int| 0 <= i < front.len() implies (#[trigger] front[i]).is_finite() by {
                assert(numbers[i].is_finite());
            }
        }
        let j = law_lowest(front);
        exact::law_max(front[j], numbers[last]);
        let k = if lowest_of(numbers) == numbers[j] {
            j
        } else {
            last
        };
        assert forall|i: int| 0 <= i < numbers.len() implies exact(numbers[k]) <= exact(
            #[trigger] numbers[i],
        ) by {
            if i < last {
                assert(front[i] == numbers[i]);
            }
        }
        k
    }
}

/// The largest of some finite numbers is one of them, and none is above it.
pub proof fn law_highest(numbers: Seq<Binary64>) -> (k: int)
    requires
        numbers.len() > 0,
        all_finite(numbers),
    ensures
        0 <= k < numbers.len(),
        highest_of(numbers) == numbers[k],
        forall|i: int| 0 <= i < numbers.len() ==> exact(#[trigger] numbers[i]) <= exact(numbers[k]),
    decreases numbers.len(),
{
    let last = numbers.len() - 1;
    let front = numbers.drop_last();
    assert(numbers[last].is_finite());
    if last == 0 {
        reveal_with_fuel(highest_of, 2);
        last
    } else {
        assert(all_finite(front)) by {
            assert forall|i: int| 0 <= i < front.len() implies (#[trigger] front[i]).is_finite() by {
                assert(numbers[i].is_finite());
            }
        }
        let j = law_highest(front);
        exact::law_max(front[j], numbers[last]);
        let k = if highest_of(numbers) == numbers[j] {
            j
        } else {
            last
        };
        assert forall|i: int| 0 <= i < numbers.len() implies exact(#[trigger] numbers[i]) <= exact(
            numbers[k],
        ) by {
            if i < last {
                assert(front[i] == numbers[i]);
            }
        }
        k
    }
}

/// Some real values added up.
pub open spec fn real_sum(values: Seq<real>) -> real
    decreases values.len(),
{
    if values.len() == 0 {
        0real
    } else {
        real_sum(values.drop_last()) + values.last()
    }
}

/// The exact values of some numbers.
pub open spec fn exacts(numbers: Seq<Binary64>) -> Seq<real> {
    Seq::new(numbers.len(), |i: int| exact(numbers[i]))
}

/// The sizes of some numbers.
pub open spec fn sizes(numbers: Seq<Binary64>) -> Seq<real> {
    Seq::new(numbers.len(), |i: int| size(exact(numbers[i])))
}

/// A sum of up to thirty finite numbers, from either zero, is within two roundings for each of the
/// exact sum, on a scale that their sizes added up do not exceed.
pub proof fn law_sum(start: Binary64, numbers: Seq<Binary64>, span: real)
    requires
        start.is_finite(),
        exact(start) == 0real,
        numbers.len() <= 30,
        all_finite(numbers),
        span >= 1real,
        real_sum(sizes(numbers)) <= span,
        span * 2real <= exact::big(),
    ensures
        exact::within(
            sum_from(start, numbers),
            real_sum(exacts(numbers)),
            span,
            2real * (numbers.len() as int as real),
        ),
        size(real_sum(exacts(numbers))) <= real_sum(sizes(numbers)),
    decreases numbers.len(),
{
    if numbers.len() == 0 {
        exact::lemma_within_itself(start, span);
    } else {
        let front = numbers.drop_last();
        let last = numbers.last();
        assert(numbers[numbers.len() - 1].is_finite());
        assert forall|i: int| 0 <= i < front.len() implies (#[trigger] front[i]).is_finite() by {
            assert(numbers[i].is_finite());
        }
        assert(exacts(numbers).drop_last() =~= exacts(front));
        assert(sizes(numbers).drop_last() =~= sizes(front));
        law_sum(start, front, span);
        let n = front.len() as int as real;
        exact::lemma_within_plus(
            sum_from(start, front),
            real_sum(exacts(front)),
            span,
            2real * n,
            last,
        );
    }
}

/// The mean of up to thirty finite numbers is the exact mean up to a few roundings.
pub proof fn law_mean(numbers: Seq<Binary64>, span: real)
    requires
        0 < numbers.len() <= 30,
        all_finite(numbers),
        span >= numbers.len() as int as real,
        real_sum(sizes(numbers)) <= span,
        span * 2real <= exact::big(),
    ensures
        exact::within(
            mean_of(numbers),
            real_sum(exacts(numbers)) / (numbers.len() as int as real),
            span / (numbers.len() as int as real),
            62real,
        ),
{
    exact::law_zero_and_one();
    exact::law_signs_are_exact(Binary64::zero());
    let zero = Binary64::negative_zero();
    exact::lemma_value(zero);
    law_sum(zero, numbers, span);
    let n = numbers.len() as int as real;
    let sum = real_sum(exacts(numbers));
    exact::law_counts_are_exact(numbers.len() as u64);
    let part = span / n;
    assert(part * n == span && part >= 1real) by (nonlinear_arith)
        requires
            part == span / n,
            span >= n,
            n >= 1real,
    ;
    exact::lemma_within_over(
        total_of(numbers),
        sum,
        span,
        2real * n,
        Binary64::count(numbers.len() as u64),
        part,
    );
    exact::lemma_within_more(mean_of(numbers), sum / n, part, 2real * n + 2real, part, 62real);
}

/// Values that are each close to others add up to something close.
pub proof fn lemma_sums_are_close(a: Seq<real>, b: Seq<real>, d: real)
    requires
        a.len() == b.len(),
        d >= 0real,
        forall|i: int| 0 <= i < a.len() ==> size(#[trigger] a[i] - b[i]) <= d,
    ensures
        size(real_sum(a) - real_sum(b)) <= d * (a.len() as int as real),
    decreases a.len(),
{
    if a.len() > 0 {
        let (f, g) = (a.drop_last(), b.drop_last());
        assert forall|i: int| 0 <= i < f.len() implies size(#[trigger] f[i] - g[i]) <= d by {
            assert(size(a[i] - b[i]) <= d);
        }
        lemma_sums_are_close(f, g, d);
        let k = a.len() - 1;
        assert(size(a[k] - b[k]) <= d);
        let n = f.len() as int as real;
        assert(d * (n + 1real) == d * n + d) by (nonlinear_arith);
    } else {
        assert(d * 0real == 0real) by (nonlinear_arith);
    }
}

/// Values that are each at most a bound add up to at most so many times it.
pub proof fn lemma_sum_is_bounded(a: Seq<real>, d: real)
    requires
        d >= 0real,
        forall|i: int| 0 <= i < a.len() ==> #[trigger] a[i] <= d,
    ensures
        real_sum(a) <= d * (a.len() as int as real),
    decreases a.len(),
{
    if a.len() > 0 {
        let f = a.drop_last();
        assert forall|i: int| 0 <= i < f.len() implies #[trigger] f[i] <= d by {
            assert(a[i] <= d);
        }
        lemma_sum_is_bounded(f, d);
        let k = a.len() - 1;
        assert(a[k] <= d);
        let n = f.len() as int as real;
        assert(d * (n + 1real) == d * n + d) by (nonlinear_arith);
    } else {
        assert(d * 0real == 0real) by (nonlinear_arith);
    }
}

/// The squares of the distances of some numbers from a value.
pub open spec fn real_squares(numbers: Seq<Binary64>, center: real) -> Seq<real> {
    Seq::new(
        numbers.len(),
        |i: int| (exact(numbers[i]) - center) * (exact(numbers[i]) - center),
    )
}

/// Whether every number is finite and no larger than a bound of at least one, which is at most a
/// quadrillion.
pub open spec fn bounded_by(numbers: Seq<Binary64>, bound: real) -> bool {
    &&& 1real <= bound <= 1_000_000_000_000_000real
    &&& forall|i: int|
        0 <= i < numbers.len() ==> (#[trigger] numbers[i]).is_finite() && size(exact(numbers[i]))
            <= bound
}

/// The square of one distance.
proof fn lemma_square(x: Binary64, center: Binary64, mean: real, bound: real)
    requires
        x.is_finite(),
        center.is_finite(),
        1real <= bound <= 1_000_000_000_000_000real,
        size(exact(x)) <= bound,
        size(mean) <= bound,
        size(exact(center) - mean) <= 62real * bound * exact::eps(),
    ensures
        ({
            let square = x.minus(center).times(x.minus(center));
            let want = (exact(x) - mean) * (exact(x) - mean);
            &&& square.is_finite()
            &&& 0real <= exact(square) <= 5real * (bound * bound)
            &&& size(exact(square) - want) <= 280real * (bound * bound) * exact::eps()
        }),
{
    exact::lemma_scale();
    exact::lemma_speck_is_tiny();
    exact::lemma_big_is_big();
    let (e, t) = (exact::eps(), exact::speck());
    assert(e == 1real / 9_007_199_254_740_992real);
    let (v, m) = (exact(x), exact(center));
    let be = bound * e;
    assert(62real * bound * e == 62real * be) by (nonlinear_arith)
        requires
            be == bound * e,
    ;
    assert(0real < be && be * 1_000_000_000_000real <= bound && t * 1_000_000_000_000real <= be)
        by (nonlinear_arith)
        requires
            be == bound * e,
            bound >= 1real,
            e == 1real / 9_007_199_254_740_992real,
            t <= 1real / 1_000_000_000_000_000_000_000_000_000_000_000_000_000real,
    ;
    exact::law_minus(x, center);
    let d = exact(x.minus(center));
    let g = size(v - m);
    assert(g * e <= 21real / 10real * be) by (nonlinear_arith)
        requires
            0real <= g <= 21real / 10real * bound,
            be == bound * e,
            e > 0real,
    ;
    let want = v - mean;
    assert(size(d - want) <= 65real * be);
    assert(size(d) <= 21real / 10real * bound);
    let bb = bound * bound;
    let dd = d * d;
    let ww = want * want;
    assert(size(dd - ww) <= 273real * (bb * e)) by (nonlinear_arith)
        requires
            dd == d * d,
            ww == want * want,
            -(65real * be) <= d - want <= 65real * be,
            -(21real / 10real * bound) <= d <= 21real / 10real * bound,
            -(2real * bound) <= want <= 2real * bound,
            be == bound * e,
            bb == bound * bound,
            be > 0real,
            bound >= 1real,
            size(dd - ww) == (if dd - ww < 0real { -(dd - ww) } else { dd - ww }),
    ;
    assert(0real <= dd <= 441real / 100real * bb) by (nonlinear_arith)
        requires
            dd == d * d,
            bb == bound * bound,
            -(21real / 10real * bound) <= d <= 21real / 10real * bound,
            bound >= 1real,
    ;
    assert(1real <= bb <= 1_000_000_000_000_000_000_000_000_000_000real) by (nonlinear_arith)
        requires
            bb == bound * bound,
            1real <= bound <= 1_000_000_000_000_000real,
    ;
    exact::law_times(x.minus(center), x.minus(center));
    let square = x.minus(center).times(x.minus(center));
    exact::lemma_not_negative(square, dd);
    let s = exact(square);
    let bbe = bb * e;
    assert(dd * e <= 441real / 100real * bbe) by (nonlinear_arith)
        requires
            0real <= dd <= 441real / 100real * bb,
            bbe == bb * e,
            e > 0real,
    ;
    assert(t <= bbe / 1_000_000real && 0real < bbe <= bb / 1_000_000real) by (nonlinear_arith)
        requires
            bbe == bb * e,
            bb >= 1real,
            e == 1real / 9_007_199_254_740_992real,
            t <= 1real / 1_000_000_000_000_000_000_000_000_000_000_000_000_000real,
    ;
    assert(size(s - dd) <= 5real * bbe);
    assert(size(s - ww) <= 280real * bbe);
    assert(280real * bb * e == 280real * bbe) by (nonlinear_arith)
        requires
            bbe == bb * e,
    ;
}

/// Numbers that are not negative add up to one that is not.
proof fn lemma_sum_not_negative(start: Binary64, numbers: Seq<Binary64>, span: real)
    requires
        start.is_finite(),
        exact(start) == 0real,
        numbers.len() <= 30,
        all_finite(numbers),
        span >= 1real,
        real_sum(sizes(numbers)) <= span,
        span * 2real <= exact::big(),
        forall|i: int| 0 <= i < numbers.len() ==> exact(#[trigger] numbers[i]) >= 0real,
    ensures
        exact(sum_from(start, numbers)) >= 0real,
    decreases numbers.len(),
{
    if numbers.len() > 0 {
        let front = numbers.drop_last();
        let last = numbers.last();
        let k = numbers.len() - 1;
        assert(numbers[k].is_finite() && exact(numbers[k]) >= 0real);
        assert forall|i: int| 0 <= i < front.len() implies (#[trigger] front[i]).is_finite()
            && exact(front[i]) >= 0real by {
            assert(numbers[i].is_finite() && exact(numbers[i]) >= 0real);
        }
        assert(sizes(numbers).drop_last() =~= sizes(front));
        assert(sizes(numbers).last() == size(exact(last)));
        lemma_sum_not_negative(start, front, span);
        law_sum(start, front, span);
        let a = sum_from(start, front);
        exact::law_zero_and_one();
        exact::lemma_scale();
        law_sum(start, numbers, span);
        exact::law_plus_keeps_bounds(a, last, Binary64::zero());
        exact::law_order_is_exact(Binary64::zero(), a.plus(last));
    }
}

/// The mean square and the root of it.
proof fn lemma_mean_square(
    numbers: Seq<Binary64>,
    center: Binary64,
    mean: real,
    k: u64,
    bound: real,
)
    requires
        0 < numbers.len() <= 30,
        0 < k <= 30,
        numbers.len() <= 2 * k,
        bounded_by(numbers, bound),
        center.is_finite(),
        size(mean) <= bound,
        size(exact(center) - mean) <= 62real * bound * exact::eps(),
    ensures
        ({
            let root = total_of(squares_of(numbers, center)).over(Binary64::count(k)).sqrt();
            let want = real_sum(real_squares(numbers, mean)) / (k as int as real);
            &&& root.is_finite()
            &&& 0real <= exact(root) <= 6real * bound
            &&& size(exact(root) * exact(root) - want) * 1_000_000_000_000real <= bound * bound
        }),
{
    exact::lemma_scale();
    exact::lemma_speck_is_tiny();
    exact::lemma_big_is_big();
    exact::law_counts_are_exact(k);
    let (e, t) = (exact::eps(), exact::speck());
    assert(e == 1real / 9_007_199_254_740_992real);
    let squares = squares_of(numbers, center);
    let wants = real_squares(numbers, mean);
    let n = numbers.len() as int as real;
    let bb = bound * bound;
    assert(1real <= bb <= 1_000_000_000_000_000_000_000_000_000_000real) by (nonlinear_arith)
        requires
            bb == bound * bound,
            1real <= bound <= 1_000_000_000_000_000real,
    ;
    let d = 280real * bb * e;
    assert forall|i: int| 0 <= i < squares.len() implies (#[trigger] squares[i]).is_finite()
        && 0real <= exact(squares[i]) <= 5real * bb && size(exact(squares[i]) - wants[i]) <= d by {
        assert(numbers[i].is_finite());
        lemma_square(numbers[i], center, mean, bound);
    }
    let values = exacts(squares);
    let all = sizes(squares);
    assert forall|i: int| 0 <= i < values.len() implies size(#[trigger] values[i] - wants[i]) <= d
        by {
        assert(squares[i].is_finite());
    }
    assert forall|i: int| 0 <= i < all.len() implies #[trigger] all[i] <= 5real * bb by {
        assert(squares[i].is_finite());
    }
    assert(d >= 0real) by (nonlinear_arith)
        requires
            d == 280real * bb * e,
            bb >= 1real,
            e > 0real,
    ;
    lemma_sums_are_close(values, wants, d);
    lemma_sum_is_bounded(all, 5real * bb);
    let zero = Binary64::negative_zero();
    exact::lemma_value(zero);
    let span = 5real * bb * n;
    assert(1real <= span <= 150real * bb) by (nonlinear_arith)
        requires
            span == 5real * bb * n,
            bb >= 1real,
            1real <= n <= 30real,
    ;
    law_sum(zero, squares, span);
    lemma_sum_not_negative(zero, squares, span);
    let total = total_of(squares);
    let s = exact(total);
    let sum = real_sum(wants);
    let kk = k as int as real;
    let bbe = bb * e;
    assert(2real * n * span * e == 10real * n * n * bbe) by (nonlinear_arith)
        requires
            span == 5real * bb * n,
            bbe == bb * e,
    ;
    assert(size(s - sum) <= (10real * n * n + 280real * n) * bbe) by (nonlinear_arith)
        requires
            size(s - sum) <= 10real * n * n * bbe + d * n,
            d == 280real * bb * e,
            bbe == bb * e,
    ;
    let q = s / kk;
    let want = sum / kk;
    assert(q * kk == s && want * kk == sum) by (nonlinear_arith)
        requires
            q == s / kk,
            want == sum / kk,
            kk >= 1real,
    ;
    assert(s <= 6real * bb * n) by (nonlinear_arith)
        requires
            s <= span + 2real * n * span * e,
            span == 5real * bb * n,
            1real <= n <= 30real,
            bb >= 1real,
            e == 1real / 9_007_199_254_740_992real,
    ;
    assert(0real <= q <= 12real * bb) by (nonlinear_arith)
        requires
            q * kk == s,
            0real <= s <= 6real * bb * n,
            n <= 2real * kk,
            kk >= 1real,
            bb >= 1real,
    ;
    assert(bbe > 0real) by (nonlinear_arith)
        requires
            bbe == bb * e,
            bb >= 1real,
            e > 0real,
    ;
    assert(size(q - want) <= 1_160real * bbe) by (nonlinear_arith)
        requires
            q * kk == s,
            want * kk == sum,
            size(s - sum) <= (10real * n * n + 280real * n) * bbe,
            size(s - sum) == (if s - sum < 0real { -(s - sum) } else { s - sum }),
            size(q - want) == (if q - want < 0real { -(q - want) } else { q - want }),
            n <= 2real * kk,
            1real <= n <= 30real,
            kk >= 1real,
            bbe > 0real,
    ;
    exact::law_over(total, Binary64::count(k));
    let v = total.over(Binary64::count(k));
    exact::lemma_not_negative(v, q);
    let x = exact(v);
    assert(q * e <= 12real * bbe) by (nonlinear_arith)
        requires
            0real <= q <= 12real * bb,
            bbe == bb * e,
            e > 0real,
    ;
    assert(t <= bbe) by (nonlinear_arith)
        requires
            bbe == bb * e,
            bb >= 1real,
            e == 1real / 9_007_199_254_740_992real,
            t <= 1real / 1_000_000_000_000_000_000_000_000_000_000_000_000_000real,
    ;
    assert(size(x - want) <= 1_180real * bbe);
    assert(bbe <= bb) by (nonlinear_arith)
        requires
            bbe == bb * e,
            bb >= 1real,
            e == 1real / 9_007_199_254_740_992real,
    ;
    assert(x <= 25real * bb);
    exact::law_sqrt(v);
    let root = exact(v.sqrt());
    let rr = root * root;
    assert(size(rr - want) <= size(rr - x) + size(x - want));
    let w = size(rr - want);
    assert(w * 1_000_000_000_000real <= bb) by (nonlinear_arith)
        requires
            w <= size(rr - x) + 1_180real * bbe,
            size(rr - x) * 1_000_000_000_000_000real <= x,
            x <= 25real * bb,
            bbe == bb * e,
            bb >= 1real,
            e == 1real / 9_007_199_254_740_992real,
    ;
    assert(root <= 6real * bound) by (nonlinear_arith)
        requires
            rr == root * root,
            root >= 0real,
            rr - x <= size(rr - x),
            size(rr - x) * 1_000_000_000_000_000real <= x,
            x <= 25real * bb,
            bb == bound * bound,
            bound >= 1real,
    ;
}

/// The exact mean of some numbers.
pub open spec fn real_mean(numbers: Seq<Binary64>) -> real {
    real_sum(exacts(numbers)) / (numbers.len() as int as real)
}

proof fn lemma_mean_is_close(numbers: Seq<Binary64>, bound: real)
    requires
        0 < numbers.len() <= 30,
        bounded_by(numbers, bound),
    ensures
        mean_of(numbers).is_finite(),
        size(real_mean(numbers)) <= bound,
        size(exact(mean_of(numbers)) - real_mean(numbers)) <= 62real * bound * exact::eps(),
{
    exact::lemma_scale();
    exact::lemma_big_is_big();
    let n = numbers.len() as int as real;
    let all = sizes(numbers);
    assert forall|i: int| 0 <= i < all.len() implies #[trigger] all[i] <= bound by {
        assert(numbers[i].is_finite());
    }
    assert forall|i: int| 0 <= i < numbers.len() implies (#[trigger] numbers[i]).is_finite() by {}
    lemma_sum_is_bounded(all, bound);
    let span = bound * n;
    assert(n <= span <= 30_000_000_000_000_000real) by (nonlinear_arith)
        requires
            span == bound * n,
            1real <= n <= 30real,
            1real <= bound <= 1_000_000_000_000_000real,
    ;
    law_mean(numbers, span);
    assert(span / n == bound) by (nonlinear_arith)
        requires
            span == bound * n,
            n >= 1real,
    ;
}

/// The mean of up to thirty numbers is the exact mean, up to a few roundings.
pub proof fn law_mean_is_mean(numbers: Seq<Binary64>, bound: real)
    requires
        0 < numbers.len() <= 30,
        bounded_by(numbers, bound),
    ensures
        mean_of(numbers).is_finite(),
        size(real_mean(numbers)) <= bound,
        size(exact(mean_of(numbers)) - real_mean(numbers)) * 100_000_000_000_000real <= bound,
{
    lemma_mean_is_close(numbers, bound);
    let e = exact::eps();
    let w = size(exact(mean_of(numbers)) - real_mean(numbers));
    assert(w * 100_000_000_000_000real <= bound) by (nonlinear_arith)
        requires
            w <= 62real * bound * e,
            bound >= 1real,
            e == 1real / 9_007_199_254_740_992real,
    ;
}

/// The square of the sample deviation of up to thirty numbers is the sum of the squares of their
/// distances from the mean, over one less than there are, up to rounding.
pub proof fn law_sample_deviation(numbers: Seq<Binary64>, bound: real)
    requires
        2 <= numbers.len() <= 30,
        bounded_by(numbers, bound),
    ensures
        ({
            let deviation = sample_deviation_of(numbers);
            let variance = real_sum(real_squares(numbers, real_mean(numbers))) / ((numbers.len()
                - 1) as real);
            &&& deviation.is_finite()
            &&& 0real <= exact(deviation) <= 6real * bound
            &&& size(exact(deviation) * exact(deviation) - variance) * 1_000_000_000_000real <= bound
                * bound
        }),
{
    lemma_mean_is_close(numbers, bound);
    lemma_mean_square(
        numbers,
        mean_of(numbers),
        real_mean(numbers),
        (numbers.len() - 1) as u64,
        bound,
    );
}

/// The square of the deviation of all of up to thirty numbers is the mean of the squares of their
/// distances from the mean, up to rounding.
pub proof fn law_deviation(numbers: Seq<Binary64>, bound: real)
    requires
        0 < numbers.len() <= 30,
        bounded_by(numbers, bound),
    ensures
        ({
            let deviation = total_of(squares_of(numbers, mean_of(numbers))).over(
                Binary64::count(numbers.len() as u64),
            ).sqrt();
            let variance = real_sum(real_squares(numbers, real_mean(numbers))) / (
            numbers.len() as int as real);
            &&& deviation.is_finite()
            &&& 0real <= exact(deviation) <= 6real * bound
            &&& size(exact(deviation) * exact(deviation) - variance) * 1_000_000_000_000real <= bound
                * bound
        }),
{
    lemma_mean_is_close(numbers, bound);
    lemma_mean_square(
        numbers,
        mean_of(numbers),
        real_mean(numbers),
        numbers.len() as u64,
        bound,
    );
}

} // verus!
