//! Technical indicators over a window of candles, the newest last.
//!
//! Each returns `None` where the window is too short or a divisor vanishes.

use std::collections::VecDeque;
use vstd::prelude::*;
use crate::binary64::Binary64;
use crate::candle;
use crate::candle::{Candle, Field};
use crate::exact;
use crate::exact::{exact, modest, near, size};
use crate::statistics;

verus! {

/// Below this a divisor counts as vanished: ten to the minus 12.
#[verifier::allow_in_spec]
pub fn tiny() -> Binary64
    returns
        Binary64::ratio(false, 1, 1_000_000_000_000),
{
    Binary64::ratio(false, 1, 1_000_000_000_000)
}

/// The newest candle of a window that has one.
pub open spec fn newest_candle(window: Seq<Candle>) -> Candle {
    window[window.len() - 1]
}

/// Mean of high, low and close.
pub open spec fn typical_of(c: Candle) -> Binary64 {
    c.high.plus(c.low).plus(c.close).over(Binary64::count(3))
}

pub fn typical(c: &Candle) -> (r: Binary64)
    ensures
        r == typical_of(*c),
{
    c.high.plus(c.low).plus(c.close).over(Binary64::count(3))
}

/// The widest of a candle's range and its distances from the previous close.
pub open spec fn true_range_of(c: Candle, prev_close: Binary64) -> Binary64 {
    c.high.minus(c.low).max(c.high.minus(prev_close).abs()).max(c.low.minus(prev_close).abs())
}

pub fn true_range(c: &Candle, prev_close: Binary64) -> (r: Binary64)
    ensures
        r == true_range_of(*c, prev_close),
{
    c.high.minus(c.low).max(c.high.minus(prev_close).abs()).max(c.low.minus(prev_close).abs())
}

pub open spec fn true_range_at_of(window: Seq<Candle>, idx: int) -> Option<Binary64> {
    if idx >= window.len() {
        None
    } else if idx == 0 {
        Some(true_range_of(window[0], window[0].close))
    } else {
        Some(true_range_of(window[idx], window[idx - 1].close))
    }
}

pub fn true_range_at(window: &VecDeque<Candle>, idx: usize) -> (r: Option<Binary64>)
    ensures
        r == true_range_at_of(window@, idx as int),
{
    if idx >= window.len() {
        None
    } else if idx == 0 {
        Some(true_range(&window[0], window[0].close))
    } else {
        Some(true_range(&window[idx], window[idx - 1].close))
    }
}

/// The true ranges at `start` up to `end`, added up in that order.
pub open spec fn true_range_sum(window: Seq<Candle>, start: int, end: int) -> Binary64
    decreases end - start,
{
    if end <= start {
        Binary64::zero()
    } else {
        true_range_sum(window, start, end - 1).plus(true_range_at_of(window, end - 1)->0)
    }
}

pub open spec fn atr_pct_sma_of(window: Seq<Candle>, n: int, close: Binary64) -> Option<Binary64> {
    if window.len() < n || close.equals(Binary64::zero()) {
        None
    } else {
        Some(
            true_range_sum(window, window.len() - n, window.len() as int).over(
                Binary64::count(n as u64),
            ).over(close),
        )
    }
}

/// Mean true range of the last `n` candles as a share of `close`.
pub fn atr_pct_sma(window: &VecDeque<Candle>, n: usize, close: Binary64) -> (r: Option<Binary64>)
    ensures
        r == atr_pct_sma_of(window@, n as int, close),
{
    if window.len() < n || close.equals(Binary64::zero()) {
        return None;
    }
    let len: usize = window.len();
    let start: usize = len - n;
    let mut sum: Binary64 = Binary64::zero();
    let mut i: usize = start;
    while i < len
        invariant
            start <= i <= len,
            len == window@.len(),
            sum == true_range_sum(window@, start as int, i as int),
        decreases len - i,
    {
        match true_range_at(window, i) {
            Some(range) => {
                sum = sum.plus(range);
            },
            None => {
                return None;
            },
        }
        i = i + 1;
    }
    Some(sum.over(Binary64::count(n as u64)).over(close))
}

pub open spec fn range_atr14_of(window: Seq<Candle>, atr14: Option<Binary64>) -> Option<Binary64> {
    if window.len() == 0 {
        None
    } else {
        match atr14 {
            Some(atr) => if atr.equals(Binary64::zero()) {
                None
            } else {
                let c = newest_candle(window);
                Some(c.high.minus(c.low).over(atr))
            },
            None => None,
        }
    }
}

/// The newest candle's range in units of the average true range.
pub fn range_atr14(window: &VecDeque<Candle>, atr14: Option<Binary64>) -> (r: Option<Binary64>)
    ensures
        r == range_atr14_of(window@, atr14),
{
    if window.len() == 0 {
        return None;
    }
    let c: Candle = window[window.len() - 1];
    match atr14 {
        Some(atr) => if atr.equals(Binary64::zero()) {
            None
        } else {
            Some(c.high.minus(c.low).over(atr))
        },
        None => None,
    }
}

/// The standard score of the newest of some numbers, the newest first.
pub open spec fn score_of(numbers: Seq<Binary64>) -> Option<Binary64> {
    let s = statistics::sample_deviation_of(numbers);
    if s.equals(Binary64::zero()) {
        None
    } else {
        Some(numbers[0].minus(statistics::mean_of(numbers)).over(s))
    }
}

pub fn score(numbers: &Vec<Binary64>) -> (r: Option<Binary64>)
    ensures
        r == score_of(numbers@),
{
    let s: Binary64 = statistics::fstd_s(numbers);
    if s.equals(Binary64::zero()) {
        None
    } else {
        Some(numbers[0].minus(statistics::fmean(numbers)).over(s))
    }
}

/// One number of the last `n` candles, the newest first.
pub open spec fn recent_of(window: Seq<Candle>, n: int, field: Field) -> Seq<Binary64> {
    candle::column_of(candle::newest_of(window, n), field)
}

pub fn recent(window: &VecDeque<Candle>, n: usize, field: Field) -> (r: Vec<Binary64>)
    requires
        n <= window@.len(),
    ensures
        r@ == recent_of(window@, n as int, field),
{
    candle::column(&candle::newest(window, n), field)
}

pub open spec fn close_z_of(window: Seq<Candle>, n: int) -> Option<Binary64> {
    if window.len() < n {
        None
    } else {
        score_of(recent_of(window, n, Field::Close))
    }
}

/// Standard score of the newest close among the last `n`.
pub fn close_z(window: &VecDeque<Candle>, n: usize) -> (r: Option<Binary64>)
    ensures
        r == close_z_of(window@, n as int),
{
    if window.len() < n {
        return None;
    }
    score(&recent(window, n, Field::Close))
}

pub open spec fn vol_z_of(window: Seq<Candle>, n: int) -> Option<Binary64> {
    if window.len() < n {
        None
    } else {
        score_of(recent_of(window, n, Field::Volume))
    }
}

/// Standard score of the newest volume among the last `n`.
pub fn vol_z(window: &VecDeque<Candle>, n: usize) -> (r: Option<Binary64>)
    ensures
        r == vol_z_of(window@, n as int),
{
    if window.len() < n {
        return None;
    }
    score(&recent(window, n, Field::Volume))
}

pub open spec fn lowest_low(window: Seq<Candle>, n: int) -> Binary64 {
    statistics::lowest_of(recent_of(window, n, Field::Low))
}

pub open spec fn highest_high(window: Seq<Candle>, n: int) -> Binary64 {
    statistics::highest_of(recent_of(window, n, Field::High))
}

pub open spec fn stoch_k_of(window: Seq<Candle>, n: int, close: Binary64) -> Option<Binary64> {
    if window.len() < n {
        None
    } else {
        let range = highest_high(window, n).minus(lowest_low(window, n));
        if range.equals(Binary64::zero()) {
            None
        } else {
            Some(close.minus(lowest_low(window, n)).over(range).times(Binary64::count(100)))
        }
    }
}

/// Where `close` lies in the range of the last `n` candles, in percent.
pub fn stoch_k(window: &VecDeque<Candle>, n: usize, close: Binary64) -> (r: Option<Binary64>)
    ensures
        r == stoch_k_of(window@, n as int, close),
{
    if window.len() < n {
        return None;
    }
    let low: Binary64 = statistics::lowest(&recent(window, n, Field::Low));
    let high: Binary64 = statistics::highest(&recent(window, n, Field::High));
    let range: Binary64 = high.minus(low);
    if range.equals(Binary64::zero()) {
        None
    } else {
        Some(close.minus(low).over(range).times(Binary64::count(100)))
    }
}

pub open spec fn donch_low_of(window: Seq<Candle>, n: int, close: Binary64) -> Option<Binary64> {
    if window.len() < n || lowest_low(window, n).at_most(Binary64::zero()) {
        None
    } else {
        Some(close.over(lowest_low(window, n)).minus(Binary64::one()))
    }
}

/// How far `close` is above the lowest low of the last `n` candles.
pub fn donch_low(window: &VecDeque<Candle>, n: usize, close: Binary64) -> (r: Option<Binary64>)
    ensures
        r == donch_low_of(window@, n as int, close),
{
    if window.len() < n {
        return None;
    }
    let low: Binary64 = statistics::lowest(&recent(window, n, Field::Low));
    if low.at_most(Binary64::zero()) {
        None
    } else {
        Some(close.over(low).minus(Binary64::one()))
    }
}

pub open spec fn donch_high_of(window: Seq<Candle>, n: int, close: Binary64) -> Option<Binary64> {
    if window.len() < n || highest_high(window, n).at_most(Binary64::zero()) {
        None
    } else {
        Some(close.over(highest_high(window, n)).minus(Binary64::one()))
    }
}

/// How far `close` is above the highest high of the last `n` candles.
pub fn donch_high(window: &VecDeque<Candle>, n: usize, close: Binary64) -> (r: Option<Binary64>)
    ensures
        r == donch_high_of(window@, n as int, close),
{
    if window.len() < n {
        return None;
    }
    let high: Binary64 = statistics::highest(&recent(window, n, Field::High));
    if high.at_most(Binary64::zero()) {
        None
    } else {
        Some(close.over(high).minus(Binary64::one()))
    }
}

pub open spec fn ret_n_of(window: Seq<Candle>, n: int) -> Option<Binary64> {
    if window.len() <= n || window[window.len() - 1 - n].close.equals(Binary64::zero()) {
        None
    } else {
        Some(
            newest_candle(window).close.over(window[window.len() - 1 - n].close).minus(
                Binary64::one(),
            ),
        )
    }
}

/// The return over the last `n` candles.
pub fn ret_n(window: &VecDeque<Candle>, n: usize) -> (r: Option<Binary64>)
    ensures
        r == ret_n_of(window@, n as int),
{
    let len: usize = window.len();
    if len <= n {
        return None;
    }
    let cur: Binary64 = window[len - 1].close;
    let past: Binary64 = window[len - 1 - n].close;
    if past.equals(Binary64::zero()) {
        None
    } else {
        Some(cur.over(past).minus(Binary64::one()))
    }
}

/// Money flow of the candles at `start` up to `end`: on rising and on falling typical prices.
pub open spec fn money_flows(window: Seq<Candle>, start: int, end: int) -> (Binary64, Binary64)
    decreases end - start,
{
    if end <= start {
        (Binary64::zero(), Binary64::zero())
    } else {
        let (pos, neg) = money_flows(window, start, end - 1);
        let i = end - 1;
        if i == 0 {
            (pos, neg)
        } else {
            let tp = typical_of(window[i]);
            let prev = typical_of(window[i - 1]);
            let flow = tp.times(window[i].volume);
            if prev.less(tp) {
                (pos.plus(flow), neg)
            } else if tp.less(prev) {
                (pos, neg.plus(flow))
            } else {
                (pos, neg)
            }
        }
    }
}

/// `100 - 100 / (1 + a / b)`, the shape the index indicators share.
pub open spec fn index_of(a: Binary64, b: Binary64) -> Binary64 {
    Binary64::count(100).minus(Binary64::count(100).over(Binary64::one().plus(a.over(b))))
}

pub fn index(a: Binary64, b: Binary64) -> (r: Binary64)
    ensures
        r == index_of(a, b),
{
    Binary64::count(100).minus(Binary64::count(100).over(Binary64::one().plus(a.over(b))))
}

pub open spec fn mfi_n_of(window: Seq<Candle>, n: int) -> Option<Binary64> {
    if window.len() < n {
        None
    } else {
        let (pos, neg) = money_flows(window, window.len() - n, window.len() as int);
        if neg.equals(Binary64::zero()) {
            None
        } else {
            Some(index_of(pos, neg))
        }
    }
}

/// Money flow index of the last `n` candles.
pub fn mfi_n(window: &VecDeque<Candle>, n: usize) -> (r: Option<Binary64>)
    ensures
        r == mfi_n_of(window@, n as int),
{
    let len: usize = window.len();
    if len < n {
        return None;
    }
    let start: usize = len - n;
    let mut pos: Binary64 = Binary64::zero();
    let mut neg: Binary64 = Binary64::zero();
    let mut i: usize = start;
    while i < len
        invariant
            start <= i <= len,
            len == window@.len(),
            (pos, neg) == money_flows(window@, start as int, i as int),
        decreases len - i,
    {
        if i > 0 {
            let tp: Binary64 = typical(&window[i]);
            let prev: Binary64 = typical(&window[i - 1]);
            let flow: Binary64 = tp.times(window[i].volume);
            if prev.less(tp) {
                pos = pos.plus(flow);
            } else if tp.less(prev) {
                neg = neg.plus(flow);
            }
        }
        i = i + 1;
    }
    if neg.equals(Binary64::zero()) {
        None
    } else {
        Some(index(pos, neg))
    }
}

/// Mean of one number over the last `n` candles.
pub open spec fn recent_mean(window: Seq<Candle>, n: int, field: Field) -> Binary64 {
    statistics::total_of(recent_of(window, n, field)).over(Binary64::count(n as u64))
}

pub open spec fn volume_ratio_of(window: Seq<Candle>, n: int) -> Option<Binary64> {
    if window.len() < n || window.len() == 0 || recent_mean(window, n, Field::Volume).less(tiny()) {
        None
    } else {
        Some(newest_candle(window).volume.over(recent_mean(window, n, Field::Volume)))
    }
}

/// The newest volume in units of the mean of the last `n`.
pub fn volume_ratio(window: &VecDeque<Candle>, n: usize) -> (r: Option<Binary64>)
    ensures
        r == volume_ratio_of(window@, n as int),
{
    if window.len() < n || window.len() == 0 {
        return None;
    }
    let mean: Binary64 = statistics::total(&recent(window, n, Field::Volume)).over(
        Binary64::count(n as u64),
    );
    if mean.less(tiny()) {
        None
    } else {
        Some(window[window.len() - 1].volume.over(mean))
    }
}

pub open spec fn dist_sma_of(window: Seq<Candle>, n: int, close: Binary64) -> Option<Binary64> {
    if window.len() < n || recent_mean(window, n, Field::Close).equals(Binary64::zero()) {
        None
    } else {
        Some(close.over(recent_mean(window, n, Field::Close)).minus(Binary64::one()))
    }
}

/// How far `close` is above the mean close of the last `n` candles.
pub fn dist_sma(window: &VecDeque<Candle>, n: usize, close: Binary64) -> (r: Option<Binary64>)
    ensures
        r == dist_sma_of(window@, n as int, close),
{
    if window.len() < n {
        return None;
    }
    let mean: Binary64 = statistics::total(&recent(window, n, Field::Close)).over(
        Binary64::count(n as u64),
    );
    if mean.equals(Binary64::zero()) {
        None
    } else {
        Some(close.over(mean).minus(Binary64::one()))
    }
}

/// The typical prices of some candles.
pub open spec fn typicals_of(candles: Seq<Candle>) -> Seq<Binary64> {
    Seq::new(candles.len(), |i: int| typical_of(candles[i]))
}

pub fn typicals(candles: &Vec<Candle>) -> (r: Vec<Binary64>)
    ensures
        r@ == typicals_of(candles@),
{
    let mut r: Vec<Binary64> = Vec::new();
    let mut i: usize = 0;
    while i < candles.len()
        invariant
            i <= candles@.len(),
            r@ == typicals_of(candles@.take(i as int)),
        decreases candles@.len() - i,
    {
        r.push(typical(&candles[i]));
        i = i + 1;
        assert(r@ =~= typicals_of(candles@.take(i as int)));
    }
    assert(candles@.take(i as int) =~= candles@);
    r
}

pub open spec fn typical_mean_of(window: Seq<Candle>, end: int, n: int) -> Option<Binary64> {
    if end + 1 < n {
        None
    } else {
        Some(
            statistics::total_of(typicals_of(window.subrange(end + 1 - n, end + 1))).over(
                Binary64::count(n as u64),
            ),
        )
    }
}

/// Mean typical price of the `n` candles that end at `end`.
pub fn typical_price_mean_ending_at(window: &VecDeque<Candle>, end: usize, n: usize) -> (r: Option<
    Binary64,
>)
    requires
        end < window@.len(),
    ensures
        r == typical_mean_of(window@, end as int, n as int),
{
    assert(end < window.len());
    if end + 1 < n {
        return None;
    }
    let start: usize = end + 1 - n;
    let candles: Vec<Candle> = candle::span(window, start, n);
    Some(statistics::total(&typicals(&candles)).over(Binary64::count(n as u64)))
}

/// Distances of typical prices from their running means, from `start` up to `end`, added up.
pub open spec fn deviation_sum(window: Seq<Candle>, n: int, start: int, end: int) -> Binary64
    decreases end - start,
{
    if end <= start {
        Binary64::zero()
    } else {
        deviation_sum(window, n, start, end - 1).plus(
            typical_of(window[end - 1]).minus(typical_mean_of(window, end - 1, n)->0).abs(),
        )
    }
}

pub open spec fn cci_n_of(window: Seq<Candle>, n: int) -> Option<Binary64> {
    let len = window.len() as int;
    let mean_deviation = deviation_sum(window, n, len - n, len).over(Binary64::count(n as u64));
    if len < 2 * n - 1 || mean_deviation.equals(Binary64::zero()) {
        None
    } else {
        Some(
            typical_of(newest_candle(window)).minus(typical_mean_of(window, len - 1, n)->0).over(
                Binary64::ratio(false, 15, 1000).times(mean_deviation),
            ),
        )
    }
}

/// Commodity channel index of the last `n` candles.
pub fn cci_n(window: &VecDeque<Candle>, n: usize) -> (r: Option<Binary64>)
    requires
        0 < n || 0 < window@.len(),
        2 * n <= usize::MAX,
    ensures
        r == cci_n_of(window@, n as int),
{
    let len: usize = window.len();
    if 0 < n && len < 2 * n - 1 {
        return None;
    }
    let cur_idx: usize = len - 1;
    let current_tp: Binary64 = typical(&window[cur_idx]);
    let current_mean: Binary64 = match typical_price_mean_ending_at(window, cur_idx, n) {
        Some(mean) => mean,
        None => {
            return None;
        },
    };
    let start: usize = len - n;
    let mut sum: Binary64 = Binary64::zero();
    let mut idx: usize = start;
    while idx < len
        invariant
            start <= idx <= len,
            len == window@.len(),
            start == len - n,
            len >= 2 * n - 1,
            sum == deviation_sum(window@, n as int, start as int, idx as int),
        decreases len - idx,
    {
        let tp: Binary64 = typical(&window[idx]);
        match typical_price_mean_ending_at(window, idx, n) {
            Some(mean) => {
                sum = sum.plus(tp.minus(mean).abs());
            },
            None => {
                return None;
            },
        }
        idx = idx + 1;
    }
    let mean_deviation: Binary64 = sum.over(Binary64::count(n as u64));
    if mean_deviation.equals(Binary64::zero()) {
        None
    } else {
        Some(
            current_tp.minus(current_mean).over(
                Binary64::ratio(false, 15, 1000).times(mean_deviation),
            ),
        )
    }
}

/// A candle's body as a share of its close.
pub open spec fn body_share_of(c: Candle) -> Binary64 {
    if c.close.equals(Binary64::zero()) {
        Binary64::zero()
    } else {
        c.close.minus(c.open).over(c.close)
    }
}

pub open spec fn body_shares_of(candles: Seq<Candle>) -> Seq<Binary64> {
    Seq::new(candles.len(), |i: int| body_share_of(candles[i]))
}

pub open spec fn body_sum_of(window: Seq<Candle>, n: int) -> Option<Binary64> {
    if window.len() < n {
        None
    } else {
        Some(statistics::total_of(body_shares_of(candle::newest_of(window, n))))
    }
}

/// The bodies of the last `n` candles, as shares of their closes, added up.
pub fn body_sum(window: &VecDeque<Candle>, n: usize) -> (r: Option<Binary64>)
    ensures
        r == body_sum_of(window@, n as int),
{
    if window.len() < n {
        return None;
    }
    let candles: Vec<Candle> = candle::newest(window, n);
    let mut shares: Vec<Binary64> = Vec::new();
    let mut i: usize = 0;
    while i < candles.len()
        invariant
            i <= candles@.len(),
            shares@ == body_shares_of(candles@.take(i as int)),
        decreases candles@.len() - i,
    {
        let c: Candle = candles[i];
        shares.push(
            if c.close.equals(Binary64::zero()) {
                Binary64::zero()
            } else {
                c.close.minus(c.open).over(c.close)
            },
        );
        i = i + 1;
        assert(shares@ =~= body_shares_of(candles@.take(i as int)));
    }
    assert(candles@.take(i as int) =~= candles@);
    Some(statistics::total(&shares))
}

pub open spec fn bb_pctb_of(window: Seq<Candle>) -> Option<Binary64> {
    let closes = recent_of(window, 20, Field::Close);
    let m = statistics::mean_of(closes);
    let s = statistics::sample_deviation_of(closes);
    if window.len() < 20 || s.equals(Binary64::zero()) {
        None
    } else {
        Some(
            closes[0].minus(m.minus(Binary64::count(2).times(s))).over(
                Binary64::count(4).times(s),
            ),
        )
    }
}

/// Where the newest close lies between Bollinger bands of two deviations over 20 candles.
pub fn bb_pctb(window: &VecDeque<Candle>) -> (r: Option<Binary64>)
    ensures
        r == bb_pctb_of(window@),
{
    if window.len() < 20 {
        return None;
    }
    let closes: Vec<Binary64> = recent(window, 20, Field::Close);
    let m: Binary64 = statistics::fmean(&closes);
    let s: Binary64 = statistics::fstd_s(&closes);
    if s.equals(Binary64::zero()) {
        return None;
    }
    Some(
        closes[0].minus(m.minus(Binary64::count(2).times(s))).over(Binary64::count(4).times(s)),
    )
}

pub open spec fn williams_r_of(window: Seq<Candle>, n: int) -> Option<Binary64> {
    let range = highest_high(window, n).minus(lowest_low(window, n));
    if window.len() < n || window.len() == 0 || range.equals(Binary64::zero()) {
        None
    } else {
        Some(
            highest_high(window, n).minus(newest_candle(window).close).over(range).times(
                Binary64::ratio(true, 100, 1),
            ),
        )
    }
}

/// Distance of the newest close from the highest high of the last `n` candles, in percent.
pub fn williams_r(window: &VecDeque<Candle>, n: usize) -> (r: Option<Binary64>)
    ensures
        r == williams_r_of(window@, n as int),
{
    if window.len() < n || window.len() == 0 {
        return None;
    }
    let high: Binary64 = statistics::highest(&recent(window, n, Field::High));
    let low: Binary64 = statistics::lowest(&recent(window, n, Field::Low));
    let range: Binary64 = high.minus(low);
    if range.equals(Binary64::zero()) {
        None
    } else {
        let close: Binary64 = window[window.len() - 1].close;
        Some(high.minus(close).over(range).times(Binary64::ratio(true, 100, 1)))
    }
}

/// How many of the last candles in a row satisfy `rises`, or else fall.
pub open spec fn streak_of(window: Seq<Candle>, up: bool) -> nat
    decreases window.len(),
{
    if window.len() == 0 {
        0
    } else if if up { window.last().rises() } else { window.last().falls() } {
        1 + streak_of(window.drop_last(), up)
    } else {
        0
    }
}

proof fn lemma_streak_step(window: Seq<Candle>, up: bool, n: int)
    requires
        0 <= n <= window.len(),
        streak_of(window, up) == n + streak_of(window.take(window.len() - n), up),
        n < window.len(),
        (if up {
            window[window.len() - 1 - n].rises()
        } else {
            window[window.len() - 1 - n].falls()
        }),
    ensures
        streak_of(window, up) == n + 1 + streak_of(window.take(window.len() - n - 1), up),
{
    let rest = window.take(window.len() - n);
    assert(rest.drop_last() =~= window.take(window.len() - n - 1));
}

/// The length of the run of candles of one color that ends the window.
pub fn streak(window: &VecDeque<Candle>, up: bool) -> (r: usize)
    ensures
        r == streak_of(window@, up),
{
    let len: usize = window.len();
    let mut n: usize = 0;
    assert(window@.take(len as int) =~= window@);
    while n < len
        invariant
            n <= len,
            len == window@.len(),
            streak_of(window@, up) == n + streak_of(window@.take(len - n), up),
        decreases len - n,
    {
        let c: Candle = window[len - 1 - n];
        let goes_on: bool = if up { c.rises() } else { c.falls() };
        if !goes_on {
            return n;
        }
        proof {
            lemma_streak_step(window@, up, n as int);
        }
        n = n + 1;
    }
    n
}

/// Length of the run of red candles that ends the window.
pub fn red_streak(window: &VecDeque<Candle>) -> (r: Binary64)
    ensures
        r == Binary64::count(streak_of(window@, false) as u64),
{
    Binary64::count(streak(window, false) as u64)
}

/// Length of the run of green candles that ends the window.
pub fn green_streak(window: &VecDeque<Candle>) -> (r: Binary64)
    ensures
        r == Binary64::count(streak_of(window@, true) as u64),
{
    Binary64::count(streak(window, true) as u64)
}

/// How many of some candles rise, or else fall.
pub open spec fn colored(candles: Seq<Candle>, up: bool) -> nat {
    candles.filter(|c: Candle| if up { c.rises() } else { c.falls() }).len()
}

/// Counts the candles of one color.
pub fn count_colored(candles: &Vec<Candle>, up: bool) -> (r: usize)
    ensures
        r == colored(candles@, up),
        r <= candles@.len(),
{
    let ghost test = |c: Candle| if up { c.rises() } else { c.falls() };
    let mut count: usize = 0;
    let mut i: usize = 0;
    while i < candles.len()
        invariant
            i <= candles@.len(),
            count <= i,
            test == (|c: Candle| if up { c.rises() } else { c.falls() }),
            count == candles@.take(i as int).filter(test).len(),
        decreases candles@.len() - i,
    {
        let c: Candle = candles[i];
        let one: bool = if up { c.rises() } else { c.falls() };
        if one {
            count = count + 1;
        }
        i = i + 1;
        proof {
            reveal(Seq::filter);
            assert(candles@.take(i as int).drop_last() =~= candles@.take(i - 1));
        }
    }
    assert(candles@.take(i as int) =~= candles@);
    count
}

pub open spec fn count_color_of(window: Seq<Candle>, n: int, green: bool) -> Option<Binary64> {
    if window.len() < n {
        None
    } else {
        Some(Binary64::count(colored(candle::newest_of(window, n), green) as u64))
    }
}

/// How many of the last `n` candles are green, or else red.
pub fn count_color(window: &VecDeque<Candle>, n: usize, green: bool) -> (r: Option<Binary64>)
    ensures
        r == count_color_of(window@, n as int, green),
{
    if window.len() < n {
        return None;
    }
    Some(Binary64::count(count_colored(&candle::newest(window, n), green) as u64))
}

pub open spec fn same_color_ratio_of(window: Seq<Candle>, n: int) -> Option<Binary64> {
    if window.len() < n {
        None
    } else {
        let green = colored(candle::newest_of(window, n), true);
        let red = colored(candle::newest_of(window, n), false);
        Some(
            Binary64::count((if green >= red { green } else { red }) as u64).over(
                Binary64::count(n as u64),
            ),
        )
    }
}

/// Share of the more frequent color among the last `n` candles.
pub fn same_color_ratio(window: &VecDeque<Candle>, n: usize) -> (r: Option<Binary64>)
    ensures
        r == same_color_ratio_of(window@, n as int),
{
    if window.len() < n {
        return None;
    }
    let candles: Vec<Candle> = candle::newest(window, n);
    let green: usize = count_colored(&candles, true);
    let red: usize = count_colored(&candles, false);
    let most: usize = if green >= red { green } else { red };
    Some(Binary64::count(most as u64).over(Binary64::count(n as u64)))
}

/// One for a minute of the day in `from .. to`, zero for any other.
pub open spec fn session_of(minute_of_day: Binary64, from: u64, to: u64) -> Binary64 {
    if Binary64::count(from).at_most(minute_of_day) && minute_of_day.less(Binary64::count(to)) {
        Binary64::one()
    } else {
        Binary64::zero()
    }
}

fn session(minute_of_day: Binary64, from: u64, to: u64) -> (r: Binary64)
    ensures
        r == session_of(minute_of_day, from, to),
{
    if Binary64::count(from).at_most(minute_of_day) && minute_of_day.less(Binary64::count(to)) {
        Binary64::one()
    } else {
        Binary64::zero()
    }
}

/// Asian session: midnight to eight.
pub fn session_asia(minute_of_day: Binary64) -> (r: Binary64)
    ensures
        r == session_of(minute_of_day, 0, 480),
{
    session(minute_of_day, 0, 480)
}

/// London session: seven to sixteen.
pub fn session_london(minute_of_day: Binary64) -> (r: Binary64)
    ensures
        r == session_of(minute_of_day, 420, 960),
{
    session(minute_of_day, 420, 960)
}

/// New York session: thirteen to twenty-one.
pub fn session_us(minute_of_day: Binary64) -> (r: Binary64)
    ensures
        r == session_of(minute_of_day, 780, 1260),
{
    session(minute_of_day, 780, 1260)
}

/// Where the London and New York sessions overlap.
pub fn session_overlap_london_us(minute_of_day: Binary64) -> (r: Binary64)
    ensures
        r == session_of(minute_of_day, 780, 960),
{
    session(minute_of_day, 780, 960)
}

/// How a candle's close compares with its open.
#[derive(Clone, Copy, Debug, PartialEq, Eq, Structural)]
pub enum Course {
    Falls,
    Stays,
    Rises,
    /// One of the two is not a number.
    Unordered,
}

pub open spec fn course_of(c: Candle) -> Course {
    if c.falls() {
        Course::Falls
    } else if c.rises() {
        Course::Rises
    } else if c.close.equals(c.open) {
        Course::Stays
    } else {
        Course::Unordered
    }
}

pub fn course(c: &Candle) -> (r: Course)
    ensures
        r == course_of(*c),
{
    if c.falls() {
        Course::Falls
    } else if c.rises() {
        Course::Rises
    } else if c.close.equals(c.open) {
        Course::Stays
    } else {
        Course::Unordered
    }
}

/// How often the course changes at the candles from `start` up to `end`; the first one counts.
pub open spec fn flips_between(window: Seq<Candle>, start: int, end: int) -> nat
    decreases end - start,
{
    if end <= start {
        0
    } else {
        let i = end - 1;
        flips_between(window, start, end - 1) + (if i == 0 || course_of(window[i]) != course_of(
            window[i - 1],
        ) {
            1nat
        } else {
            0
        })
    }
}

pub open spec fn flip_count_of(window: Seq<Candle>, n: int) -> Option<Binary64> {
    if window.len() < n {
        None
    } else {
        Some(
            Binary64::count(
                flips_between(window, window.len() - n, window.len() as int) as u64,
            ),
        )
    }
}

/// How often the course changed during the last `n` candles.
pub fn flip_count(window: &VecDeque<Candle>, n: usize) -> (r: Option<Binary64>)
    ensures
        r == flip_count_of(window@, n as int),
{
    let len: usize = window.len();
    if len < n {
        return None;
    }
    let start: usize = len - n;
    let mut flips: usize = 0;
    let mut i: usize = start;
    while i < len
        invariant
            start <= i <= len,
            len == window@.len(),
            flips <= i - start,
            flips == flips_between(window@, start as int, i as int),
        decreases len - i,
    {
        if i == 0 || course(&window[i]) != course(&window[i - 1]) {
            flips = flips + 1;
        }
        i = i + 1;
    }
    Some(Binary64::count(flips as u64))
}

/// Typical prices times volumes.
pub open spec fn turnovers_of(candles: Seq<Candle>) -> Seq<Binary64> {
    Seq::new(candles.len(), |i: int| typical_of(candles[i]).times(candles[i].volume))
}

/// Volume weighted average price of some candles, taken in the order given.
pub open spec fn vwap_of(candles: Seq<Candle>) -> Option<Binary64> {
    let vol = statistics::sum_from(Binary64::zero(), candle::column_of(candles, Field::Volume));
    if vol.less(tiny()) {
        None
    } else {
        Some(statistics::sum_from(Binary64::zero(), turnovers_of(candles)).over(vol))
    }
}

pub fn vwap(candles: &Vec<Candle>) -> (r: Option<Binary64>)
    ensures
        r == vwap_of(candles@),
{
    let mut turnovers: Vec<Binary64> = Vec::new();
    let mut i: usize = 0;
    while i < candles.len()
        invariant
            i <= candles@.len(),
            turnovers@ == turnovers_of(candles@.take(i as int)),
        decreases candles@.len() - i,
    {
        turnovers.push(typical(&candles[i]).times(candles[i].volume));
        i = i + 1;
        assert(turnovers@ =~= turnovers_of(candles@.take(i as int)));
    }
    assert(candles@.take(i as int) =~= candles@);
    let vol: Binary64 = statistics::sum_onto(
        Binary64::zero(),
        &candle::column(candles, Field::Volume),
    );
    if vol.less(tiny()) {
        None
    } else {
        Some(statistics::sum_onto(Binary64::zero(), &turnovers).over(vol))
    }
}

pub open spec fn vwap_n_of(window: Seq<Candle>, n: int) -> Option<Binary64> {
    if window.len() < n {
        None
    } else {
        vwap_of(candle::newest_of(window, n))
    }
}

/// Volume weighted average price of the last `n` candles.
pub fn vwap_n(window: &VecDeque<Candle>, n: usize) -> (r: Option<Binary64>)
    ensures
        r == vwap_n_of(window@, n as int),
{
    if window.len() < n {
        return None;
    }
    vwap(&candle::newest(window, n))
}

pub open spec fn dist_vwap_of(window: Seq<Candle>, n: int, close: Binary64) -> Option<Binary64> {
    match vwap_n_of(window, n) {
        Some(v) => if v.equals(Binary64::zero()) {
            None
        } else {
            Some(close.over(v).minus(Binary64::one()))
        },
        None => None,
    }
}

/// How far `close` is above the volume weighted average price of the last `n` candles.
pub fn dist_vwap(window: &VecDeque<Candle>, n: usize, close: Binary64) -> (r: Option<Binary64>)
    ensures
        r == dist_vwap_of(window@, n as int, close),
{
    match vwap_n(window, n) {
        Some(v) => if v.equals(Binary64::zero()) {
            None
        } else {
            Some(close.over(v).minus(Binary64::one()))
        },
        None => None,
    }
}

/// How many candles back the slope of an average over `n` looks.
pub open spec fn slope_shift(n: int) -> int {
    if n / 4 > 1 {
        n / 4
    } else {
        1
    }
}

pub open spec fn vwap_slope_of(window: Seq<Candle>, n: int) -> Option<Binary64> {
    let start = window.len() - slope_shift(n) - n;
    if start < 0 {
        None
    } else {
        match (vwap_n_of(window, n), vwap_of(window.subrange(start, start + n))) {
            (Some(current), Some(shifted)) => if shifted.equals(Binary64::zero()) {
                None
            } else {
                Some(current.over(shifted).minus(Binary64::one()))
            },
            _ => None,
        }
    }
}

/// Change of the volume weighted average price of `n` candles over a quarter of as many.
pub fn vwap_slope(window: &VecDeque<Candle>, n: usize) -> (r: Option<Binary64>)
    requires
        n + n / 4 + 1 <= usize::MAX,
    ensures
        r == vwap_slope_of(window@, n as int),
{
    let quarter: usize = n / 4;
    let shift: usize = if quarter > 1 { quarter } else { 1 };
    let len: usize = window.len();
    if len < n + shift {
        return None;
    }
    let current: Binary64 = match vwap_n(window, n) {
        Some(v) => v,
        None => {
            return None;
        },
    };
    let start: usize = len - shift - n;
    match vwap(&candle::span(window, start, n)) {
        Some(shifted) => if shifted.equals(Binary64::zero()) {
            None
        } else {
            Some(current.over(shifted).minus(Binary64::one()))
        },
        None => None,
    }
}

/// A candle's range as a share of its close.
pub open spec fn range_share_of(c: Candle) -> Binary64 {
    c.high.minus(c.low).over(c.close)
}

pub open spec fn range_shares_of(candles: Seq<Candle>) -> Seq<Binary64> {
    Seq::new(candles.len(), |i: int| range_share_of(candles[i]))
}

/// Whether some candle closes at zero.
pub open spec fn closes_at_zero(candles: Seq<Candle>) -> bool {
    exists|i: int| 0 <= i < candles.len() && (#[trigger] candles[i]).close.equals(Binary64::zero())
}

/// Ranges as shares of the closes; `None` where a close is zero.
pub fn range_shares(candles: &Vec<Candle>) -> (r: Option<Vec<Binary64>>)
    ensures
        r is None <==> closes_at_zero(candles@),
        r matches Some(v) ==> v@ == range_shares_of(candles@),
{
    let mut shares: Vec<Binary64> = Vec::new();
    let mut i: usize = 0;
    while i < candles.len()
        invariant
            i <= candles@.len(),
            shares@ == range_shares_of(candles@.take(i as int)),
            forall|j: int|
                0 <= j < i ==> !(#[trigger] candles@[j]).close.equals(Binary64::zero()),
        decreases candles@.len() - i,
    {
        let c: Candle = candles[i];
        if c.close.equals(Binary64::zero()) {
            assert(candles@[i as int].close.equals(Binary64::zero()));
            return None;
        }
        shares.push(c.high.minus(c.low).over(c.close));
        i = i + 1;
        assert(shares@ =~= range_shares_of(candles@.take(i as int)));
    }
    assert(candles@.take(i as int) =~= candles@);
    Some(shares)
}

pub open spec fn range_pct_z_of(window: Seq<Candle>, n: int) -> Option<Binary64> {
    if window.len() < n || closes_at_zero(candle::newest_of(window, n)) {
        None
    } else {
        score_of(range_shares_of(candle::newest_of(window, n)))
    }
}

/// Standard score of the newest range, as a share of the close, among the last `n`.
pub fn range_pct_z(window: &VecDeque<Candle>, n: usize) -> (r: Option<Binary64>)
    ensures
        r == range_pct_z_of(window@, n as int),
{
    if window.len() < n {
        return None;
    }
    match range_shares(&candle::newest(window, n)) {
        Some(v) => score(&v),
        None => None,
    }
}

/// The last `n` candles of a window, or all of them where there are fewer.
pub open spec fn up_to(window: Seq<Candle>, n: int) -> Seq<Candle> {
    candle::newest_of(
        window,
        if n <= window.len() {
            n
        } else {
            window.len() as int
        },
    )
}

/// The ranges of the last candles, up to `n` of them, as shares of their closes, over `n`.
pub open spec fn mean_range_share(window: Seq<Candle>, n: int) -> Binary64 {
    statistics::total_of(range_shares_of(up_to(window, n))).over(Binary64::count(n as u64))
}

pub open spec fn compression_ratio_of(window: Seq<Candle>, n1: int, n2: int) -> Option<Binary64> {
    if window.len() < n2 || closes_at_zero(up_to(window, n1)) || closes_at_zero(
        up_to(window, n2),
    ) || mean_range_share(window, n2).less(tiny()) {
        None
    } else {
        Some(mean_range_share(window, n1).over(mean_range_share(window, n2)))
    }
}

/// Mean range of the last `n1` candles in units of that of the last `n2`.
pub fn compression_ratio(window: &VecDeque<Candle>, n1: usize, n2: usize) -> (r: Option<Binary64>)
    ensures
        r == compression_ratio_of(window@, n1 as int, n2 as int),
{
    if window.len() < n2 {
        return None;
    }
    let taken: usize = if n1 <= window.len() { n1 } else { window.len() };
    match (
        range_shares(&candle::newest(window, taken)),
        range_shares(&candle::newest(window, n2)),
    ) {
        (Some(short), Some(long)) => {
            let r1: Binary64 = statistics::total(&short).over(Binary64::count(n1 as u64));
            let r2: Binary64 = statistics::total(&long).over(Binary64::count(n2 as u64));
            if r2.less(tiny()) {
                None
            } else {
                Some(r1.over(r2))
            }
        },
        _ => None,
    }
}

/// One for a rising candle, minus one for a falling one, zero for any other.
pub open spec fn sign_of(c: Candle) -> Binary64 {
    if c.rises() {
        Binary64::one()
    } else if c.falls() {
        Binary64::ratio(true, 1, 1)
    } else {
        Binary64::zero()
    }
}

pub open spec fn signed_vol_ratio_of(window: Seq<Candle>, n: int) -> Option<Binary64> {
    if window.len() < n || window.len() == 0 || recent_mean(window, n, Field::Volume).less(tiny()) {
        None
    } else {
        let c = newest_candle(window);
        Some(c.volume.times(sign_of(c)).over(recent_mean(window, n, Field::Volume)))
    }
}

/// The newest volume in units of the mean of the last `n`, with the sign of its candle.
pub fn signed_vol_ratio(window: &VecDeque<Candle>, n: usize) -> (r: Option<Binary64>)
    ensures
        r == signed_vol_ratio_of(window@, n as int),
{
    if window.len() < n || window.len() == 0 {
        return None;
    }
    let mean: Binary64 = statistics::total(&recent(window, n, Field::Volume)).over(
        Binary64::count(n as u64),
    );
    if mean.less(tiny()) {
        return None;
    }
    let c: Candle = window[window.len() - 1];
    let sign: Binary64 = if c.rises() {
        Binary64::one()
    } else if c.falls() {
        Binary64::ratio(true, 1, 1)
    } else {
        Binary64::zero()
    };
    Some(c.volume.times(sign).over(mean))
}

/// The `n` candles before the newest one.
pub open spec fn prior_of(window: Seq<Candle>, n: int) -> Seq<Candle> {
    window.subrange(window.len() - 1 - n, window.len() - 1)
}

/// One where `holds`, zero where not.
pub open spec fn flag_of(holds: bool) -> Binary64 {
    if holds {
        Binary64::one()
    } else {
        Binary64::zero()
    }
}

fn flag(holds: bool) -> (r: Binary64)
    ensures
        r == flag_of(holds),
{
    if holds {
        Binary64::one()
    } else {
        Binary64::zero()
    }
}

pub open spec fn failed_low_of(window: Seq<Candle>, n: int) -> Option<Binary64> {
    if window.len() <= n {
        Some(Binary64::zero())
    } else {
        let floor = statistics::lowest_of(candle::column_of(prior_of(window, n), Field::Low));
        let c = newest_candle(window);
        Some(flag_of(c.low.less(floor) && floor.less(c.close)))
    }
}

/// Whether the newest candle dipped below the lows of the `n` before it and closed above them.
pub fn failed_low(window: &VecDeque<Candle>, n: usize) -> (r: Option<Binary64>)
    ensures
        r == failed_low_of(window@, n as int),
{
    let len: usize = window.len();
    if len <= n {
        return Some(Binary64::zero());
    }
    let prior: Vec<Candle> = candle::span(window, len - 1 - n, n);
    let floor: Binary64 = statistics::lowest(&candle::column(&prior, Field::Low));
    let c: Candle = window[len - 1];
    Some(flag(c.low.less(floor) && floor.less(c.close)))
}

pub open spec fn failed_high_of(window: Seq<Candle>, n: int) -> Option<Binary64> {
    if window.len() <= n {
        Some(Binary64::zero())
    } else {
        let ceiling = statistics::highest_of(candle::column_of(prior_of(window, n), Field::High));
        let c = newest_candle(window);
        Some(flag_of(ceiling.less(c.high) && c.close.less(ceiling)))
    }
}

/// Whether the newest candle rose above the highs of the `n` before it and closed below them.
pub fn failed_high(window: &VecDeque<Candle>, n: usize) -> (r: Option<Binary64>)
    ensures
        r == failed_high_of(window@, n as int),
{
    let len: usize = window.len();
    if len <= n {
        return Some(Binary64::zero());
    }
    let prior: Vec<Candle> = candle::span(window, len - 1 - n, n);
    let ceiling: Binary64 = statistics::highest(&candle::column(&prior, Field::High));
    let c: Candle = window[len - 1];
    Some(flag(ceiling.less(c.high) && c.close.less(ceiling)))
}

pub open spec fn reclaim_mid_of(window: Seq<Candle>, n: int) -> Option<Binary64> {
    if window.len() <= n {
        Some(Binary64::zero())
    } else {
        let high = statistics::highest_of(candle::column_of(prior_of(window, n), Field::High));
        let low = statistics::lowest_of(candle::column_of(prior_of(window, n), Field::Low));
        let mid = high.plus(low).over(Binary64::count(2));
        Some(flag_of(mid.less(newest_candle(window).close)))
    }
}

/// Whether the newest close is above the middle of the `n` candles before it.
pub fn reclaim_mid(window: &VecDeque<Candle>, n: usize) -> (r: Option<Binary64>)
    ensures
        r == reclaim_mid_of(window@, n as int),
{
    let len: usize = window.len();
    if len <= n {
        return Some(Binary64::zero());
    }
    let prior: Vec<Candle> = candle::span(window, len - 1 - n, n);
    let high: Binary64 = statistics::highest(&candle::column(&prior, Field::High));
    let low: Binary64 = statistics::lowest(&candle::column(&prior, Field::Low));
    let mid: Binary64 = high.plus(low).over(Binary64::count(2));
    Some(flag(mid.less(window[len - 1].close)))
}

/// Length of a candle's upper wick, or else its lower one.
pub open spec fn wick_of(c: Candle, upper: bool) -> Binary64 {
    if upper {
        c.high.minus(c.open.max(c.close))
    } else {
        c.open.min(c.close).minus(c.low)
    }
}

pub fn wick(c: &Candle, upper: bool) -> (r: Binary64)
    ensures
        r == wick_of(*c, upper),
{
    if upper {
        c.high.minus(c.open.max(c.close))
    } else {
        c.open.min(c.close).minus(c.low)
    }
}

/// Length of a candle's body.
pub open spec fn body_length_of(c: Candle) -> Binary64 {
    c.close.minus(c.open).abs()
}

pub open spec fn absorption_of(window: Seq<Candle>, up: bool) -> Option<Binary64> {
    if window.len() == 0 {
        None
    } else {
        let c = newest_candle(window);
        match vol_z_of(window, 24) {
            Some(z) => if body_length_of(c).equals(Binary64::zero()) {
                None
            } else {
                Some(z.times(wick_of(c, up).over(body_length_of(c))))
            },
            None => None,
        }
    }
}

/// Score of the newest volume times the wick of its candle in units of the body.
pub fn absorption(window: &VecDeque<Candle>, up: bool) -> (r: Option<Binary64>)
    ensures
        r == absorption_of(window@, up),
{
    if window.len() == 0 {
        return None;
    }
    let c: Candle = window[window.len() - 1];
    match vol_z(window, 24) {
        Some(z) => {
            let body: Binary64 = c.close.minus(c.open).abs();
            if body.equals(Binary64::zero()) {
                None
            } else {
                Some(z.times(wick(&c, up).over(body)))
            }
        },
        None => None,
    }
}

pub open spec fn breakout_energy_of(window: Seq<Candle>) -> Option<Binary64> {
    match (range_pct_z_of(window, 24), vol_z_of(window, 24)) {
        (Some(range), Some(volume)) => Some(range.times(volume)),
        _ => None,
    }
}

/// Score of the newest range times the score of the newest volume.
pub fn breakout_energy_f(window: &VecDeque<Candle>) -> (r: Option<Binary64>)
    ensures
        r == breakout_energy_of(window@),
{
    match (range_pct_z(window, 24), vol_z(window, 24)) {
        (Some(range), Some(volume)) => Some(range.times(volume)),
        _ => None,
    }
}

/// `size` as a share of the newest close, per unit of relative volume.
pub open spec fn efficiency_of(window: Seq<Candle>, size: Binary64) -> Option<Binary64> {
    match volume_ratio_of(window, 20) {
        Some(ratio) => {
            let close = newest_candle(window).close;
            if close.equals(Binary64::zero()) || ratio.equals(Binary64::zero()) {
                None
            } else {
                Some(size.over(close).over(ratio))
            }
        },
        None => None,
    }
}

pub open spec fn vol_range_eff_of(window: Seq<Candle>) -> Option<Binary64> {
    if window.len() == 0 {
        None
    } else {
        let c = newest_candle(window);
        efficiency_of(window, c.high.minus(c.low))
    }
}

pub open spec fn vol_body_eff_of(window: Seq<Candle>) -> Option<Binary64> {
    if window.len() == 0 {
        None
    } else {
        efficiency_of(window, body_length_of(newest_candle(window)))
    }
}

fn efficiency(window: &VecDeque<Candle>, size: Binary64) -> (r: Option<Binary64>)
    requires
        window@.len() > 0,
    ensures
        r == efficiency_of(window@, size),
{
    match volume_ratio(window, 20) {
        Some(ratio) => {
            let close: Binary64 = window[window.len() - 1].close;
            if close.equals(Binary64::zero()) || ratio.equals(Binary64::zero()) {
                None
            } else {
                Some(size.over(close).over(ratio))
            }
        },
        None => None,
    }
}

/// The newest range as a share of the close, per unit of relative volume.
pub fn vol_range_eff(window: &VecDeque<Candle>) -> (r: Option<Binary64>)
    ensures
        r == vol_range_eff_of(window@),
{
    if window.len() == 0 {
        return None;
    }
    let c: Candle = window[window.len() - 1];
    efficiency(window, c.high.minus(c.low))
}

/// The newest body as a share of the close, per unit of relative volume.
pub fn vol_body_eff(window: &VecDeque<Candle>) -> (r: Option<Binary64>)
    ensures
        r == vol_body_eff_of(window@),
{
    if window.len() == 0 {
        return None;
    }
    let c: Candle = window[window.len() - 1];
    efficiency(window, c.close.minus(c.open).abs())
}

/// The true range is none of a candle's range and of the distances of its high and its low from the
/// previous close, up to a rounding, exceeds, and is one of them.
pub proof fn law_true_range(c: Candle, prev_close: Binary64)
    requires
        modest(c.high),
        modest(c.low),
        modest(prev_close),
    ensures
        ({
            let range = true_range_of(c, prev_close);
            let (h, l, p) = (exact(c.high), exact(c.low), exact(prev_close));
            &&& near(range, h - l) || near(range, size(h - p)) || near(range, size(l - p))
            &&& exact(range) >= h - l - (size(h - l) + 1real) / 1_000_000_000_000_000real
            &&& exact(range) >= size(h - p) - (size(h - p) + 1real) / 1_000_000_000_000_000real
            &&& exact(range) >= size(l - p) - (size(l - p) + 1real) / 1_000_000_000_000_000real
        }),
{
    exact::law_difference(c.high, c.low);
    exact::law_difference(c.high, prev_close);
    exact::law_difference(c.low, prev_close);
    let (a, b, d) = (
        c.high.minus(c.low),
        c.high.minus(prev_close).abs(),
        c.low.minus(prev_close).abs(),
    );
    exact::law_max(a, b);
    exact::law_max(a.max(b), d);
}

/// The typical price is a third of high, low and close together, up to a few roundings.
pub proof fn law_typical(c: Candle)
    requires
        modest(c.high),
        modest(c.low),
        modest(c.close),
    ensures
        typical_of(c).is_finite(),
        size(exact(typical_of(c)) - (exact(c.high) + exact(c.low) + exact(c.close)) / 3real)
            * 100_000_000_000_000real <= size(exact(c.high)) + size(exact(c.low)) + size(
            exact(c.close),
        ) + 3real,
{
    exact::lemma_scale();
    exact::lemma_big_is_big();
    exact::law_counts_are_exact(3);
    let (h, l, c_) = (exact(c.high), exact(c.low), exact(c.close));
    let span = size(h) + size(l) + size(c_) + 3real;
    exact::lemma_within_itself(c.high, span);
    exact::lemma_within_plus(c.high, h, span, 0real, c.low);
    let two = c.high.plus(c.low);
    exact::lemma_within_plus(two, h + l, span, 2real, c.close);
    let three = two.plus(c.close);
    let part = span / 3real;
    exact::lemma_within_over(three, h + l + c_, span, 4real, Binary64::count(3), part);
    let e = exact::eps();
    let error = size(exact(typical_of(c)) - (h + l + c_) / 3real);
    assert(error * 100_000_000_000_000real <= span) by (nonlinear_arith)
        requires
            error <= 6real * part * e,
            part == span / 3real,
            span >= 3real,
            e == 1real / 9_007_199_254_740_992real,
    ;
}

/// An index of two sums is the first one's share of both, in percent, up to a few roundings.
pub proof fn law_index_is_share(a: Binary64, b: Binary64)
    requires
        a.is_finite(),
        b.is_finite(),
        exact(a) >= 0real,
        exact(b) > 0real,
        exact(a) <= exact(b) * 1_000_000_000_000_000real,
    ensures
        index_of(a, b).is_finite(),
        size(exact(index_of(a, b)) - 100real * exact(a) / (exact(a) + exact(b))) * 10_000_000_000real
            <= 1real,
{
    exact::lemma_scale();
    exact::lemma_speck_is_tiny();
    exact::lemma_big_is_big();
    exact::law_zero_and_one();
    exact::law_counts_are_exact(100);
    let e = exact::eps();
    let (u, v) = (exact(a), exact(b));
    let r = u / v;
    assert(r * v == u && 0real <= r <= 1_000_000_000_000_000real) by (nonlinear_arith)
        requires
            r == u / v,
            v > 0real,
            0real <= u <= v * 1_000_000_000_000_000real,
    ;
    exact::law_over(a, b);
    let ratio = a.over(b);
    let x = exact(ratio);
    let d = 1real / 1_000_000_000_000_000real;
    assert(r * e <= r * d / 2real) by (nonlinear_arith)
        requires
            r >= 0real,
            e == 1real / 9_007_199_254_740_992real,
            d == 1real / 1_000_000_000_000_000real,
    ;
    let k = 1real + r;
    assert(size(x - r) <= k * d) by (nonlinear_arith)
        requires
            size(x - r) <= r * d / 2real + d / 2real,
            k == 1real + r,
            r >= 0real,
            d > 0real,
    ;
    assert(k * d <= k) by (nonlinear_arith)
        requires
            k >= 1real,
            d == 1real / 1_000_000_000_000_000real,
    ;
    exact::law_plus(Binary64::one(), ratio);
    let whole = Binary64::one().plus(ratio);
    let y = exact(whole);
    let s = size(1real + x);
    assert(s * e <= k * d) by (nonlinear_arith)
        requires
            0real <= s <= 2real * k,
            k >= 1real,
            e == 1real / 9_007_199_254_740_992real,
            d == 1real / 1_000_000_000_000_000real,
    ;
    assert(size(y - k) <= 3real * k * d) by (nonlinear_arith)
        requires
            size(y - k) <= k * d + k * d + d,
            k >= 1real,
            d > 0real,
    ;
    assert(y >= k / 2real) by (nonlinear_arith)
        requires
            y - k >= -(3real * k * d),
            k >= 1real,
            d == 1real / 1_000_000_000_000_000real,
    ;
    let (p, q) = (100real / y, 100real / k);
    assert(p * y == 100real && q * k == 100real && 0real < q <= 100real && 0real < p <= 200real)
        by (nonlinear_arith)
        requires
            p == 100real / y,
            q == 100real / k,
            k >= 1real,
            y >= k / 2real,
    ;
    let g = y - k;
    assert((q - p) * (y * k) == 100real * g) by (nonlinear_arith)
        requires
            p * y == 100real,
            q * k == 100real,
            g == y - k,
    ;
    assert(size(q - p) <= 600real * d) by (nonlinear_arith)
        requires
            (q - p) * (y * k) == 100real * g,
            -(3real * k * d) <= g <= 3real * k * d,
            y >= k / 2real,
            k >= 1real,
            d > 0real,
            size(q - p) == (if q - p < 0real { -(q - p) } else { q - p }),
    ;
    let hundred = Binary64::count(100);
    exact::law_over(hundred, whole);
    let w = exact(hundred.over(whole));
    assert(p * e <= 200real * d) by (nonlinear_arith)
        requires
            0real < p <= 200real,
            e == 1real / 9_007_199_254_740_992real,
            d == 1real / 1_000_000_000_000_000real,
    ;
    assert(size(w - q) <= 801real * d);
    exact::law_minus(hundred, hundred.over(whole));
    let m = size(100real - w);
    assert(m * e <= 101real * d) by (nonlinear_arith)
        requires
            0real <= m <= 101real,
            e == 1real / 9_007_199_254_740_992real,
            d == 1real / 1_000_000_000_000_000real,
    ;
    let share = 100real * u / (u + v);
    assert(share == 100real - q) by (nonlinear_arith)
        requires
            share == 100real * u / (u + v),
            q * k == 100real,
            k == 1real + r,
            r * v == u,
            v > 0real,
            r >= 0real,
    ;
}

/// Whether every number of every candle is finite.
pub open spec fn are_finite(window: Seq<Candle>) -> bool {
    forall|i: int|
        0 <= i < window.len() ==> (#[trigger] window[i]).open.is_finite()
            && window[i].high.is_finite() && window[i].low.is_finite() && window[i].close.is_finite()
            && window[i].volume.is_finite()
}

/// The lowest low and the highest high of the last candles are among them, and none is beyond.
pub proof fn law_extremes(window: Seq<Candle>, n: int) -> (places: (int, int))
    requires
        0 < n <= window.len(),
        are_finite(window),
    ensures
        window.len() - n <= places.0 < window.len(),
        window.len() - n <= places.1 < window.len(),
        lowest_low(window, n) == window[places.0].low,
        highest_high(window, n) == window[places.1].high,
        forall|i: int|
            window.len() - n <= i < window.len() ==> exact(window[places.0].low) <= exact(
                (#[trigger] window[i]).low,
            ) && exact(window[i].high) <= exact(window[places.1].high),
{
    let lows = recent_of(window, n, Field::Low);
    let highs = recent_of(window, n, Field::High);
    let last = window.len() - 1;
    assert forall|i: int| 0 <= i < n implies (#[trigger] lows[i]).is_finite() by {
        assert(window[last - i].low.is_finite());
    }
    assert forall|i: int| 0 <= i < n implies (#[trigger] highs[i]).is_finite() by {
        assert(window[last - i].high.is_finite());
    }
    let k = statistics::law_lowest(lows);
    let m = statistics::law_highest(highs);
    assert forall|i: int| window.len() - n <= i < window.len() implies exact(window[last - k].low)
        <= exact((#[trigger] window[i]).low) && exact(window[i].high) <= exact(
        window[last - m].high,
    ) by {
        assert(lows[last - i] == window[i].low);
        assert(highs[last - i] == window[i].high);
    }
    (last - k, last - m)
}

/// A reading over the last candles is there exactly where the candles are and its divisor is not
/// zero: the average range, the close it is a share of, the close it returns from, and the edge of
/// the channel, which has to be positive.
pub proof fn law_where_there_are_readings(
    window: Seq<Candle>,
    n: int,
    close: Binary64,
    atr: Binary64,
)
    requires
        0 < n,
        are_finite(window),
        close.is_finite(),
        atr.is_finite(),
    ensures
        range_atr14_of(window, None) is None,
        range_atr14_of(window, Some(atr)) is Some <==> window.len() > 0 && exact(atr) != 0real,
        atr_pct_sma_of(window, n, close) is Some <==> window.len() >= n && exact(close) != 0real,
        ret_n_of(window, n) is Some <==> window.len() > n && exact(
            window[window.len() - 1 - n].close,
        ) != 0real,
        donch_low_of(window, n, close) is Some <==> window.len() >= n && forall|i: int|
            window.len() - n <= i < window.len() ==> exact((#[trigger] window[i]).low) > 0real,
        donch_high_of(window, n, close) is Some <==> window.len() >= n && exists|i: int|
            window.len() - n <= i < window.len() && exact((#[trigger] window[i]).high) > 0real,
        body_sum_of(window, n) is Some <==> window.len() >= n,
        flip_count_of(window, n) is Some <==> window.len() >= n,
        count_color_of(window, n, true) is Some <==> window.len() >= n,
        count_color_of(window, n, false) is Some <==> window.len() >= n,
        same_color_ratio_of(window, n) is Some <==> window.len() >= n,
{
    let zero = Binary64::zero();
    exact::law_zero_and_one();
    exact::law_order_is_exact(atr, zero);
    exact::law_order_is_exact(close, zero);
    if window.len() > n {
        let past = window[window.len() - 1 - n];
        assert(past.close.is_finite());
        exact::law_order_is_exact(past.close, zero);
    }
    if window.len() >= n {
        let (i, j) = law_extremes(window, n);
        assert(window[i].low.is_finite() && window[j].high.is_finite());
        exact::law_order_is_exact(window[i].low, zero);
        exact::law_order_is_exact(window[j].high, zero);
    }
}

/// A candle falls, rises or stays as its close is below, above or at its open.
pub proof fn law_courses(c: Candle)
    requires
        c.open.is_finite(),
        c.close.is_finite(),
    ensures
        course_of(c) == Course::Falls <==> exact(c.close) < exact(c.open),
        course_of(c) == Course::Rises <==> exact(c.close) > exact(c.open),
        course_of(c) == Course::Stays <==> exact(c.close) == exact(c.open),
{
    exact::law_order_is_exact(c.open, c.close);
    exact::law_order_is_exact(c.close, c.open);
}

/// Whether a candle goes one way, strictly.
pub open spec fn goes(c: Candle, up: bool) -> bool {
    if up {
        exact(c.open) < exact(c.close)
    } else {
        exact(c.close) < exact(c.open)
    }
}

/// A streak of a length is the last candles all going one way, and the one before them not.
pub proof fn law_streak_length(window: Seq<Candle>, up: bool)
    requires
        are_finite(window),
    ensures
        streak_of(window, up) <= window.len(),
        forall|i: int|
            window.len() - streak_of(window, up) <= i < window.len() ==> goes(
                #[trigger] window[i],
                up,
            ),
        streak_of(window, up) < window.len() ==> !goes(
            window[window.len() - 1 - streak_of(window, up)],
            up,
        ),
    decreases window.len(),
{
    if window.len() > 0 {
        let last = window.len() - 1;
        assert(window[last].open.is_finite());
        candle::law_colors(window.last());
        let fewer = window.drop_last();
        assert(are_finite(fewer)) by {
            assert forall|i: int| 0 <= i < fewer.len() implies (#[trigger] fewer[i]).open.is_finite()
                && fewer[i].high.is_finite() && fewer[i].low.is_finite()
                && fewer[i].close.is_finite() && fewer[i].volume.is_finite() by {
                assert(window[i].open.is_finite());
            }
        }
        law_streak_length(fewer, up);
        assert forall|i: int|
            window.len() - streak_of(window, up) <= i < window.len() implies goes(
            #[trigger] window[i],
            up,
        ) by {
            if i < last {
                assert(fewer[i] == window[i]);
            }
        }
    }
}

/// A session covers the minutes from its start up to, but not at, its end.
pub proof fn law_sessions(minute_of_day: Binary64, from: u64, to: u64)
    requires
        minute_of_day.is_finite(),
        from <= 1_440,
        to <= 1_440,
    ensures
        exact(session_of(minute_of_day, from, to)) == 1real <==> from as int as real <= exact(
            minute_of_day,
        ) < to as int as real,
        exact(session_of(minute_of_day, from, to)) == 0real || exact(
            session_of(minute_of_day, from, to),
        ) == 1real,
{
    exact::law_zero_and_one();
    exact::law_counts_are_exact(from);
    exact::law_counts_are_exact(to);
    exact::law_order_is_exact(Binary64::count(from), minute_of_day);
    exact::law_order_is_exact(minute_of_day, Binary64::count(to));
}

/// Money flows in where the typical price rose on the candle before, out where it fell, and neither
/// where it stayed; the first candle of all has none before it.
pub proof fn law_money_flows(window: Seq<Candle>, start: int, end: int)
    requires
        0 <= start < end <= window.len(),
    ensures
        ({
            let (pos, neg) = money_flows(window, start, end - 1);
            let (into, out) = money_flows(window, start, end);
            let i = end - 1;
            let flow = typical_of(window[i]).times(window[i].volume);
            let (now, before) = (typical_of(window[i]), typical_of(window[i - 1]));
            &&& i == 0 ==> into == pos && out == neg
            &&& i > 0 && now.is_finite() && before.is_finite() ==> {
                &&& exact(now) > exact(before) ==> into == pos.plus(flow) && out == neg
                &&& exact(now) < exact(before) ==> into == pos && out == neg.plus(flow)
                &&& exact(now) == exact(before) ==> into == pos && out == neg
            }
        }),
{
    let i = end - 1;
    let (now, before) = (typical_of(window[i]), typical_of(window[i - 1]));
    if i > 0 && now.is_finite() && before.is_finite() {
        exact::law_order_is_exact(now, before);
        exact::law_order_is_exact(before, now);
    }
}

/// The channel of the candles before the newest one.
proof fn lemma_prior(window: Seq<Candle>, n: int) -> (places: (int, int))
    requires
        0 < n < window.len(),
        are_finite(window),
    ensures
        window.len() - 1 - n <= places.0 < window.len() - 1,
        window.len() - 1 - n <= places.1 < window.len() - 1,
        statistics::lowest_of(candle::column_of(prior_of(window, n), Field::Low))
            == window[places.0].low,
        statistics::highest_of(candle::column_of(prior_of(window, n), Field::High))
            == window[places.1].high,
        forall|i: int|
            window.len() - 1 - n <= i < window.len() - 1 ==> exact(window[places.0].low) <= exact(
                (#[trigger] window[i]).low,
            ) && exact(window[i].high) <= exact(window[places.1].high),
{
    let prior = prior_of(window, n);
    let start = window.len() - 1 - n;
    let lows = candle::column_of(prior, Field::Low);
    let highs = candle::column_of(prior, Field::High);
    assert forall|i: int| 0 <= i < n implies (#[trigger] lows[i]).is_finite() by {
        assert(window[start + i].low.is_finite());
    }
    assert forall|i: int| 0 <= i < n implies (#[trigger] highs[i]).is_finite() by {
        assert(window[start + i].high.is_finite());
    }
    let k = statistics::law_lowest(lows);
    let m = statistics::law_highest(highs);
    assert forall|i: int| start <= i < window.len() - 1 implies exact(window[start + k].low)
        <= exact((#[trigger] window[i]).low) && exact(window[i].high) <= exact(
        window[start + m].high,
    ) by {
        assert(lows[i - start] == window[i].low);
        assert(highs[i - start] == window[i].high);
    }
    (start + k, start + m)
}

/// A low has failed where the newest candle dipped below every low of the candles before it and
/// closed above one of them; a high has failed the other way round. Without enough candles neither
/// has.
pub proof fn law_failed_breaks(window: Seq<Candle>, n: int)
    requires
        0 < n,
        are_finite(window),
    ensures
        failed_low_of(window, n) matches Some(flag) && (exact(flag) == 1real || exact(flag)
            == 0real) && (exact(flag) == 1real <==> {
            &&& window.len() > n
            &&& forall|i: int|
                window.len() - 1 - n <= i < window.len() - 1 ==> exact(window.last().low) < exact(
                    (#[trigger] window[i]).low,
                )
            &&& exists|i: int|
                window.len() - 1 - n <= i < window.len() - 1 && exact((#[trigger] window[i]).low)
                    < exact(window.last().close)
        }),
        failed_high_of(window, n) matches Some(flag) && (exact(flag) == 1real || exact(flag)
            == 0real) && (exact(flag) == 1real <==> {
            &&& window.len() > n
            &&& forall|i: int|
                window.len() - 1 - n <= i < window.len() - 1 ==> exact((#[trigger] window[i]).high)
                    < exact(window.last().high)
            &&& exists|i: int|
                window.len() - 1 - n <= i < window.len() - 1 && exact(window.last().close) < exact(
                    (#[trigger] window[i]).high,
                )
        }),
{
    exact::law_zero_and_one();
    if window.len() > n {
        let (i, j) = lemma_prior(window, n);
        let last = window.len() - 1;
        let c = window[last];
        assert(c == window.last());
        assert(c.low.is_finite());
        let (floor, ceiling) = (window[i].low, window[j].high);
        assert(floor.is_finite() && ceiling.is_finite());
        exact::law_order_is_exact(c.low, floor);
        exact::law_order_is_exact(floor, c.close);
        exact::law_order_is_exact(ceiling, c.high);
        exact::law_order_is_exact(c.close, ceiling);
    }
}

/// A close has reclaimed the middle where it is above the mean of the highest high and the lowest
/// low of the candles before it, up to rounding; without enough candles it has not.
pub proof fn law_middle_is_reclaimed(window: Seq<Candle>, n: int, i: int, j: int)
    requires
        0 < n < window.len(),
        are_finite(window),
        window.len() - 1 - n <= i < window.len() - 1,
        window.len() - 1 - n <= j < window.len() - 1,
        forall|k: int|
            window.len() - 1 - n <= k < window.len() - 1 ==> exact(window[i].low) <= exact(
                (#[trigger] window[k]).low,
            ) && exact(window[k].high) <= exact(window[j].high),
        size(exact(window[i].low)) <= 1_000_000_000_000_000real,
        size(exact(window[j].high)) <= 1_000_000_000_000_000real,
    ensures
        ({
            let middle = (exact(window[j].high) + exact(window[i].low)) / 2real;
            let slack = (size(exact(window[j].high)) + size(exact(window[i].low)) + 2real)
                / 100_000_000_000_000real;
            &&& reclaim_mid_of(window, n) matches Some(flag)
            &&& exact(flag) == 1real || exact(flag) == 0real
            &&& exact(window.last().close) > middle + slack ==> exact(flag) == 1real
            &&& exact(window.last().close) < middle - slack ==> exact(flag) == 0real
        }),
{
    exact::law_zero_and_one();
    exact::lemma_scale();
    exact::lemma_big_is_big();
    exact::law_counts_are_exact(2);
    let (a, b) = lemma_prior(window, n);
    let last = window.len() - 1;
    let c = window[last];
    assert(c == window.last());
    assert(c.close.is_finite());
    let (low, high) = (window[a].low, window[b].high);
    assert(low.is_finite() && high.is_finite());
    assert(exact(low) == exact(window[i].low)) by {
        assert(exact(window[i].low) <= exact(window[a].low));
    }
    assert(exact(high) == exact(window[j].high)) by {
        assert(exact(window[b].high) <= exact(window[j].high));
    }
    let (h, l) = (exact(high), exact(low));
    let span = size(h) + size(l) + 2real;
    exact::lemma_within_itself(high, span);
    exact::lemma_within_plus(high, h, span, 0real, low);
    let part = span / 2real;
    let two = Binary64::count(2);
    exact::lemma_within_over(high.plus(low), h + l, span, 2real, two, part);
    let mid = high.plus(low).over(two);
    exact::law_order_is_exact(mid, c.close);
    let e = exact::eps();
    assert(4real * part * e <= span / 100_000_000_000_000real) by (nonlinear_arith)
        requires
            part == span / 2real,
            span >= 2real,
            e == 1real / 9_007_199_254_740_992real,
    ;
}

/// The upper wick reaches from the upper end of the body to the high, the lower one from the low to
/// the lower end of the body, and the body from the open to the close, each up to a rounding.
pub proof fn law_wicks_and_bodies(c: Candle)
    requires
        modest(c.open),
        modest(c.high),
        modest(c.low),
        modest(c.close),
    ensures
        near(
            wick_of(c, true),
            exact(c.high) - (if exact(c.open) < exact(c.close) {
                exact(c.close)
            } else {
                exact(c.open)
            }),
        ),
        near(
            wick_of(c, false),
            (if exact(c.open) < exact(c.close) {
                exact(c.open)
            } else {
                exact(c.close)
            }) - exact(c.low),
        ),
        near(body_length_of(c), size(exact(c.close) - exact(c.open))),
{
    exact::law_max(c.open, c.close);
    exact::law_difference(c.high, c.open.max(c.close));
    exact::law_difference(c.open.min(c.close), c.low);
    exact::law_difference(c.close, c.open);
}

/// A candle counts plus one where it rises, minus one where it falls, and zero where it stays.
pub proof fn law_signs(c: Candle)
    requires
        c.open.is_finite(),
        c.close.is_finite(),
    ensures
        exact(sign_of(c)) == (if exact(c.close) > exact(c.open) {
            1real
        } else if exact(c.close) < exact(c.open) {
            -1real
        } else {
            0real
        }),
{
    exact::law_zero_and_one();
    exact::law_counts_are_exact(1);
    candle::law_colors(c);
}

/// Oscillators over the last candles are there exactly where the candles are and their highest high
/// is not their lowest low; scores where the deviation is not zero; distances from a mean where the
/// mean is not zero; and relative volumes where the mean volume has not vanished.
pub proof fn law_where_there_are_oscillators(window: Seq<Candle>, n: int, close: Binary64)
    requires
        0 < n,
        are_finite(window),
        close.is_finite(),
    ensures
        ({
            let level = exact(highest_high(window, n)) == exact(lowest_low(window, n));
            &&& stoch_k_of(window, n, close) is Some <==> window.len() >= n && !level
            &&& williams_r_of(window, n) is Some <==> window.len() >= n && !level
        }),
        window.len() < n ==> close_z_of(window, n) is None && vol_z_of(window, n) is None,
        forall|numbers: Seq<Binary64>|
            statistics::sample_deviation_of(numbers).is_finite() ==> (#[trigger] score_of(numbers)
                is Some <==> exact(statistics::sample_deviation_of(numbers)) != 0real),
        recent_mean(window, n, Field::Close).is_finite() ==> (dist_sma_of(window, n, close) is Some
            <==> window.len() >= n && exact(recent_mean(window, n, Field::Close)) != 0real),
        recent_mean(window, n, Field::Volume).is_finite() ==> {
            let enough = window.len() >= n && exact(recent_mean(window, n, Field::Volume)) >= exact(
                Binary64::ratio(false, 1, 1_000_000_000_000),
            );
            &&& volume_ratio_of(window, n) is Some <==> enough
            &&& signed_vol_ratio_of(window, n) is Some <==> enough
        },
{
    exact::law_zero_and_one();
    exact::law_ratio(false, 1, 1_000_000_000_000);
    let zero = Binary64::zero();
    if window.len() >= n {
        let (i, j) = law_extremes(window, n);
        assert(window[i].low.is_finite() && window[j].high.is_finite());
        exact::law_difference_vanishes(window[j].high, window[i].low);
    }
    assert forall|numbers: Seq<Binary64>|
        statistics::sample_deviation_of(numbers).is_finite() implies (#[trigger] score_of(numbers)
        is Some <==> exact(statistics::sample_deviation_of(numbers)) != 0real) by {
        exact::law_order_is_exact(statistics::sample_deviation_of(numbers), zero);
    }
    let (mean, volume) = (
        recent_mean(window, n, Field::Close),
        recent_mean(window, n, Field::Volume),
    );
    if mean.is_finite() {
        exact::law_order_is_exact(mean, zero);
    }
    if volume.is_finite() {
        exact::law_order_is_exact(volume, tiny());
    }
}

/// A price weighted by volume is there where the volume has not vanished; a distance from it where
/// it is not zero; and a flow index where something flowed out.
pub proof fn law_where_there_are_flows(window: Seq<Candle>, n: int, close: Binary64)
    requires
        0 < n,
    ensures
        ({
            let volume = statistics::sum_from(
                Binary64::zero(),
                candle::column_of(candle::newest_of(window, n), Field::Volume),
            );
            volume.is_finite() ==> (vwap_n_of(window, n) is Some <==> window.len() >= n && exact(
                volume,
            ) >= exact(Binary64::ratio(false, 1, 1_000_000_000_000)))
        }),
        vwap_n_of(window, n) is None ==> dist_vwap_of(window, n, close) is None,
        vwap_n_of(window, n) matches Some(price) ==> price.is_finite() ==> (dist_vwap_of(
            window,
            n,
            close,
        ) is Some <==> exact(price) != 0real),
        window.len() < n ==> mfi_n_of(window, n) is None,
        window.len() >= n ==> {
            let out = money_flows(window, window.len() - n, window.len() as int).1;
            out.is_finite() ==> (mfi_n_of(window, n) is Some <==> exact(out) != 0real)
        },
{
    exact::law_zero_and_one();
    exact::law_ratio(false, 1, 1_000_000_000_000);
    let zero = Binary64::zero();
    let volume = statistics::sum_from(
        zero,
        candle::column_of(candle::newest_of(window, n), Field::Volume),
    );
    if volume.is_finite() {
        exact::law_order_is_exact(volume, tiny());
    }
    if vwap_n_of(window, n) is Some && vwap_n_of(window, n).unwrap().is_finite() {
        exact::law_order_is_exact(vwap_n_of(window, n).unwrap(), zero);
    }
    if window.len() >= n {
        let out = money_flows(window, window.len() - n, window.len() as int).1;
        if out.is_finite() {
            exact::law_order_is_exact(out, zero);
        }
    }
}

/// Whether a number is what one price gained on another, as a share of the other, up to a few
/// roundings.
pub open spec fn is_gain(x: Binary64, price: Binary64, base: Binary64) -> bool {
    &&& x.is_finite()
    &&& size(exact(x) - (exact(price) / exact(base) - 1real)) * 10_000_000_000_000real <= exact(price)
        / exact(base) + 1real
}

/// Whether one price is not negative and at most a quadrillion times another, which is positive.
pub open spec fn comparable(price: Binary64, base: Binary64) -> bool {
    &&& price.is_finite()
    &&& base.is_finite()
    &&& exact(base) > 0real
    &&& 0real <= exact(price) <= exact(base) * 1_000_000_000_000_000real
}

proof fn lemma_gain(price: Binary64, base: Binary64)
    requires
        comparable(price, base),
    ensures
        is_gain(price.over(base).minus(Binary64::one()), price, base),
        !base.equals(Binary64::zero()),
        !base.at_most(Binary64::zero()),
{
    exact::lemma_scale();
    exact::lemma_big_is_big();
    exact::law_zero_and_one();
    exact::law_order_is_exact(base, Binary64::zero());
    let (a, b) = (exact(price), exact(base));
    let r = a / b;
    assert(0real <= r <= 1_000_000_000_000_000real) by (nonlinear_arith)
        requires
            r == a / b,
            b > 0real,
            0real <= a <= b * 1_000_000_000_000_000real,
    ;
    exact::law_over(price, base);
    let x = price.over(base);
    let one = Binary64::one();
    exact::lemma_within_rounded(x, r, r + 1real);
    exact::lemma_within_itself(one, 1real);
    exact::lemma_within_minus(x, r, r + 1real, 2real, one, 1real, 1real, 0real);
    let e = exact::eps();
    let error = size(exact(x.minus(one)) - (r - 1real));
    assert(error * 10_000_000_000_000real <= r + 1real) by (nonlinear_arith)
        requires
            error <= 4real * (r + 2real) * e,
            r >= 0real,
            e == 1real / 9_007_199_254_740_992real,
    ;
}

/// A return is what the newest close gained on the close `n` candles before; a distance from an edge
/// of the channel is what a close gained on the lowest low or the highest high of the last candles,
/// and one from a mean what it gained on that mean.
pub proof fn law_gains(window: Seq<Candle>, n: int, close: Binary64)
    requires
        0 < n < window.len(),
        are_finite(window),
    ensures
        comparable(window.last().close, window[window.len() - 1 - n].close) ==> (ret_n_of(window, n)
            matches Some(x) && is_gain(
            x,
            window.last().close,
            window[window.len() - 1 - n].close,
        )),
        comparable(close, lowest_low(window, n)) ==> (donch_low_of(window, n, close) matches Some(x)
            && is_gain(x, close, lowest_low(window, n))),
        comparable(close, highest_high(window, n)) ==> (donch_high_of(window, n, close) matches Some(
            x,
        ) && is_gain(x, close, highest_high(window, n))),
        comparable(close, recent_mean(window, n, Field::Close)) ==> (dist_sma_of(window, n, close)
            matches Some(x) && is_gain(x, close, recent_mean(window, n, Field::Close))),
        vwap_n_of(window, n) matches Some(price) ==> comparable(close, price) ==> (dist_vwap_of(
            window,
            n,
            close,
        ) matches Some(x) && is_gain(x, close, price)),
{
    let (now, then) = (window.last().close, window[window.len() - 1 - n].close);
    if comparable(now, then) {
        lemma_gain(now, then);
    }
    if comparable(close, lowest_low(window, n)) {
        lemma_gain(close, lowest_low(window, n));
    }
    if comparable(close, highest_high(window, n)) {
        lemma_gain(close, highest_high(window, n));
    }
    if comparable(close, recent_mean(window, n, Field::Close)) {
        lemma_gain(close, recent_mean(window, n, Field::Close));
    }
    if vwap_n_of(window, n) is Some && comparable(close, vwap_n_of(window, n).unwrap()) {
        lemma_gain(close, vwap_n_of(window, n).unwrap());
    }
}

/// The true range of a candle reckons with the close before it; the first one of a window, which has
/// none before it, with its own, and is then as long as the candle. Past the window there is none.
pub proof fn law_ranges_reckon_with_the_close_before(window: Seq<Candle>, i: int)
    requires
        0 <= i,
        are_finite(window),
    ensures
        i >= window.len() ==> true_range_at_of(window, i) is None,
        0 < i < window.len() ==> true_range_at_of(window, i) == Some(
            true_range_of(window[i], window[i - 1].close),
        ),
        i == 0 && window.len() > 0 && modest(window[0].high) && modest(window[0].low) && modest(
            window[0].close,
        ) && exact(window[0].low) <= exact(window[0].close) <= exact(window[0].high)
            ==> (true_range_at_of(window, 0) matches Some(range) && range.is_finite() && size(
            exact(range) - (exact(window[0].high) - exact(window[0].low)),
        ) * 100_000_000_000_000real <= exact(window[0].high) - exact(window[0].low) + 1real),
{
    if i == 0 && window.len() > 0 && modest(window[0].high) && modest(window[0].low) && modest(
        window[0].close,
    ) {
        law_true_range(window[0], window[0].close);
    }
}

/// An efficiency is there where there is a relative volume that is not zero and the newest close is
/// not zero; an absorption where the volume has a score and the newest candle a body; and an energy
/// where both the range and the volume have scores.
pub proof fn law_where_there_are_efficiencies(window: Seq<Candle>, part: Binary64, up: bool)
    requires
        window.len() > 0,
        are_finite(window),
    ensures
        volume_ratio_of(window, 20) is None ==> efficiency_of(window, part) is None,
        volume_ratio_of(window, 20) matches Some(ratio) ==> ratio.is_finite() ==> (efficiency_of(
            window,
            part,
        ) is Some <==> exact(ratio) != 0real && exact(window.last().close) != 0real),
        absorption_of(window, up) is Some <==> vol_z_of(window, 24) is Some && exact(
            window.last().close,
        ) != exact(window.last().open),
        breakout_energy_of(window) is Some <==> range_pct_z_of(window, 24) is Some && vol_z_of(
            window,
            24,
        ) is Some,
{
    exact::law_zero_and_one();
    let zero = Binary64::zero();
    let last = window.len() - 1;
    assert(window[last].close.is_finite() && window.last() == window[last]);
    exact::law_order_is_exact(window.last().close, zero);
    exact::law_difference_vanishes(window.last().close, window.last().open);
    if volume_ratio_of(window, 20) is Some && volume_ratio_of(window, 20).unwrap().is_finite() {
        exact::law_order_is_exact(volume_ratio_of(window, 20).unwrap(), zero);
    }
}

/// A slope is taken over a quarter of the candles, at least one: what the price weighted by volume
/// gained on the one that many candles before.
pub proof fn law_slopes(window: Seq<Candle>, n: int)
    requires
        0 < n,
    ensures
        ({
            let back = if n < 8 {
                1
            } else {
                n / 4
            };
            let before = vwap_of(window.subrange(window.len() - back - n, window.len() - back));
            &&& window.len() < n + back ==> vwap_slope_of(window, n) is None
            &&& window.len() >= n + back ==> (vwap_n_of(window, n) matches Some(now) ==> before
                matches Some(then) ==> comparable(now, then) ==> (vwap_slope_of(window, n)
                matches Some(x) && is_gain(x, now, then)))
        }),
{
    let back = if n < 8 {
        1
    } else {
        n / 4
    };
    let start = window.len() - back - n;
    if start >= 0 {
        assert(start + n == window.len() - back);
        let before = vwap_of(window.subrange(start, start + n));
        if vwap_n_of(window, n) is Some && before is Some && comparable(
            vwap_n_of(window, n).unwrap(),
            before.unwrap(),
        ) {
            lemma_gain(vwap_n_of(window, n).unwrap(), before.unwrap());
        }
    }
}

/// A share of one distance of prices in another that it does not exceed, in percent.
proof fn lemma_percent(a: Binary64, b: Binary64, c: Binary64, d: Binary64, hundred: Binary64)
    requires
        modest(a),
        modest(b),
        modest(c),
        modest(d),
        (exact(c) - exact(d)) * 1_000_000_000_000real >= 1real,
        0real <= exact(a) - exact(b) <= exact(c) - exact(d),
        hundred.is_finite(),
        size(exact(hundred)) == 100real,
    ensures
        ({
            let percent = a.minus(b).over(c.minus(d)).times(hundred);
            let share = (exact(a) - exact(b)) / (exact(c) - exact(d));
            &&& percent.is_finite()
            &&& size(exact(percent) - share * exact(hundred)) * 1_000_000_000_000real <= 1real
        }),
{
    exact::lemma_scale();
    exact::lemma_speck_is_tiny();
    exact::lemma_big_is_big();
    let (e, t) = (exact::eps(), exact::speck());
    assert(e == 1real / 9_007_199_254_740_992real);
    exact::law_minus(a, b);
    exact::law_minus(c, d);
    let (n, m) = (exact(a) - exact(b), exact(c) - exact(d));
    let (x, y) = (exact(a.minus(b)), exact(c.minus(d)));
    exact::lemma_not_negative(a.minus(b), n);
    let tt = 1real / 10_000_000_000real;
    assert(t <= m * tt * e) by (nonlinear_arith)
        requires
            m * 1_000_000_000_000real >= 1real,
            tt == 1real / 10_000_000_000real,
            t <= 1real / 1_000_000_000_000_000_000_000_000_000_000_000_000_000real,
            e == 1real / 9_007_199_254_740_992real,
    ;
    assert(y > 0real) by (nonlinear_arith)
        requires
            y >= m - (m * e + t),
            m * 1_000_000_000_000real >= 1real,
            t <= 1real / 1_000_000_000_000_000_000_000_000_000_000_000_000_000real,
            e == 1real / 9_007_199_254_740_992real,
    ;
    let q = n / m;
    let p = x / y;
    assert(q * m == n && p * y == x && 0real <= q <= 1real) by (nonlinear_arith)
        requires
            q == n / m,
            p == x / y,
            m * 1_000_000_000_000real >= 1real,
            0real <= n <= m,
            y > 0real,
    ;
    exact::lemma_quotient(n, m, x, y, q, p, e, tt);
    assert(4real * q * e + 4real * tt * e <= 5real * e) by (nonlinear_arith)
        requires
            0real <= q <= 1real,
            tt == 1real / 10_000_000_000real,
            e > 0real,
    ;
    assert(size(p - q) <= 5real * e);
    assert(size(p) <= 2real);
    exact::law_over(a.minus(b), c.minus(d));
    let ratio = a.minus(b).over(c.minus(d));
    let r = exact(ratio);
    let sp = size(p);
    assert(sp * e <= 2real * e) by (nonlinear_arith)
        requires
            0real <= sp <= 2real,
            e > 0real,
    ;
    assert(size(r - q) <= 8real * e);
    let h = exact(hundred);
    let rh = r * h;
    assert(size(rh - q * h) <= 800real * e) by (nonlinear_arith)
        requires
            -(8real * e) <= r - q <= 8real * e,
            h == 100real || h == -100real,
            rh == r * h,
            size(rh - q * h) == (if rh - q * h < 0real { -(rh - q * h) } else { rh - q * h }),
    ;
    assert(size(rh) <= 300real) by (nonlinear_arith)
        requires
            -2real <= r <= 2real,
            h == 100real || h == -100real,
            rh == r * h,
            size(rh) == (if rh < 0real { -rh } else { rh }),
    ;
    exact::law_times(ratio, hundred);
    let srh = size(rh);
    assert(srh * e <= 300real * e) by (nonlinear_arith)
        requires
            0real <= srh <= 300real,
            e > 0real,
    ;
    let percent = exact(ratio.times(hundred));
    assert(size(percent - q * h) <= 1_101real * e);
}

/// Of a close between the lowest low and the highest high of the last candles, the one oscillator
/// says how far up it is, from 0 to 100, and the other how far below the top, from 0 to -100, up to
/// rounding.
pub proof fn law_oscillators(window: Seq<Candle>, n: int, close: Binary64)
    requires
        0 < n <= window.len(),
        are_finite(window),
        close == window.last().close,
        modest(close),
        modest(lowest_low(window, n)),
        modest(highest_high(window, n)),
        exact(lowest_low(window, n)) <= exact(close) <= exact(highest_high(window, n)),
        (exact(highest_high(window, n)) - exact(lowest_low(window, n))) * 1_000_000_000_000real
            >= 1real,
    ensures
        ({
            let (low, high) = (exact(lowest_low(window, n)), exact(highest_high(window, n)));
            let c = exact(close);
            &&& stoch_k_of(window, n, close) matches Some(k)
            &&& k.is_finite()
            &&& size(exact(k) - (c - low) / (high - low) * 100real) * 1_000_000_000_000real <= 1real
            &&& williams_r_of(window, n) matches Some(w)
            &&& w.is_finite()
            &&& size(exact(w) - (high - c) / (high - low) * (-100real)) * 1_000_000_000_000real
                <= 1real
        }),
{
    exact::law_counts_are_exact(100);
    let (low, high) = (lowest_low(window, n), highest_high(window, n));
    exact::law_difference_vanishes(high, low);
    lemma_percent(close, low, high, low, Binary64::count(100));
    lemma_percent(high, close, high, low, Binary64::ratio(true, 100, 1));
}

} // verus!
