//! Running meters: each is fed candle by candle and keeps only what the next reading needs.

use vstd::prelude::*;
use crate::binary64::Binary64;
use crate::candle::Candle;
use crate::exact;
use crate::exact::{exact, modest, near, size};
use crate::indicators;

verus! {

/// A meter that is fed candle by candle and may have a reading.
pub trait Meter: Sized + Send + Sync {
    /// The meter after one more candle.
    spec fn fed(self, candle: Candle) -> Self;

    /// What it reads; `None` before it has seen enough.
    spec fn reading(&self) -> Option<Binary64>;

    fn feed(&mut self, candle: &Candle)
        ensures
            *final(self) == old(self).fed(*candle),
    ;

    fn read(&self) -> (r: Option<Binary64>)
        ensures
            r == self.reading(),
    ;
}

/// A meter after some more candles.
pub open spec fn fed_all<M: Meter>(meter: M, more: Seq<Candle>) -> M
    decreases more.len(),
{
    if more.len() == 0 {
        meter
    } else {
        fed_all(meter.fed(more[0]), more.drop_first())
    }
}

/// Some more candles after one are that one and those.
pub proof fn lemma_fed_all_one<M: Meter>(meter: M, candle: Candle, more: Seq<Candle>)
    ensures
        fed_all(meter, seq![candle] + more) == fed_all(meter.fed(candle), more),
{
    assert((seq![candle] + more).drop_first() =~= more);
}

/// `previous` moved towards `next` by the share `alpha` of their distance; `next` at the start.
pub open spec fn smoothed_of(
    previous: Option<Binary64>,
    alpha: Binary64,
    next: Binary64,
) -> Binary64 {
    match previous {
        Some(p) => p.plus(alpha.times(next.minus(p))),
        None => next,
    }
}

pub fn smoothed(previous: Option<Binary64>, alpha: Binary64, next: Binary64) -> (r: Binary64)
    ensures
        r == smoothed_of(previous, alpha, next),
{
    match previous {
        Some(p) => p.plus(alpha.times(next.minus(p))),
        None => next,
    }
}

/// One part in `period`.
pub open spec fn part_of(period: usize) -> Binary64 {
    Binary64::one().over(Binary64::count(period as u64))
}

/// Relative strength index over exponentially smoothed gains and losses.
#[derive(Clone, Copy, Debug)]
pub struct PyRsiState {
    pub alpha: Binary64,
    pub last_close: Option<Binary64>,
    pub avg_gain: Option<Binary64>,
    pub avg_loss: Option<Binary64>,
}

/// What a close gained on the close before it.
pub open spec fn gain_of(prev: Binary64, close: Binary64) -> Binary64 {
    close.minus(prev).max(Binary64::zero())
}

/// What a close lost on the close before it.
pub open spec fn loss_of(prev: Binary64, close: Binary64) -> Binary64 {
    close.minus(prev).min(Binary64::zero()).negated().max(Binary64::zero())
}

impl PyRsiState {
    pub open spec fn fresh(period: usize) -> PyRsiState {
        PyRsiState { alpha: part_of(period), last_close: None, avg_gain: None, avg_loss: None }
    }

    pub open spec fn updated(self, close: Binary64) -> PyRsiState {
        match self.last_close {
            Some(prev) => PyRsiState {
                alpha: self.alpha,
                last_close: Some(close),
                avg_gain: Some(smoothed_of(self.avg_gain, self.alpha, gain_of(prev, close))),
                avg_loss: Some(smoothed_of(self.avg_loss, self.alpha, loss_of(prev, close))),
            },
            None => PyRsiState { last_close: Some(close), ..self },
        }
    }

    pub open spec fn get_spec(&self) -> Option<Binary64> {
        match (self.avg_gain, self.avg_loss) {
            (Some(gain), Some(loss)) => if loss.equals(Binary64::zero()) {
                None
            } else {
                Some(indicators::index_of(gain, loss))
            },
            _ => None,
        }
    }

    pub fn new(period: usize) -> (r: PyRsiState)
        ensures
            r == PyRsiState::fresh(period),
    {
        PyRsiState {
            alpha: Binary64::one().over(Binary64::count(period as u64)),
            last_close: None,
            avg_gain: None,
            avg_loss: None,
        }
    }

    pub fn update(&mut self, close: Binary64)
        ensures
            *final(self) == old(self).updated(close),
    {
        if let Some(prev) = self.last_close {
            let delta: Binary64 = close.minus(prev);
            let gain: Binary64 = delta.max(Binary64::zero());
            let loss: Binary64 = delta.min(Binary64::zero()).negated().max(Binary64::zero());
            self.avg_gain = Some(smoothed(self.avg_gain, self.alpha, gain));
            self.avg_loss = Some(smoothed(self.avg_loss, self.alpha, loss));
        }
        self.last_close = Some(close);
    }

    /// The index, from 0 to 100; `None` before two closes and where nothing was lost.
    #[verifier::when_used_as_spec(get_spec)]
    pub fn get(&self) -> (r: Option<Binary64>)
        ensures
            r == self.get_spec(),
    {
        match (self.avg_gain, self.avg_loss) {
            (Some(gain), Some(loss)) => if loss.equals(Binary64::zero()) {
                None
            } else {
                Some(indicators::index(gain, loss))
            },
            _ => None,
        }
    }
}

/// Convergence and divergence of a fast and a slow smoothed close.
#[derive(Clone, Copy, Debug)]
pub struct PyMacdState {
    pub ema12: Option<Binary64>,
    pub ema26: Option<Binary64>,
    pub signal: Option<Binary64>,
    pub line: Option<Binary64>,
    pub hist: Option<Binary64>,
}

/// Smoothing share of an average over `n` candles: two parts in `n + 1`.
pub open spec fn share_of(n: u64) -> Binary64 {
    Binary64::count(2).over(Binary64::count((n + 1) as u64))
}

fn share(n: u64) -> (r: Binary64)
    requires
        n < u64::MAX,
    ensures
        r == share_of(n),
{
    Binary64::count(2).over(Binary64::count(n + 1))
}

/// `number` as a share of `close`; `None` where the close is zero.
pub open spec fn share_of_close(number: Option<Binary64>, close: Binary64) -> Option<Binary64> {
    match number {
        Some(x) => if close.equals(Binary64::zero()) {
            None
        } else {
            Some(x.over(close))
        },
        None => None,
    }
}

fn in_closes(number: Option<Binary64>, close: Binary64) -> (r: Option<Binary64>)
    ensures
        r == share_of_close(number, close),
{
    match number {
        Some(x) => if close.equals(Binary64::zero()) {
            None
        } else {
            Some(x.over(close))
        },
        None => None,
    }
}

impl PyMacdState {
    pub open spec fn fresh() -> PyMacdState {
        PyMacdState { ema12: None, ema26: None, signal: None, line: None, hist: None }
    }

    pub open spec fn updated(self, close: Binary64) -> PyMacdState {
        let fast = smoothed_of(self.ema12, share_of(12), close);
        let slow = smoothed_of(self.ema26, share_of(26), close);
        let line = fast.minus(slow);
        let signal = smoothed_of(self.signal, share_of(9), line);
        PyMacdState {
            ema12: Some(fast),
            ema26: Some(slow),
            signal: Some(signal),
            line: Some(line),
            hist: Some(line.minus(signal)),
        }
    }

    pub fn new() -> (r: PyMacdState)
        ensures
            r == PyMacdState::fresh(),
    {
        PyMacdState { ema12: None, ema26: None, signal: None, line: None, hist: None }
    }

    pub fn update(&mut self, close: Binary64)
        ensures
            *final(self) == old(self).updated(close),
    {
        let fast: Binary64 = smoothed(self.ema12, share(12), close);
        let slow: Binary64 = smoothed(self.ema26, share(26), close);
        let line: Binary64 = fast.minus(slow);
        let signal: Binary64 = smoothed(self.signal, share(9), line);
        self.ema12 = Some(fast);
        self.ema26 = Some(slow);
        self.signal = Some(signal);
        self.line = Some(line);
        self.hist = Some(line.minus(signal));
    }

    /// The line as a share of `close`.
    pub fn line_pct(&self, close: Binary64) -> (r: Option<Binary64>)
        ensures
            r == share_of_close(self.line, close),
    {
        in_closes(self.line, close)
    }

    /// The histogram as a share of `close`.
    pub fn hist_pct(&self, close: Binary64) -> (r: Option<Binary64>)
        ensures
            r == share_of_close(self.hist, close),
    {
        in_closes(self.hist, close)
    }
}

/// Exponentially smoothed true range.
#[derive(Clone, Copy, Debug)]
pub struct PyAtrEwmState {
    pub alpha: Binary64,
    pub last_close: Option<Binary64>,
    pub atr: Option<Binary64>,
}

impl PyAtrEwmState {
    pub open spec fn fresh(period: usize) -> PyAtrEwmState {
        PyAtrEwmState { alpha: part_of(period), last_close: None, atr: None }
    }

    pub open spec fn updated(self, candle: Candle) -> PyAtrEwmState {
        let prev_close = match self.last_close {
            Some(close) => close,
            None => candle.close,
        };
        let range = indicators::true_range_of(candle, prev_close);
        PyAtrEwmState {
            alpha: self.alpha,
            last_close: Some(candle.close),
            atr: Some(smoothed_of(self.atr, self.alpha, range)),
        }
    }

    pub fn new(period: usize) -> (r: PyAtrEwmState)
        ensures
            r == PyAtrEwmState::fresh(period),
    {
        PyAtrEwmState {
            alpha: Binary64::one().over(Binary64::count(period as u64)),
            last_close: None,
            atr: None,
        }
    }

    pub fn update(&mut self, candle: &Candle)
        ensures
            *final(self) == old(self).updated(*candle),
    {
        let prev_close: Binary64 = match self.last_close {
            Some(close) => close,
            None => candle.close,
        };
        let range: Binary64 = indicators::true_range(candle, prev_close);
        self.atr = Some(smoothed(self.atr, self.alpha, range));
        self.last_close = Some(candle.close);
    }

    /// The smoothed range; `None` before the first candle.
    pub fn raw(&self) -> (r: Option<Binary64>)
        ensures
            r == self.atr,
    {
        self.atr
    }
}

/// Heikin-Ashi candle built on each candle and on the Heikin-Ashi candle before it.
#[derive(Clone, Copy, Debug)]
pub struct HaState {
    pub prev_open: Option<Binary64>,
    pub prev_close: Option<Binary64>,
    pub ha_body: Option<Binary64>,
    pub ha_body_ratio: Option<Binary64>,
    pub ha_close_pos: Option<Binary64>,
}

/// `part` as a share of `range`; `None` where the range has vanished.
pub open spec fn share_of_range(part: Binary64, range: Binary64) -> Option<Binary64> {
    if range.less(indicators::tiny()) {
        None
    } else {
        Some(part.over(range))
    }
}

fn in_ranges(part: Binary64, range: Binary64) -> (r: Option<Binary64>)
    ensures
        r == share_of_range(part, range),
{
    if range.less(indicators::tiny()) {
        None
    } else {
        Some(part.over(range))
    }
}

impl HaState {
    pub open spec fn fresh() -> HaState {
        HaState {
            prev_open: None,
            prev_close: None,
            ha_body: None,
            ha_body_ratio: None,
            ha_close_pos: None,
        }
    }

    pub open spec fn updated(self, c: Candle) -> HaState {
        let two = Binary64::count(2);
        let close = c.open.plus(c.high).plus(c.low).plus(c.close).over(Binary64::count(4));
        let open = match (self.prev_open, self.prev_close) {
            (Some(po), Some(pc)) => po.plus(pc).over(two),
            _ => c.open.plus(c.close).over(two),
        };
        let high = c.high.max(open).max(close);
        let low = c.low.min(open).min(close);
        let range = high.minus(low);
        HaState {
            prev_open: Some(open),
            prev_close: Some(close),
            ha_body: share_of_close(Some(close.minus(open)), c.close),
            ha_body_ratio: share_of_range(close.minus(open).abs(), range),
            ha_close_pos: share_of_range(close.minus(low), range),
        }
    }

    pub fn new() -> (r: HaState)
        ensures
            r == HaState::fresh(),
    {
        HaState {
            prev_open: None,
            prev_close: None,
            ha_body: None,
            ha_body_ratio: None,
            ha_close_pos: None,
        }
    }

    pub fn update(&mut self, c: &Candle)
        ensures
            *final(self) == old(self).updated(*c),
    {
        let two: Binary64 = Binary64::count(2);
        let close: Binary64 = c.open.plus(c.high).plus(c.low).plus(c.close).over(
            Binary64::count(4),
        );
        let open: Binary64 = match (self.prev_open, self.prev_close) {
            (Some(po), Some(pc)) => po.plus(pc).over(two),
            _ => c.open.plus(c.close).over(two),
        };
        let high: Binary64 = c.high.max(open).max(close);
        let low: Binary64 = c.low.min(open).min(close);
        let range: Binary64 = high.minus(low);
        self.ha_body = in_closes(Some(close.minus(open)), c.close);
        self.ha_body_ratio = in_ranges(close.minus(open).abs(), range);
        self.ha_close_pos = in_ranges(close.minus(low), range);
        self.prev_open = Some(open);
        self.prev_close = Some(close);
    }
}

impl Meter for PyRsiState {
    open spec fn fed(self, candle: Candle) -> Self {
        self.updated(candle.close)
    }

    open spec fn reading(&self) -> Option<Binary64> {
        self.get_spec()
    }

    fn feed(&mut self, candle: &Candle) {
        self.update(candle.close);
    }

    fn read(&self) -> (r: Option<Binary64>) {
        self.get()
    }
}

impl Meter for PyAtrEwmState {
    open spec fn fed(self, candle: Candle) -> Self {
        self.updated(candle)
    }

    open spec fn reading(&self) -> Option<Binary64> {
        self.atr
    }

    fn feed(&mut self, candle: &Candle) {
        self.update(candle);
    }

    fn read(&self) -> (r: Option<Binary64>) {
        self.raw()
    }
}

/// A close above the one before it gains the difference and loses nothing; one below it loses the
/// difference and gains nothing; and the two are never negative.
pub proof fn law_gains_and_losses(prev: Binary64, close: Binary64)
    requires
        modest(prev),
        modest(close),
    ensures
        ({
            let moved = exact(close) - exact(prev);
            let (gain, loss) = (gain_of(prev, close), loss_of(prev, close));
            &&& gain.is_finite() && loss.is_finite()
            &&& exact(gain) >= 0real && exact(loss) >= 0real
            &&& moved >= 0real ==> near(gain, moved) && exact(loss) == 0real
            &&& moved <= 0real ==> near(loss, -moved) && exact(gain) == 0real
        }),
{
    exact::law_zero_and_one();
    exact::law_difference(close, prev);
    let (zero, moved) = (Binary64::zero(), close.minus(prev));
    exact::law_minus_keeps_bounds(close, prev, zero);
    exact::law_order_is_exact(zero, moved);
    exact::law_order_is_exact(moved, zero);
    exact::law_max(moved, zero);
    let down = moved.min(zero);
    exact::law_signs_are_exact(down);
    exact::law_max(down.negated(), zero);
}

/// Smoothing begins with the first number, and from then on moves by a share of the distance towards
/// the next one, up to a few roundings.
pub proof fn law_smoothing(previous: Binary64, alpha: Binary64, next: Binary64)
    requires
        modest(previous),
        modest(next),
        alpha.is_finite(),
        0real <= exact(alpha) <= 1real,
    ensures
        smoothed_of(None, alpha, next) == next,
        smoothed_of(Some(previous), alpha, next).is_finite(),
        size(
            exact(smoothed_of(Some(previous), alpha, next)) - (exact(previous) + exact(alpha) * (
            exact(next) - exact(previous))),
        ) * 100_000_000_000_000real <= size(exact(previous)) + size(exact(next)) + 2real,
{
    exact::lemma_scale();
    exact::lemma_big_is_big();
    let (p, a, n) = (exact(previous), exact(alpha), exact(next));
    let (u, v) = (size(p) + 1real, size(n) + 1real);
    let e = exact::eps();
    exact::lemma_within_itself(previous, u);
    exact::lemma_within_itself(next, v);
    exact::lemma_within_minus(next, n, v, 0real, previous, p, u, 0real);
    let d = next.minus(previous);
    exact::lemma_within_times(d, n - p, v + u, 2real, alpha, 1real);
    let step = alpha.times(d);
    let x = exact(step);
    let target = (n - p) * a;
    assert((v + u) * 1real == v + u) by (nonlinear_arith);
    let span = u + v;
    assert(size(x - target) <= 4real * span * e);
    assert(4real * span * e <= span / 100real) by (nonlinear_arith)
        requires
            span >= 2real,
            e == 1real / 9_007_199_254_740_992real,
    ;
    exact::law_plus(previous, step);
    let r = exact(previous.plus(step));
    let s = size(p + x);
    assert(size(target) <= span);
    assert(s <= 3real * span);
    assert(s * e <= 3real * span * e) by (nonlinear_arith)
        requires
            0real <= s <= 3real * span,
            e >= 0real,
    ;
    assert(a * (n - p) == target) by (nonlinear_arith)
        requires
            target == (n - p) * a,
    ;
    exact::lemma_speck_is_tiny();
    let error = size(r - (p + target));
    assert(error * 100_000_000_000_000real <= span) by (nonlinear_arith)
        requires
            error <= 7real * span * e + 1real
                / 1_000_000_000_000_000_000_000_000_000_000_000_000_000real,
            span >= 2real,
            e == 1real / 9_007_199_254_740_992real,
    ;
}

/// The strength of a meter that has seen gains and losses is the gains' share of both, in percent,
/// up to a few roundings; there is none before two closes, or where nothing was lost.
pub proof fn law_strength(meter: PyRsiState)
    ensures
        meter.avg_gain is None || meter.avg_loss is None ==> meter.get_spec() is None,
        meter.avg_gain matches Some(gain) ==> meter.avg_loss matches Some(loss) ==> gain.is_finite()
            && loss.is_finite() ==> {
            &&& meter.get_spec() is None <==> exact(loss) == 0real
            &&& exact(gain) >= 0real && exact(loss) > 0real && exact(gain) <= exact(loss)
                * 1_000_000_000_000_000real ==> {
                &&& meter.get_spec() matches Some(rsi)
                &&& rsi.is_finite()
                &&& size(exact(rsi) - 100real * exact(gain) / (exact(gain) + exact(loss)))
                    * 10_000_000_000real <= 1real
            }
        },
{
    exact::law_zero_and_one();
    if meter.avg_gain is Some && meter.avg_loss is Some {
        let (gain, loss) = (meter.avg_gain.unwrap(), meter.avg_loss.unwrap());
        if gain.is_finite() && loss.is_finite() {
            exact::law_order_is_exact(loss, Binary64::zero());
            if exact(gain) >= 0real && exact(loss) > 0real && exact(gain) <= exact(loss)
                * 1_000_000_000_000_000real {
                indicators::law_index_is_share(gain, loss);
            }
        }
    }
}

/// A number is a share of a close wherever the close is not zero.
pub proof fn law_shares_of_closes(number: Binary64, close: Binary64)
    requires
        close.is_finite(),
    ensures
        share_of_close(None, close) is None,
        share_of_close(Some(number), close) is None <==> exact(close) == 0real,
        number.is_finite() && exact(close) != 0real && size(exact(number) / exact(close))
            <= exact::big() ==> exact::rounds_to(
            share_of_close(Some(number), close).unwrap(),
            exact(number) / exact(close),
        ),
{
    exact::law_zero_and_one();
    exact::law_order_is_exact(close, Binary64::zero());
    if number.is_finite() && exact(close) != 0real && size(exact(number) / exact(close))
        <= exact::big() {
        exact::law_over(number, close);
    }
}

/// A meter moves with a share of one part in its period, up to a rounding.
pub proof fn law_parts(period: usize)
    requires
        0 < period < 1_000_000,
    ensures
        exact::rounds_to(part_of(period), 1real / (period as int as real)),
        PyRsiState::fresh(period).alpha == part_of(period),
        PyAtrEwmState::fresh(period).alpha == part_of(period),
        exact::rounds_to(
            share_of(period as u64),
            2real / ((period + 1) as int as real),
        ),
{
    exact::lemma_scale();
    exact::lemma_big_is_big();
    exact::law_zero_and_one();
    exact::law_counts_are_exact(period as u64);
    exact::law_counts_are_exact(2);
    exact::law_counts_are_exact((period + 1) as u64);
    let n = period as int as real;
    assert(0real < 1real / n <= 1real) by (nonlinear_arith)
        requires
            n >= 1real,
    ;
    assert(0real < 2real / (n + 1real) <= 1real) by (nonlinear_arith)
        requires
            n >= 1real,
    ;
    exact::law_over(Binary64::one(), Binary64::count(period as u64));
    exact::law_over(Binary64::count(2), Binary64::count((period + 1) as u64));
}

/// A smoothed candle closes at the mean of its four prices and opens at the middle of the smoothed
/// candle before it, or of its own open and close where there is none, up to a few roundings.
pub proof fn law_smoothed_candles(meter: HaState, c: Candle)
    requires
        modest(c.open),
        modest(c.high),
        modest(c.low),
        modest(c.close),
        meter.prev_open matches Some(x) ==> modest(x),
        meter.prev_close matches Some(x) ==> modest(x),
    ensures
        ({
            let (o, h, l, k) = (exact(c.open), exact(c.high), exact(c.low), exact(c.close));
            let (a, b) = match (meter.prev_open, meter.prev_close) {
                (Some(open), Some(close)) => (exact(open), exact(close)),
                _ => (o, k),
            };
            let after = meter.updated(c);
            &&& after.prev_close matches Some(close)
            &&& close.is_finite()
            &&& size(exact(close) - (o + h + l + k) / 4real) * 100_000_000_000_000real <= size(o)
                + size(h) + size(l) + size(k) + 4real
            &&& after.prev_open matches Some(open)
            &&& open.is_finite()
            &&& size(exact(open) - (a + b) / 2real) * 100_000_000_000_000real <= size(a) + size(b)
                + 2real
        }),
{
    exact::lemma_scale();
    exact::lemma_big_is_big();
    exact::law_counts_are_exact(2);
    exact::law_counts_are_exact(4);
    let e = exact::eps();
    let (o, h, l, k) = (exact(c.open), exact(c.high), exact(c.low), exact(c.close));
    let span = size(o) + size(h) + size(l) + size(k) + 4real;
    exact::lemma_within_itself(c.open, span);
    exact::lemma_within_plus(c.open, o, span, 0real, c.high);
    exact::lemma_within_plus(c.open.plus(c.high), o + h, span, 2real, c.low);
    exact::lemma_within_plus(c.open.plus(c.high).plus(c.low), o + h + l, span, 4real, c.close);
    let sum = c.open.plus(c.high).plus(c.low).plus(c.close);
    let four = Binary64::count(4);
    exact::lemma_within_over(sum, o + h + l + k, span, 6real, four, span / 4real);
    let error = size(exact(sum.over(four)) - (o + h + l + k) / 4real);
    assert(error * 100_000_000_000_000real <= span) by (nonlinear_arith)
        requires
            error <= 8real * (span / 4real) * e,
            span >= 4real,
            e == 1real / 9_007_199_254_740_992real,
    ;
    let (x, y) = match (meter.prev_open, meter.prev_close) {
        (Some(open), Some(close)) => (open, close),
        _ => (c.open, c.close),
    };
    let (a, b) = (exact(x), exact(y));
    let width = size(a) + size(b) + 2real;
    exact::lemma_within_itself(x, width);
    exact::lemma_within_plus(x, a, width, 0real, y);
    let two = Binary64::count(2);
    exact::lemma_within_over(x.plus(y), a + b, width, 2real, two, width / 2real);
    let off = size(exact(x.plus(y).over(two)) - (a + b) / 2real);
    assert(off * 100_000_000_000_000real <= width) by (nonlinear_arith)
        requires
            off <= 4real * (width / 2real) * e,
            width >= 2real,
            e == 1real / 9_007_199_254_740_992real,
    ;
}

/// The line is the fast average less the slow one, and the histogram the line less its own average;
/// the averages move with two parts in 13, in 27 and in 10, and begin with what they first see.
pub proof fn law_macd(meter: PyMacdState, close: Binary64)
    ensures
        ({
            let after = meter.updated(close);
            &&& after.ema12 matches Some(fast) && after.ema26 matches Some(slow) && after.line == Some(
                fast.minus(slow),
            )
            &&& after.line matches Some(line) && after.signal matches Some(signal) && after.hist
                == Some(line.minus(signal))
            &&& meter.ema12 is None ==> after.ema12 == Some(close)
            &&& meter.ema26 is None ==> after.ema26 == Some(close)
            &&& meter.signal is None ==> after.signal == after.line
            &&& exact::rounds_to(share_of(12), 2real / 13real)
            &&& exact::rounds_to(share_of(26), 2real / 27real)
            &&& exact::rounds_to(share_of(9), 2real / 10real)
        }),
{
    law_parts(12);
    law_parts(26);
    law_parts(9);
}

} // verus!
