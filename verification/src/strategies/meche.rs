//! Fades of exhausted moves: after a violent candle, bet on the way back.

use std::collections::VecDeque;
use vstd::prelude::*;
use vstd::arithmetic::power2::*;
use vstd::string::*;
use crate::binary64::{
    law_half_more_is_not_less, law_minus_keeps_order, lemma_count_pattern, signed, Binary64,
};
use crate::candle;
use crate::candle::{Candle, Field};
use crate::exact;
use crate::exact::{exact, size};
use crate::indicators;
use crate::meters;
use crate::meters::{Meter, PyAtrEwmState, PyRsiState};
use crate::microstructure::MicrostructureSnapshot;
use crate::rounding;
use crate::statistics;
use crate::strategy;
use crate::strategy::{Call, MicrostructureDecisionSummary, Prediction, Signal, Strategy};
use crate::text;

verus! {

/// How many closes the Bollinger bands cover.
pub const BOLL_PERIOD: usize = 20;

/// How many candles the Donchian channel covers.
pub const DONCH_PERIOD: usize = 12;

/// How many closes the standard score covers.
pub const Z_PERIOD: usize = 24;

/// The number `p / q`.
pub open spec fn number_of(p: u64, q: u64) -> Binary64 {
    Binary64::ratio(false, p, q)
}

/// A candle's body as a share of its range; `None` where the range has vanished.
pub open spec fn body_ratio_of(c: Candle) -> Option<Binary64> {
    let range = c.high.minus(c.low);
    if indicators::tiny().less(range.abs()) {
        Some(c.close.minus(c.open).abs().over(range))
    } else {
        None
    }
}

pub fn body_ratio(candle: &Candle) -> (r: Option<Binary64>)
    ensures
        r == body_ratio_of(*candle),
{
    let range: Binary64 = candle.high.minus(candle.low);
    if indicators::tiny().less(range.abs()) {
        Some(candle.close.minus(candle.open).abs().over(range))
    } else {
        None
    }
}

/// Standard score of the newest close among the last `period`; `None` where they hardly differ.
pub open spec fn sample_close_z_of(window: Seq<Candle>, period: int) -> Option<Binary64> {
    if window.len() < period {
        None
    } else {
        let closes = indicators::recent_of(window, period, Field::Close);
        let deviation = statistics::sample_deviation_of(closes);
        if indicators::tiny().less(deviation) {
            Some(closes[0].minus(statistics::mean_of(closes)).over(deviation))
        } else {
            None
        }
    }
}

pub fn sample_close_z(candles: &VecDeque<Candle>, period: usize) -> (r: Option<Binary64>)
    requires
        period > 0,
    ensures
        r == sample_close_z_of(candles@, period as int),
{
    if candles.len() < period {
        return None;
    }
    let closes: Vec<Binary64> = indicators::recent(candles, period, Field::Close);
    let deviation: Binary64 = statistics::fstd_s(&closes);
    if indicators::tiny().less(deviation) {
        Some(closes[0].minus(statistics::fmean(&closes)).over(deviation))
    } else {
        None
    }
}

/// Signed bodies as shares of the closes.
pub open spec fn signed_bodies_of(candles: Seq<Candle>) -> Seq<Binary64> {
    Seq::new(candles.len(), |i: int| candles[i].close.minus(candles[i].open).over(candles[i].close))
}

/// Whether no close has vanished.
pub open spec fn closes_tell(candles: Seq<Candle>) -> bool {
    forall|i: int|
        0 <= i < candles.len() ==> indicators::tiny().less((#[trigger] candles[i]).close.abs())
}

/// The signed bodies of the last `period` candles, as shares of their closes, added up.
pub open spec fn signed_body_sum_of(window: Seq<Candle>, period: int) -> Option<Binary64> {
    let candles = candle::newest_of(window, period);
    if window.len() < period || !closes_tell(candles) {
        None
    } else {
        Some(statistics::sum_from(Binary64::zero(), signed_bodies_of(candles)))
    }
}

pub fn signed_body_sum(candles: &VecDeque<Candle>, period: usize) -> (r: Option<Binary64>)
    ensures
        r == signed_body_sum_of(candles@, period as int),
{
    if candles.len() < period {
        return None;
    }
    let newest: Vec<Candle> = candle::newest(candles, period);
    let mut bodies: Vec<Binary64> = Vec::new();
    let mut i: usize = 0;
    while i < newest.len()
        invariant
            i <= newest@.len(),
            period <= candles@.len(),
            newest@ == candle::newest_of(candles@, period as int),
            bodies@ == signed_bodies_of(newest@.take(i as int)),
            forall|j: int|
                0 <= j < i ==> indicators::tiny().less((#[trigger] newest@[j]).close.abs()),
        decreases newest@.len() - i,
    {
        let c: Candle = newest[i];
        if !indicators::tiny().less(c.close.abs()) {
            assert(!indicators::tiny().less(newest@[i as int].close.abs()));
            return None;
        }
        bodies.push(c.close.minus(c.open).over(c.close));
        i = i + 1;
        assert(bodies@ =~= signed_bodies_of(newest@.take(i as int)));
    }
    assert(newest@.take(i as int) =~= newest@);
    Some(statistics::sum_onto(Binary64::zero(), &bodies))
}

/// A reading as the log shows it.
pub open spec fn reading_text(reading: Option<Binary64>, decimals: nat) -> Seq<char> {
    match reading {
        Some(x) => text::fixed_of(x, decimals),
        None => "N/A"@,
    }
}

fn append_reading(text: &mut String, reading: Option<Binary64>, decimals: u32)
    requires
        1 <= decimals <= 9,
    ensures
        final(text)@ == old(text)@ + reading_text(reading, decimals as nat),
{
    match reading {
        Some(x) => {
            text::append_fixed(text, x, decimals);
        },
        None => {
            text.append("N/A");
        },
    }
}

/// Contrarian Bollinger fade: a close outside the bands, then a bet on the way back.
#[derive(Debug)]
pub struct BollFade {
    pub candles: VecDeque<Candle>,
}

/// Mean and population deviation of the closes of a full window.
pub open spec fn bands_of(window: Seq<Candle>) -> (Binary64, Binary64) {
    let closes = candle::column_of(window, Field::Close);
    let period = Binary64::count(BOLL_PERIOD as u64);
    let mean = statistics::total_of(closes).over(period);
    (mean, statistics::total_of(statistics::squares_of(closes, mean)).over(period).sqrt())
}

/// What the Bollinger fade makes of a candle.
pub open spec fn boll_fade_of(window: Seq<Candle>, c: Candle) -> Option<Prediction> {
    let (mean, deviation) = bands_of(window);
    let width = number_of(22, 10).times(deviation);
    match body_ratio_of(c) {
        Some(ratio) => if window.len() < BOLL_PERIOD || !number_of(1, 2).at_most(ratio) {
            None
        } else if c.close.less(mean.minus(width)) && c.falls() {
            Some(Prediction::Up)
        } else if mean.plus(width).less(c.close) && c.rises() {
            Some(Prediction::Down)
        } else {
            None
        },
        None => None,
    }
}

/// A prediction with a strength reading, if there is one.
pub open spec fn call_with(prediction: Option<Prediction>, rsi: Binary64) -> Option<Call> {
    match prediction {
        Some(prediction) => Some(Call { prediction, rsi }),
        None => None,
    }
}

fn make_call(prediction: Option<Prediction>, rsi: Binary64) -> (r: Option<Call>)
    ensures
        r == call_with(prediction, rsi),
{
    match prediction {
        Some(prediction) => Some(Call { prediction, rsi }),
        None => None,
    }
}

impl BollFade {
    /// What the strategy calls on a candle, where it sees some other candles first.
    pub open spec fn call_after(&self, first: Seq<Candle>, candle: Candle) -> Option<Call> {
        let before = candle::window_after(self.candles@, first, BOLL_PERIOD as int);
        let window = candle::pushed(before, candle, BOLL_PERIOD as int);
        call_with(boll_fade_of(window, candle), Binary64::count(50))
    }

    proof fn lemma_later(
        before: BollFade,
        after: BollFade,
        candle: Candle,
        first: Seq<Candle>,
        c: Candle,
    )
        requires
            after.candles@ == candle::pushed(before.candles@, candle, BOLL_PERIOD as int),
        ensures
            after.call_after(first, c) == before.call_after(seq![candle] + first, c),
    {
        candle::lemma_window_after_one(before.candles@, candle, first, BOLL_PERIOD as int);
    }

    pub fn new() -> (r: BollFade)
        ensures
            r.well_formed(),
            r.candles@ == Seq::<Candle>::empty(),
    {
        BollFade { candles: VecDeque::with_capacity(BOLL_PERIOD) }
    }

    pub fn evaluate(&self, candle: &Candle) -> (r: Option<Prediction>)
        ensures
            r == boll_fade_of(self.candles@, *candle),
    {
        let len: usize = self.candles.len();
        if len < BOLL_PERIOD {
            return None;
        }
        let all: Vec<Candle> = candle::span(&self.candles, 0, len);
        assert(all@ =~= self.candles@);
        let closes: Vec<Binary64> = candle::column(&all, Field::Close);
        let period: Binary64 = Binary64::count(BOLL_PERIOD as u64);
        let mean: Binary64 = statistics::total(&closes).over(period);
        let squares: Vec<Binary64> = statistics::squares(&closes, mean);
        let deviation: Binary64 = statistics::total(&squares).over(period).sqrt();
        let width: Binary64 = Binary64::ratio(false, 22, 10).times(deviation);
        let ratio: Binary64 = match body_ratio(candle) {
            Some(ratio) => ratio,
            None => {
                return None;
            },
        };
        let wide: bool = Binary64::ratio(false, 1, 2).at_most(ratio);
        if candle.close.less(mean.minus(width)) && candle.falls() && wide {
            Some(Prediction::Up)
        } else if mean.plus(width).less(candle.close) && candle.rises() && wide {
            Some(Prediction::Down)
        } else {
            None
        }
    }
}

impl Default for BollFade {
    fn default() -> (r: BollFade)
        ensures
            r.well_formed(),
            r.candles@ == Seq::<Candle>::empty(),
    {
        BollFade::new()
    }
}

impl Strategy for BollFade {
    open spec fn well_formed(&self) -> bool {
        self.candles@.len() <= BOLL_PERIOD
    }

    open spec fn title(&self) -> Seq<char> {
        "boll_fade"@
    }

    open spec fn answers(
        &self,
        first: Seq<Candle>,
        candle: Candle,
        signal: Option<Signal>,
    ) -> bool {
        strategy::signals(
            signal,
            self.call_after(first, candle),
            candle.close_time_ms,
            "boll_fade"@,
        )
    }

    open spec fn reads_snapshots(&self) -> bool {
        false
    }

    open spec fn answers_snapshot(
        &self,
        snapshot: MicrostructureSnapshot,
        signal: Option<Signal>,
    ) -> bool {
        signal is None
    }

    open spec fn has_considered(&self, snapshot: MicrostructureSnapshot) -> bool {
        true
    }

    open spec fn summary_is(&self, summary: Option<MicrostructureDecisionSummary>) -> bool {
        summary is None
    }

    open spec fn shown_rsi(&self) -> Option<Binary64> {
        None
    }

    open spec fn shown_series(&self) -> Option<bool> {
        candle::same_color_streak_of(self.candles@, 3)
    }

    open spec fn shown_atr(&self) -> Option<Binary64> {
        None
    }

    open spec fn shown_extras(&self) -> Seq<char> {
        "boll_period="@ + text::digits(BOLL_PERIOD as int) + " | ready="@ + text::truth(
            self.candles@.len() == BOLL_PERIOD,
        )
    }

    fn name(&self) -> (r: &str) {
        "boll_fade"
    }

    fn on_closed_candle(&mut self, candle: &Candle) -> (r: Option<Signal>)
        ensures
            final(self).candles@ == candle::pushed(old(self).candles@, *candle, BOLL_PERIOD as int),
            strategy::signals(
                r,
                call_with(boll_fade_of(final(self).candles@, *candle), Binary64::count(50)),
                candle.close_time_ms,
                "boll_fade"@,
            ),
    {
        candle::push_candle(&mut self.candles, candle, BOLL_PERIOD);
        proof {
            assert forall|first: Seq<Candle>, c: Candle, s: Option<Signal>| #[trigger]
                self.answers(first, c, s) == old(self).answers(seq![*candle] + first, c, s) by {
                Self::lemma_later(*old(self), *self, *candle, first, c);
            }
        }
        let call: Option<Call> = make_call(self.evaluate(candle), Binary64::count(50));
        strategy::signal_for(call, candle.close_time_ms, "boll_fade")
    }

    fn warmup(&mut self, candle: &Candle)
        ensures
            final(self).candles@ == candle::pushed(old(self).candles@, *candle, BOLL_PERIOD as int),
    {
        candle::push_candle(&mut self.candles, candle, BOLL_PERIOD);
        proof {
            assert forall|first: Seq<Candle>, c: Candle, s: Option<Signal>| #[trigger]
                self.answers(first, c, s) == old(self).answers(seq![*candle] + first, c, s) by {
                Self::lemma_later(*old(self), *self, *candle, first, c);
            }
        }
    }

    fn requires_microstructure(&self) -> (r: bool) {
        false
    }

    fn on_microstructure_snapshot(&mut self, snapshot: &MicrostructureSnapshot) -> (r: Option<
        Signal,
    >) {
        None
    }

    fn last_microstructure_decision_summary(&self) -> (r: Option<
        MicrostructureDecisionSummary,
    >) {
        None
    }

    fn current_rsi(&self) -> (r: Option<Binary64>) {
        None
    }

    fn current_series(&self) -> (r: Option<bool>) {
        candle::same_color_streak(&self.candles, 3)
    }

    fn current_atr(&self) -> (r: Option<Binary64>) {
        None
    }

    fn candle_log_extras(&self) -> (r: String) {
        let mut r: String = String::from_str("boll_period=");
        text::append_number(&mut r, BOLL_PERIOD as u128);
        r.append(" | ready=");
        let ready: bool = self.candles.len() == BOLL_PERIOD;
        r.append(
            if ready {
                "true"
            } else {
                "false"
            },
        );
        r
    }
}

/// Reversal after three candles of one color, an extreme strength index and a wide candle. The
/// meters of strength, over 7 candles, and of range, over 14, can be exchanged.
#[derive(Debug)]
pub struct StreakRsi<R: Meter = PyRsiState, A: Meter = PyAtrEwmState> {
    pub candles: VecDeque<Candle>,
    pub rsi: R,
    pub atr: A,
}

/// Whether a candle is at least so long, and at least three fifths body.
pub open spec fn wide_of(c: Candle, least: Option<Binary64>) -> bool {
    match (least, body_ratio_of(c)) {
        (Some(least), Some(ratio)) => least.at_most(c.high.minus(c.low)) && !ratio.less(
            number_of(6, 10),
        ),
        _ => false,
    }
}

fn wide(c: &Candle, least: Option<Binary64>) -> (r: bool)
    ensures
        r == wide_of(*c, least),
{
    match (least, body_ratio(c)) {
        (Some(least), Some(ratio)) => least.at_most(c.high.minus(c.low)) && !ratio.less(
            Binary64::ratio(false, 6, 10),
        ),
        _ => false,
    }
}

/// What the streak reversal makes of a candle.
pub open spec fn streak_rsi_of(
    window: Seq<Candle>,
    rsi: Option<Binary64>,
    atr: Option<Binary64>,
    c: Candle,
) -> Option<Prediction> {
    match (candle::same_color_streak_of(window, 3), rsi) {
        (Some(green), Some(rsi)) => if !wide_of(c, atr) {
            None
        } else if green && Binary64::count(65).at_most(rsi) {
            Some(Prediction::Down)
        } else if !green && rsi.at_most(Binary64::count(35)) {
            Some(Prediction::Up)
        } else {
            None
        },
        _ => None,
    }
}

/// A prediction with a strength reading, if there are both.
pub open spec fn call_on_reading(prediction: Option<Prediction>, rsi: Option<Binary64>) -> Option<
    Call,
> {
    match rsi {
        Some(rsi) => call_with(prediction, rsi),
        None => None,
    }
}

fn make_call_on_reading(prediction: Option<Prediction>, rsi: Option<Binary64>) -> (r: Option<Call>)
    ensures
        r == call_on_reading(prediction, rsi),
{
    match rsi {
        Some(rsi) => make_call(prediction, rsi),
        None => None,
    }
}

/// A streak as the log shows it.
pub open spec fn streak_text(streak: Option<bool>) -> Seq<char> {
    match streak {
        Some(true) => "green"@,
        Some(false) => "red"@,
        None => "mixed"@,
    }
}

impl StreakRsi<PyRsiState, PyAtrEwmState> {
    /// A strategy on exponentially smoothed meters. They are a choice: any other pair of meters
    /// can be given to `with_meters`.
    pub fn new() -> (r: Self)
        ensures
            r.well_formed(),
            r.is_fresh(PyRsiState::fresh(7), PyAtrEwmState::fresh(14)),
    {
        StreakRsi::with_meters(PyRsiState::new(7), PyAtrEwmState::new(14))
    }
}

impl<R: Meter, A: Meter> StreakRsi<R, A> {
    /// No candle seen, and these meters.
    pub open spec fn is_fresh(&self, rsi: R, atr: A) -> bool {
        self.candles@ == Seq::<Candle>::empty() && self.rsi == rsi && self.atr == atr
    }

    /// Whether `self` has seen one more candle than `before`.
    pub open spec fn has_seen(&self, before: StreakRsi<R, A>, c: Candle) -> bool {
        &&& self.candles@ == candle::pushed(before.candles@, c, 3)
        &&& self.rsi == before.rsi.fed(c)
        &&& self.atr == before.atr.fed(c)
    }

    /// What the strategy predicts on the candle it saw last.
    pub open spec fn prediction(&self, c: Candle) -> Option<Prediction> {
        streak_rsi_of(self.candles@, self.rsi.reading(), self.atr.reading(), c)
    }

    /// What the strategy calls on the candle it saw last.
    pub open spec fn calls(&self, c: Candle) -> Option<Call> {
        call_on_reading(self.prediction(c), self.rsi.reading())
    }

    /// What the strategy calls on a candle, where it sees some other candles first.
    pub open spec fn call_after(&self, first: Seq<Candle>, candle: Candle) -> Option<Call> {
        let window = candle::pushed(candle::window_after(self.candles@, first, 3), candle, 3);
        let rsi = meters::fed_all(self.rsi, first).fed(candle).reading();
        let atr = meters::fed_all(self.atr, first).fed(candle).reading();
        call_on_reading(streak_rsi_of(window, rsi, atr, candle), rsi)
    }

    proof fn lemma_later(
        before: StreakRsi<R, A>,
        after: StreakRsi<R, A>,
        candle: Candle,
        first: Seq<Candle>,
        c: Candle,
    )
        requires
            after.has_seen(before, candle),
        ensures
            after.call_after(first, c) == before.call_after(seq![candle] + first, c),
    {
        candle::lemma_window_after_one(before.candles@, candle, first, 3);
        meters::lemma_fed_all_one(before.rsi, candle, first);
        meters::lemma_fed_all_one(before.atr, candle, first);
    }

    pub fn with_meters(rsi: R, atr: A) -> (r: StreakRsi<R, A>)
        ensures
            r.well_formed(),
            r.is_fresh(rsi, atr),
    {
        StreakRsi { candles: VecDeque::with_capacity(3), rsi, atr }
    }

    pub fn feed(&mut self, candle: &Candle)
        requires
            old(self).well_formed(),
        ensures
            final(self).well_formed(),
            final(self).has_seen(*old(self), *candle),
    {
        self.rsi.feed(candle);
        self.atr.feed(candle);
        candle::push_candle(&mut self.candles, candle, 3);
    }

    pub fn evaluate(&self, candle: &Candle) -> (r: Option<Prediction>)
        ensures
            r == self.prediction(*candle),
    {
        match (candle::same_color_streak(&self.candles, 3), self.rsi.read()) {
            (Some(green), Some(rsi)) => if !wide(candle, self.atr.read()) {
                None
            } else if green && Binary64::count(65).at_most(rsi) {
                Some(Prediction::Down)
            } else if !green && rsi.at_most(Binary64::count(35)) {
                Some(Prediction::Up)
            } else {
                None
            },
            _ => None,
        }
    }
}

impl Default for StreakRsi<PyRsiState, PyAtrEwmState> {
    fn default() -> (r: Self)
        ensures
            r.well_formed(),
            r.is_fresh(PyRsiState::fresh(7), PyAtrEwmState::fresh(14)),
    {
        StreakRsi::new()
    }
}

impl<R: Meter, A: Meter> Strategy for StreakRsi<R, A> {
    open spec fn well_formed(&self) -> bool {
        self.candles@.len() <= 3
    }

    open spec fn title(&self) -> Seq<char> {
        "streak_rsi"@
    }

    open spec fn answers(
        &self,
        first: Seq<Candle>,
        candle: Candle,
        signal: Option<Signal>,
    ) -> bool {
        strategy::signals(
            signal,
            self.call_after(first, candle),
            candle.close_time_ms,
            "streak_rsi"@,
        )
    }

    open spec fn reads_snapshots(&self) -> bool {
        false
    }

    open spec fn answers_snapshot(
        &self,
        snapshot: MicrostructureSnapshot,
        signal: Option<Signal>,
    ) -> bool {
        signal is None
    }

    open spec fn has_considered(&self, snapshot: MicrostructureSnapshot) -> bool {
        true
    }

    open spec fn summary_is(&self, summary: Option<MicrostructureDecisionSummary>) -> bool {
        summary is None
    }

    open spec fn shown_rsi(&self) -> Option<Binary64> {
        self.rsi.reading()
    }

    open spec fn shown_series(&self) -> Option<bool> {
        candle::same_color_streak_of(self.candles@, 3)
    }

    open spec fn shown_atr(&self) -> Option<Binary64> {
        self.atr.reading()
    }

    open spec fn shown_extras(&self) -> Seq<char> {
        "rsi7="@ + reading_text(self.rsi.reading(), 2) + " | atr14="@ + reading_text(
            self.atr.reading(),
            4,
        ) + " | streak="@ + streak_text(candle::same_color_streak_of(self.candles@, 3))
    }

    fn name(&self) -> (r: &str) {
        "streak_rsi"
    }

    fn on_closed_candle(&mut self, candle: &Candle) -> (r: Option<Signal>)
        ensures
            final(self).has_seen(*old(self), *candle),
            strategy::signals(
                r,
                final(self).calls(*candle),
                candle.close_time_ms,
                "streak_rsi"@,
            ),
    {
        self.feed(candle);
        proof {
            assert forall|first: Seq<Candle>, c: Candle, s: Option<Signal>| #[trigger]
                self.answers(first, c, s) == old(self).answers(seq![*candle] + first, c, s) by {
                Self::lemma_later(*old(self), *self, *candle, first, c);
            }
        }
        let call: Option<Call> = make_call_on_reading(self.evaluate(candle), self.rsi.read());
        strategy::signal_for(call, candle.close_time_ms, "streak_rsi")
    }

    fn warmup(&mut self, candle: &Candle)
        ensures
            final(self).has_seen(*old(self), *candle),
    {
        self.feed(candle);
        proof {
            assert forall|first: Seq<Candle>, c: Candle, s: Option<Signal>| #[trigger]
                self.answers(first, c, s) == old(self).answers(seq![*candle] + first, c, s) by {
                Self::lemma_later(*old(self), *self, *candle, first, c);
            }
        }
    }

    fn requires_microstructure(&self) -> (r: bool) {
        false
    }

    fn on_microstructure_snapshot(&mut self, snapshot: &MicrostructureSnapshot) -> (r: Option<
        Signal,
    >) {
        None
    }

    fn last_microstructure_decision_summary(&self) -> (r: Option<
        MicrostructureDecisionSummary,
    >) {
        None
    }

    fn current_rsi(&self) -> (r: Option<Binary64>) {
        self.rsi.read()
    }

    fn current_series(&self) -> (r: Option<bool>) {
        candle::same_color_streak(&self.candles, 3)
    }

    fn current_atr(&self) -> (r: Option<Binary64>) {
        self.atr.read()
    }

    fn candle_log_extras(&self) -> (r: String) {
        let mut r: String = String::from_str("rsi7=");
        append_reading(&mut r, self.rsi.read(), 2);
        r.append(" | atr14=");
        append_reading(&mut r, self.atr.read(), 4);
        r.append(" | streak=");
        r.append(
            match candle::same_color_streak(&self.candles, 3) {
                Some(true) => "green",
                Some(false) => "red",
                None => "mixed",
            },
        );
        r
    }
}

/// Fade at the edge of a Donchian channel, under pressure of the bodies and an extreme score.
#[derive(Debug)]
pub struct DonchZscore {
    pub candles: VecDeque<Candle>,
    pub last_z: Option<Binary64>,
}

/// What the Donchian fade makes of a candle.
pub open spec fn donch_zscore_of(window: Seq<Candle>, z: Option<Binary64>, c: Candle) -> Option<
    Prediction,
> {
    let low = indicators::lowest_low(window, DONCH_PERIOD as int);
    let high = indicators::highest_high(window, DONCH_PERIOD as int);
    if window.len() < Z_PERIOD || c.close.abs().at_most(indicators::tiny()) {
        None
    } else {
        match (signed_body_sum_of(window, 6), z) {
            (Some(pressure), Some(z)) => if c.close.minus(low).over(c.close).at_most(
                number_of(35, 100_000),
            ) && pressure.at_most(Binary64::ratio(true, 45, 10_000)) && z.at_most(
                Binary64::ratio(true, 21, 10),
            ) {
                Some(Prediction::Up)
            } else if Binary64::ratio(true, 35, 100_000).at_most(c.close.minus(high).over(c.close))
                && number_of(45, 10_000).at_most(pressure) && number_of(21, 10).at_most(z) {
                Some(Prediction::Down)
            } else {
                None
            },
            _ => None,
        }
    }
}

/// How far a score is from zero, ten to one, at most 100.
pub open spec fn distance_of(z: Binary64) -> Binary64 {
    z.abs().times(Binary64::count(10)).min(Binary64::count(100))
}

/// What the Donchian fade calls.
pub open spec fn donch_call_of(window: Seq<Candle>, z: Option<Binary64>, c: Candle) -> Option<
    Call,
> {
    match z {
        Some(z) => call_with(donch_zscore_of(window, Some(z), c), distance_of(z)),
        None => None,
    }
}

impl DonchZscore {
    /// What the strategy calls on a candle, where it sees some other candles first.
    pub open spec fn call_after(&self, first: Seq<Candle>, candle: Candle) -> Option<Call> {
        let before = candle::window_after(self.candles@, first, Z_PERIOD as int);
        let window = candle::pushed(before, candle, Z_PERIOD as int);
        donch_call_of(window, sample_close_z_of(window, Z_PERIOD as int), candle)
    }

    proof fn lemma_later(
        before: DonchZscore,
        after: DonchZscore,
        candle: Candle,
        first: Seq<Candle>,
        c: Candle,
    )
        requires
            after.candles@ == candle::pushed(before.candles@, candle, Z_PERIOD as int),
        ensures
            after.call_after(first, c) == before.call_after(seq![candle] + first, c),
    {
        candle::lemma_window_after_one(before.candles@, candle, first, Z_PERIOD as int);
    }

    pub fn new() -> (r: DonchZscore)
        ensures
            r.well_formed(),
            r.candles@ == Seq::<Candle>::empty(),
            r.last_z is None,
    {
        DonchZscore { candles: VecDeque::with_capacity(Z_PERIOD), last_z: None }
    }

    pub fn feed(&mut self, candle: &Candle)
        requires
            old(self).well_formed(),
        ensures
            final(self).well_formed(),
            final(self).candles@ == candle::pushed(old(self).candles@, *candle, Z_PERIOD as int),
            final(self).last_z == sample_close_z_of(final(self).candles@, Z_PERIOD as int),
    {
        candle::push_candle(&mut self.candles, candle, Z_PERIOD);
        self.last_z = sample_close_z(&self.candles, Z_PERIOD);
    }

    pub fn evaluate(&self, candle: &Candle) -> (r: Option<Prediction>)
        ensures
            r == donch_zscore_of(self.candles@, self.last_z, *candle),
    {
        if self.candles.len() < Z_PERIOD || candle.close.abs().at_most(indicators::tiny()) {
            return None;
        }
        let lows: Vec<Binary64> = indicators::recent(&self.candles, DONCH_PERIOD, Field::Low);
        let highs: Vec<Binary64> = indicators::recent(&self.candles, DONCH_PERIOD, Field::High);
        let low: Binary64 = statistics::lowest(&lows);
        let high: Binary64 = statistics::highest(&highs);
        match (signed_body_sum(&self.candles, 6), self.last_z) {
            (Some(pressure), Some(z)) => {
                let near_low: bool = candle.close.minus(low).over(candle.close).at_most(
                    Binary64::ratio(false, 35, 100_000),
                );
                let near_high: bool = Binary64::ratio(true, 35, 100_000).at_most(
                    candle.close.minus(high).over(candle.close),
                );
                if near_low && pressure.at_most(Binary64::ratio(true, 45, 10_000)) && z.at_most(
                    Binary64::ratio(true, 21, 10),
                ) {
                    Some(Prediction::Up)
                } else if near_high && Binary64::ratio(false, 45, 10_000).at_most(pressure)
                    && Binary64::ratio(false, 21, 10).at_most(z) {
                    Some(Prediction::Down)
                } else {
                    None
                }
            },
            _ => None,
        }
    }
}

impl Default for DonchZscore {
    fn default() -> (r: DonchZscore)
        ensures
            r.well_formed(),
            r.candles@ == Seq::<Candle>::empty(),
            r.last_z is None,
    {
        DonchZscore::new()
    }
}

impl Strategy for DonchZscore {
    open spec fn well_formed(&self) -> bool {
        self.candles@.len() <= Z_PERIOD
    }

    open spec fn title(&self) -> Seq<char> {
        "donch_zscore"@
    }

    open spec fn answers(
        &self,
        first: Seq<Candle>,
        candle: Candle,
        signal: Option<Signal>,
    ) -> bool {
        strategy::signals(
            signal,
            self.call_after(first, candle),
            candle.close_time_ms,
            "donch_zscore"@,
        )
    }

    open spec fn reads_snapshots(&self) -> bool {
        false
    }

    open spec fn answers_snapshot(
        &self,
        snapshot: MicrostructureSnapshot,
        signal: Option<Signal>,
    ) -> bool {
        signal is None
    }

    open spec fn has_considered(&self, snapshot: MicrostructureSnapshot) -> bool {
        true
    }

    open spec fn summary_is(&self, summary: Option<MicrostructureDecisionSummary>) -> bool {
        summary is None
    }

    open spec fn shown_rsi(&self) -> Option<Binary64> {
        None
    }

    open spec fn shown_series(&self) -> Option<bool> {
        candle::same_color_streak_of(self.candles@, 3)
    }

    open spec fn shown_atr(&self) -> Option<Binary64> {
        None
    }

    open spec fn shown_extras(&self) -> Seq<char> {
        "z24="@ + reading_text(self.last_z, 3)
    }

    fn name(&self) -> (r: &str) {
        "donch_zscore"
    }

    fn on_closed_candle(&mut self, candle: &Candle) -> (r: Option<Signal>)
        ensures
            final(self).candles@ == candle::pushed(old(self).candles@, *candle, Z_PERIOD as int),
            final(self).last_z == sample_close_z_of(final(self).candles@, Z_PERIOD as int),
            strategy::signals(
                r,
                donch_call_of(final(self).candles@, final(self).last_z, *candle),
                candle.close_time_ms,
                "donch_zscore"@,
            ),
    {
        self.feed(candle);
        proof {
            assert forall|first: Seq<Candle>, c: Candle, s: Option<Signal>| #[trigger]
                self.answers(first, c, s) == old(self).answers(seq![*candle] + first, c, s) by {
                Self::lemma_later(*old(self), *self, *candle, first, c);
            }
        }
        let call: Option<Call> = match self.last_z {
            Some(z) => make_call(
                self.evaluate(candle),
                z.abs().times(Binary64::count(10)).min(Binary64::count(100)),
            ),
            None => None,
        };
        strategy::signal_for(call, candle.close_time_ms, "donch_zscore")
    }

    fn warmup(&mut self, candle: &Candle)
        ensures
            final(self).candles@ == candle::pushed(old(self).candles@, *candle, Z_PERIOD as int),
            final(self).last_z == sample_close_z_of(final(self).candles@, Z_PERIOD as int),
    {
        self.feed(candle);
        proof {
            assert forall|first: Seq<Candle>, c: Candle, s: Option<Signal>| #[trigger]
                self.answers(first, c, s) == old(self).answers(seq![*candle] + first, c, s) by {
                Self::lemma_later(*old(self), *self, *candle, first, c);
            }
        }
    }

    fn requires_microstructure(&self) -> (r: bool) {
        false
    }

    fn on_microstructure_snapshot(&mut self, snapshot: &MicrostructureSnapshot) -> (r: Option<
        Signal,
    >) {
        None
    }

    fn last_microstructure_decision_summary(&self) -> (r: Option<
        MicrostructureDecisionSummary,
    >) {
        None
    }

    fn current_rsi(&self) -> (r: Option<Binary64>) {
        None
    }

    fn current_series(&self) -> (r: Option<bool>) {
        candle::same_color_streak(&self.candles, 3)
    }

    fn current_atr(&self) -> (r: Option<Binary64>) {
        None
    }

    fn candle_log_extras(&self) -> (r: String) {
        let mut r: String = String::from_str("z24=");
        append_reading(&mut r, self.last_z, 3);
        r
    }
}

/// A very selective fade: a streak, extreme strength and score, and a violent candle. The meters
/// of strength, over 7 candles, and of range, over 14, can be exchanged.
#[derive(Debug)]
pub struct ReversalPro<R: Meter = PyRsiState, A: Meter = PyAtrEwmState> {
    pub candles: VecDeque<Candle>,
    pub rsi: R,
    pub atr: A,
    pub last_z: Option<Binary64>,
}

/// A reading and half as much again.
pub open spec fn half_more_of(reading: Option<Binary64>) -> Option<Binary64> {
    match reading {
        Some(x) => Some(number_of(15, 10).times(x)),
        None => None,
    }
}

fn half_more(reading: Option<Binary64>) -> (r: Option<Binary64>)
    ensures
        r == half_more_of(reading),
{
    match reading {
        Some(x) => Some(Binary64::ratio(false, 15, 10).times(x)),
        None => None,
    }
}

/// What the selective fade makes of a candle.
pub open spec fn reversal_pro_of(
    window: Seq<Candle>,
    rsi: Option<Binary64>,
    atr: Option<Binary64>,
    z: Option<Binary64>,
    c: Candle,
) -> Option<Prediction> {
    match (candle::same_color_streak_of(window, 3), rsi, z) {
        (Some(green), Some(rsi), Some(z)) => if !wide_of(c, half_more_of(atr)) {
            None
        } else if green && Binary64::count(75).at_most(rsi) && Binary64::count(2).at_most(z) {
            Some(Prediction::Down)
        } else if !green && rsi.at_most(Binary64::count(25)) && z.at_most(
            Binary64::ratio(true, 2, 1),
        ) {
            Some(Prediction::Up)
        } else {
            None
        },
        _ => None,
    }
}

impl ReversalPro<PyRsiState, PyAtrEwmState> {
    /// A strategy on exponentially smoothed meters. They are a choice: any other pair of meters
    /// can be given to `with_meters`.
    pub fn new() -> (r: Self)
        ensures
            r.well_formed(),
            r.is_fresh(PyRsiState::fresh(7), PyAtrEwmState::fresh(14)),
    {
        ReversalPro::with_meters(PyRsiState::new(7), PyAtrEwmState::new(14))
    }
}

impl<R: Meter, A: Meter> ReversalPro<R, A> {
    /// No candle seen, and these meters.
    pub open spec fn is_fresh(&self, rsi: R, atr: A) -> bool {
        &&& self.candles@ == Seq::<Candle>::empty()
        &&& self.rsi == rsi
        &&& self.atr == atr
        &&& self.last_z is None
    }

    /// Whether `self` has seen one more candle than `before`.
    pub open spec fn has_seen(&self, before: ReversalPro<R, A>, c: Candle) -> bool {
        &&& self.candles@ == candle::pushed(before.candles@, c, Z_PERIOD as int)
        &&& self.rsi == before.rsi.fed(c)
        &&& self.atr == before.atr.fed(c)
        &&& self.last_z == sample_close_z_of(self.candles@, Z_PERIOD as int)
    }

    /// What the strategy predicts on the candle it saw last.
    pub open spec fn prediction(&self, c: Candle) -> Option<Prediction> {
        reversal_pro_of(self.candles@, self.rsi.reading(), self.atr.reading(), self.last_z, c)
    }

    /// What the strategy calls on a candle, where it sees some other candles first.
    pub open spec fn call_after(&self, first: Seq<Candle>, candle: Candle) -> Option<Call> {
        let before = candle::window_after(self.candles@, first, Z_PERIOD as int);
        let window = candle::pushed(before, candle, Z_PERIOD as int);
        let rsi = meters::fed_all(self.rsi, first).fed(candle).reading();
        let atr = meters::fed_all(self.atr, first).fed(candle).reading();
        let z = sample_close_z_of(window, Z_PERIOD as int);
        call_on_reading(reversal_pro_of(window, rsi, atr, z, candle), rsi)
    }

    proof fn lemma_later(
        before: ReversalPro<R, A>,
        after: ReversalPro<R, A>,
        candle: Candle,
        first: Seq<Candle>,
        c: Candle,
    )
        requires
            after.has_seen(before, candle),
        ensures
            after.call_after(first, c) == before.call_after(seq![candle] + first, c),
    {
        candle::lemma_window_after_one(before.candles@, candle, first, Z_PERIOD as int);
        meters::lemma_fed_all_one(before.rsi, candle, first);
        meters::lemma_fed_all_one(before.atr, candle, first);
    }

    pub fn with_meters(rsi: R, atr: A) -> (r: ReversalPro<R, A>)
        ensures
            r.well_formed(),
            r.is_fresh(rsi, atr),
    {
        ReversalPro { candles: VecDeque::with_capacity(Z_PERIOD), rsi, atr, last_z: None }
    }

    pub fn feed(&mut self, candle: &Candle)
        requires
            old(self).well_formed(),
        ensures
            final(self).well_formed(),
            final(self).has_seen(*old(self), *candle),
    {
        self.rsi.feed(candle);
        self.atr.feed(candle);
        candle::push_candle(&mut self.candles, candle, Z_PERIOD);
        self.last_z = sample_close_z(&self.candles, Z_PERIOD);
    }

    pub fn evaluate(&self, candle: &Candle) -> (r: Option<Prediction>)
        ensures
            r == self.prediction(*candle),
    {
        match (candle::same_color_streak(&self.candles, 3), self.rsi.read(), self.last_z) {
            (Some(green), Some(rsi), Some(z)) => if !wide(
                candle,
                half_more(self.atr.read()),
            ) {
                None
            } else if green && Binary64::count(75).at_most(rsi) && Binary64::count(2).at_most(z) {
                Some(Prediction::Down)
            } else if !green && rsi.at_most(Binary64::count(25)) && z.at_most(
                Binary64::ratio(true, 2, 1),
            ) {
                Some(Prediction::Up)
            } else {
                None
            },
            _ => None,
        }
    }
}

impl Default for ReversalPro<PyRsiState, PyAtrEwmState> {
    fn default() -> (r: Self)
        ensures
            r.well_formed(),
            r.is_fresh(PyRsiState::fresh(7), PyAtrEwmState::fresh(14)),
    {
        ReversalPro::new()
    }
}

impl<R: Meter, A: Meter> Strategy for ReversalPro<R, A> {
    open spec fn well_formed(&self) -> bool {
        self.candles@.len() <= Z_PERIOD
    }

    open spec fn title(&self) -> Seq<char> {
        "reversal_pro"@
    }

    open spec fn answers(
        &self,
        first: Seq<Candle>,
        candle: Candle,
        signal: Option<Signal>,
    ) -> bool {
        strategy::signals(
            signal,
            self.call_after(first, candle),
            candle.close_time_ms,
            "reversal_pro"@,
        )
    }

    open spec fn reads_snapshots(&self) -> bool {
        false
    }

    open spec fn answers_snapshot(
        &self,
        snapshot: MicrostructureSnapshot,
        signal: Option<Signal>,
    ) -> bool {
        signal is None
    }

    open spec fn has_considered(&self, snapshot: MicrostructureSnapshot) -> bool {
        true
    }

    open spec fn summary_is(&self, summary: Option<MicrostructureDecisionSummary>) -> bool {
        summary is None
    }

    open spec fn shown_rsi(&self) -> Option<Binary64> {
        self.rsi.reading()
    }

    open spec fn shown_series(&self) -> Option<bool> {
        candle::same_color_streak_of(self.candles@, 3)
    }

    open spec fn shown_atr(&self) -> Option<Binary64> {
        self.atr.reading()
    }

    open spec fn shown_extras(&self) -> Seq<char> {
        "rsi7="@ + reading_text(self.rsi.reading(), 2) + " | atr14="@ + reading_text(
            self.atr.reading(),
            4,
        ) + " | z24="@ + reading_text(self.last_z, 3)
    }

    fn name(&self) -> (r: &str) {
        "reversal_pro"
    }

    fn on_closed_candle(&mut self, candle: &Candle) -> (r: Option<Signal>)
        ensures
            final(self).has_seen(*old(self), *candle),
            strategy::signals(
                r,
                call_on_reading(final(self).prediction(*candle), final(self).rsi.reading()),
                candle.close_time_ms,
                "reversal_pro"@,
            ),
    {
        self.feed(candle);
        proof {
            assert forall|first: Seq<Candle>, c: Candle, s: Option<Signal>| #[trigger]
                self.answers(first, c, s) == old(self).answers(seq![*candle] + first, c, s) by {
                Self::lemma_later(*old(self), *self, *candle, first, c);
            }
        }
        let call: Option<Call> = make_call_on_reading(self.evaluate(candle), self.rsi.read());
        strategy::signal_for(call, candle.close_time_ms, "reversal_pro")
    }

    fn warmup(&mut self, candle: &Candle)
        ensures
            final(self).has_seen(*old(self), *candle),
    {
        self.feed(candle);
        proof {
            assert forall|first: Seq<Candle>, c: Candle, s: Option<Signal>| #[trigger]
                self.answers(first, c, s) == old(self).answers(seq![*candle] + first, c, s) by {
                Self::lemma_later(*old(self), *self, *candle, first, c);
            }
        }
    }

    fn requires_microstructure(&self) -> (r: bool) {
        false
    }

    fn on_microstructure_snapshot(&mut self, snapshot: &MicrostructureSnapshot) -> (r: Option<
        Signal,
    >) {
        None
    }

    fn last_microstructure_decision_summary(&self) -> (r: Option<
        MicrostructureDecisionSummary,
    >) {
        None
    }

    fn current_rsi(&self) -> (r: Option<Binary64>) {
        self.rsi.read()
    }

    fn current_series(&self) -> (r: Option<bool>) {
        candle::same_color_streak(&self.candles, 3)
    }

    fn current_atr(&self) -> (r: Option<Binary64>) {
        self.atr.read()
    }

    fn candle_log_extras(&self) -> (r: String) {
        let mut r: String = String::from_str("rsi7=");
        append_reading(&mut r, self.rsi.read(), 2);
        r.append(" | atr14=");
        append_reading(&mut r, self.atr.read(), 4);
        r.append(" | z24=");
        append_reading(&mut r, self.last_z, 3);
        r
    }
}

/// Signals only where at least two of the three independent fades agree.
#[derive(Debug)]
pub struct TrioVote2<R: Meter = PyRsiState, A: Meter = PyAtrEwmState> {
    pub boll: BollFade,
    pub streak: StreakRsi<R, A>,
    pub donch: DonchZscore,
    pub last_vote_pct: Option<Binary64>,
}

/// How many of three voters go for a prediction.
pub open spec fn voters_for(calls: Seq<Option<Call>>, prediction: Prediction) -> nat
    decreases calls.len(),
{
    if calls.len() == 0 {
        0
    } else {
        voters_for(calls.drop_last(), prediction) + (match calls.last() {
            Some(call) => if call.prediction == prediction {
                1nat
            } else {
                0
            },
            None => 0,
        })
    }
}

/// Share of the larger side among the voters, in percent; `None` where nobody voted.
pub open spec fn vote_pct_of(up: nat, down: nat) -> Option<Binary64> {
    if up + down == 0 {
        None
    } else {
        let dominant = if up >= down {
            up
        } else {
            down
        };
        Some(
            Binary64::count(dominant as u64).times(Binary64::count(100)).over(
                Binary64::count((up + down) as u64),
            ),
        )
    }
}

/// What the voters come to.
pub open spec fn trio_call_of(up: nat, down: nat) -> Option<Call> {
    match vote_pct_of(up, down) {
        Some(rsi) => if up + down < 2 || up == down {
            None
        } else {
            Some(
                Call {
                    prediction: if up > down {
                        Prediction::Up
                    } else {
                        Prediction::Down
                    },
                    rsi,
                },
            )
        },
        None => None,
    }
}

fn count_for(signals: &[Option<Signal>; 3], prediction: Prediction) -> (r: usize)
    ensures
        r == signals_for(signals@, prediction),
        r <= 3,
{
    let mut count: usize = 0;
    let mut i: usize = 0;
    while i < 3
        invariant
            i <= 3,
            signals@.len() == 3,
            count <= i,
            count == signals_for(signals@.take(i as int), prediction),
        decreases 3 - i,
    {
        match &signals[i] {
            Some(signal) => {
                if signal.prediction == prediction {
                    count = count + 1;
                }
            },
            None => {},
        }
        i = i + 1;
        assert(signals@.take(i as int).drop_last() =~= signals@.take(i - 1));
    }
    assert(signals@.take(i as int) =~= signals@);
    count
}

/// How many of some signals make a prediction.
spec fn signals_for(signals: Seq<Option<Signal>>, prediction: Prediction) -> nat
    decreases signals.len(),
{
    if signals.len() == 0 {
        0
    } else {
        signals_for(signals.drop_last(), prediction) + (match signals.last() {
            Some(signal) => if signal.prediction == prediction {
                1nat
            } else {
                0
            },
            None => 0,
        })
    }
}

proof fn lemma_same_count(
    signals: Seq<Option<Signal>>,
    calls: Seq<Option<Call>>,
    prediction: Prediction,
)
    requires
        signals.len() == calls.len(),
        forall|i: int|
            0 <= i < signals.len() ==> match (#[trigger] signals[i], calls[i]) {
                (Some(s), Some(c)) => s.prediction == c.prediction,
                (None, None) => true,
                _ => false,
            },
    ensures
        signals_for(signals, prediction) == voters_for(calls, prediction),
    decreases signals.len(),
{
    if signals.len() > 0 {
        let fewer = signals.drop_last();
        assert forall|i: int| 0 <= i < fewer.len() implies match (
            #[trigger] fewer[i],
            calls.drop_last()[i],
        ) {
            (Some(s), Some(c)) => s.prediction == c.prediction,
            (None, None) => true,
            _ => false,
        } by {
            assert(fewer[i] == signals[i]);
        }
        lemma_same_count(fewer, calls.drop_last(), prediction);
        assert(signals.last() == signals[signals.len() - 1]);
    }
}

impl TrioVote2<PyRsiState, PyAtrEwmState> {
    /// A strategy on exponentially smoothed meters. They are a choice: any other pair of meters
    /// can be given to `with_meters`.
    pub fn new() -> (r: Self)
        ensures
            r.well_formed(),
            r.is_fresh(PyRsiState::fresh(7), PyAtrEwmState::fresh(14)),
    {
        TrioVote2::with_meters(PyRsiState::new(7), PyAtrEwmState::new(14))
    }
}

impl<R: Meter, A: Meter> TrioVote2<R, A> {
    /// No candle seen, and these meters.
    pub open spec fn is_fresh(&self, rsi: R, atr: A) -> bool {
        &&& self.boll.candles@ == Seq::<Candle>::empty()
        &&& self.streak.is_fresh(rsi, atr)
        &&& self.donch.candles@ == Seq::<Candle>::empty()
        &&& self.donch.last_z is None
        &&& self.last_vote_pct is None
    }

    /// Whether the voters have seen one more candle than those of `before`.
    pub open spec fn has_seen(&self, before: TrioVote2<R, A>, c: Candle) -> bool {
        &&& self.boll.candles@ == candle::pushed(before.boll.candles@, c, BOLL_PERIOD as int)
        &&& self.streak.has_seen(before.streak, c)
        &&& self.donch.candles@ == candle::pushed(before.donch.candles@, c, Z_PERIOD as int)
        &&& self.donch.last_z == sample_close_z_of(self.donch.candles@, Z_PERIOD as int)
    }

    /// What the three voters call on the candle they saw last.
    pub open spec fn calls(&self, c: Candle) -> Seq<Option<Call>> {
        seq![
            call_with(boll_fade_of(self.boll.candles@, c), Binary64::count(50)),
            self.streak.calls(c),
            donch_call_of(self.donch.candles@, self.donch.last_z, c),
        ]
    }

    /// What the strategy calls on a candle, where it sees some other candles first.
    pub open spec fn call_after(&self, first: Seq<Candle>, candle: Candle) -> Option<Call> {
        let calls = seq![
            self.boll.call_after(first, candle),
            self.streak.call_after(first, candle),
            self.donch.call_after(first, candle),
        ];
        trio_call_of(voters_for(calls, Prediction::Up), voters_for(calls, Prediction::Down))
    }

    proof fn lemma_later(
        before: TrioVote2<R, A>,
        after: TrioVote2<R, A>,
        candle: Candle,
        first: Seq<Candle>,
        c: Candle,
    )
        requires
            after.has_seen(before, candle),
        ensures
            after.call_after(first, c) == before.call_after(seq![candle] + first, c),
    {
        BollFade::lemma_later(before.boll, after.boll, candle, first, c);
        StreakRsi::lemma_later(before.streak, after.streak, candle, first, c);
        DonchZscore::lemma_later(before.donch, after.donch, candle, first, c);
    }

    pub fn with_meters(rsi: R, atr: A) -> (r: TrioVote2<R, A>)
        ensures
            r.well_formed(),
            r.is_fresh(rsi, atr),
    {
        TrioVote2 {
            boll: BollFade::new(),
            streak: StreakRsi::with_meters(rsi, atr),
            donch: DonchZscore::new(),
            last_vote_pct: None,
        }
    }

    /// Lets the voters see a candle, and vote on it unless it is one of the past.
    pub fn vote(&mut self, candle: &Candle, warmup: bool) -> (r: Option<Signal>)
        requires
            old(self).well_formed(),
        ensures
            final(self).well_formed(),
            final(self).has_seen(*old(self), *candle),
            warmup ==> r is None && final(self).last_vote_pct == old(self).last_vote_pct,
            !warmup ==> {
                let calls = final(self).calls(*candle);
                let up = voters_for(calls, Prediction::Up);
                let down = voters_for(calls, Prediction::Down);
                &&& final(self).last_vote_pct == vote_pct_of(up, down)
                &&& strategy::signals(
                    r,
                    trio_call_of(up, down),
                    candle.close_time_ms,
                    "trio_vote2"@,
                )
            },
    {
        if warmup {
            self.boll.warmup(candle);
            self.streak.warmup(candle);
            self.donch.warmup(candle);
            return None;
        }
        let votes: [Option<Signal>; 3] = [
            self.boll.on_closed_candle(candle),
            self.streak.on_closed_candle(candle),
            self.donch.on_closed_candle(candle),
        ];
        let up: usize = count_for(&votes, Prediction::Up);
        let down: usize = count_for(&votes, Prediction::Down);
        proof {
            let calls = self.calls(*candle);
            lemma_same_count(votes@, calls, Prediction::Up);
            lemma_same_count(votes@, calls, Prediction::Down);
        }
        let total: usize = up + down;
        let dominant: usize = if up >= down { up } else { down };
        if total == 0 {
            self.last_vote_pct = None;
            return None;
        }
        let pct: Binary64 = Binary64::count(dominant as u64).times(Binary64::count(100)).over(
            Binary64::count(total as u64),
        );
        self.last_vote_pct = Some(pct);
        if total < 2 || up == down {
            return None;
        }
        let prediction: Prediction = if up > down { Prediction::Up } else { Prediction::Down };
        strategy::signal_for(
            Some(Call { prediction, rsi: pct }),
            candle.close_time_ms,
            "trio_vote2",
        )
    }
}

impl Default for TrioVote2<PyRsiState, PyAtrEwmState> {
    fn default() -> (r: Self)
        ensures
            r.well_formed(),
            r.is_fresh(PyRsiState::fresh(7), PyAtrEwmState::fresh(14)),
    {
        TrioVote2::new()
    }
}

impl<R: Meter, A: Meter> Strategy for TrioVote2<R, A> {
    open spec fn well_formed(&self) -> bool {
        self.boll.well_formed() && self.streak.well_formed() && self.donch.well_formed()
    }

    open spec fn title(&self) -> Seq<char> {
        "trio_vote2"@
    }

    open spec fn answers(
        &self,
        first: Seq<Candle>,
        candle: Candle,
        signal: Option<Signal>,
    ) -> bool {
        strategy::signals(
            signal,
            self.call_after(first, candle),
            candle.close_time_ms,
            "trio_vote2"@,
        )
    }

    open spec fn reads_snapshots(&self) -> bool {
        false
    }

    open spec fn answers_snapshot(
        &self,
        snapshot: MicrostructureSnapshot,
        signal: Option<Signal>,
    ) -> bool {
        signal is None
    }

    open spec fn has_considered(&self, snapshot: MicrostructureSnapshot) -> bool {
        true
    }

    open spec fn summary_is(&self, summary: Option<MicrostructureDecisionSummary>) -> bool {
        summary is None
    }

    open spec fn shown_rsi(&self) -> Option<Binary64> {
        self.last_vote_pct
    }

    open spec fn shown_series(&self) -> Option<bool> {
        candle::same_color_streak_of(self.streak.candles@, 3)
    }

    open spec fn shown_atr(&self) -> Option<Binary64> {
        self.streak.atr.reading()
    }

    open spec fn shown_extras(&self) -> Seq<char> {
        match self.last_vote_pct {
            Some(pct) => "votes="@ + text::fixed_of(pct, 1) + "%"@,
            None => "votes=N/A"@,
        }
    }

    fn name(&self) -> (r: &str) {
        "trio_vote2"
    }

    fn on_closed_candle(&mut self, candle: &Candle) -> (r: Option<Signal>)
        ensures
            final(self).has_seen(*old(self), *candle),
            ({
                let calls = final(self).calls(*candle);
                let up = voters_for(calls, Prediction::Up);
                let down = voters_for(calls, Prediction::Down);
                &&& final(self).last_vote_pct == vote_pct_of(up, down)
                &&& strategy::signals(
                    r,
                    trio_call_of(up, down),
                    candle.close_time_ms,
                    "trio_vote2"@,
                )
            }),
    {
        let r: Option<Signal> = self.vote(candle, false);
        proof {
            assert(self.calls(*candle) =~= seq![
                old(self).boll.call_after(Seq::empty(), *candle),
                old(self).streak.call_after(Seq::empty(), *candle),
                old(self).donch.call_after(Seq::empty(), *candle),
            ]);
            assert forall|first: Seq<Candle>, c: Candle, s: Option<Signal>| #[trigger]
                self.answers(first, c, s) == old(self).answers(seq![*candle] + first, c, s) by {
                Self::lemma_later(*old(self), *self, *candle, first, c);
            }
        }
        r
    }

    fn warmup(&mut self, candle: &Candle)
        ensures
            final(self).has_seen(*old(self), *candle),
            final(self).last_vote_pct == old(self).last_vote_pct,
    {
        let _unused: Option<Signal> = self.vote(candle, true);
        proof {
            assert forall|first: Seq<Candle>, c: Candle, s: Option<Signal>| #[trigger]
                self.answers(first, c, s) == old(self).answers(seq![*candle] + first, c, s) by {
                Self::lemma_later(*old(self), *self, *candle, first, c);
            }
        }
    }

    fn requires_microstructure(&self) -> (r: bool) {
        false
    }

    fn on_microstructure_snapshot(&mut self, snapshot: &MicrostructureSnapshot) -> (r: Option<
        Signal,
    >) {
        None
    }

    fn last_microstructure_decision_summary(&self) -> (r: Option<
        MicrostructureDecisionSummary,
    >) {
        None
    }

    fn current_rsi(&self) -> (r: Option<Binary64>) {
        self.last_vote_pct
    }

    fn current_series(&self) -> (r: Option<bool>) {
        self.streak.current_series()
    }

    fn current_atr(&self) -> (r: Option<Binary64>) {
        self.streak.current_atr()
    }

    fn candle_log_extras(&self) -> (r: String) {
        match self.last_vote_pct {
            Some(pct) => {
                let mut r: String = String::from_str("votes=");
                text::append_fixed(&mut r, pct, 1);
                r.append("%");
                r
            },
            None => String::from_str("votes=N/A"),
        }
    }
}

/// A color that the last three candles of a window share is shared by those of a window that ends
/// in the same three.
proof fn lemma_same_streak(long: Seq<Candle>, short: Seq<Candle>)
    requires
        ends_alike(long, short),
    ensures
        candle::same_color_streak_of(long, 3) == candle::same_color_streak_of(short, 3),
{
    if long.len() >= 3 {
        assert(candle::newest_of(long, 3) =~= candle::newest_of(short, 3));
        assert(long.last() == candle::newest_of(long, 3)[0]);
        assert(short.last() == candle::newest_of(short, 3)[0]);
    }
}

/// Whether a window of three is the end of a longer one.
spec fn ends_alike(long: Seq<Candle>, short: Seq<Candle>) -> bool {
    &&& short.len() == if long.len() < 3 {
        long.len()
    } else {
        3
    }
    &&& forall|i: int|
        0 <= i < short.len() ==> long[long.len() - 1 - i] == #[trigger] short[short.len() - 1 - i]
}

proof fn lemma_end_alike(long: Seq<Candle>, short: Seq<Candle>, candle: Candle)
    requires
        ends_alike(long, short),
        long.len() <= Z_PERIOD,
    ensures
        ends_alike(
            candle::pushed(long, candle, Z_PERIOD as int),
            candle::pushed(short, candle, 3),
        ),
        candle::pushed(long, candle, Z_PERIOD as int).len() <= Z_PERIOD,
{
    let l = candle::pushed(long, candle, Z_PERIOD as int);
    let s = candle::pushed(short, candle, 3);
    assert forall|i: int| 0 <= i < s.len() implies l[l.len() - 1 - i] == #[trigger] s[s.len() - 1
        - i] by {
        if i > 0 {
            assert(long[long.len() - 1 - (i - 1)] == short[short.len() - 1 - (i - 1)]);
        }
    }
}

proof fn lemma_end_alike_after(long: Seq<Candle>, short: Seq<Candle>, more: Seq<Candle>)
    requires
        ends_alike(long, short),
        long.len() <= Z_PERIOD,
    ensures
        ends_alike(
            candle::window_after(long, more, Z_PERIOD as int),
            candle::window_after(short, more, 3),
        ),
        candle::window_after(long, more, Z_PERIOD as int).len() <= Z_PERIOD,
    decreases more.len(),
{
    if more.len() > 0 {
        lemma_end_alike(long, short, more[0]);
        lemma_end_alike_after(
            candle::pushed(long, more[0], Z_PERIOD as int),
            candle::pushed(short, more[0], 3),
            more.drop_first(),
        );
    }
}

/// A candle that is half as much again as an average range is that range long.
proof fn lemma_wider(c: Candle, atr: Option<Binary64>)
    requires
        c.high.is_finite(),
        c.low.is_finite(),
        c.low.at_most(c.high),
        wide_of(c, half_more_of(atr)),
    ensures
        wide_of(c, atr),
{
    let x = atr.unwrap();
    law_minus_keeps_order(c.high, c.low);
    if Binary64::zero().at_most(x) {
        law_half_more_is_not_less(x);
    } else {
        reveal(Binary64::times_spec);
    }
}

/// Every call of the selective fade is a call of the streak reversal that began with the same
/// meters and saw the same candles: the prediction and the reading are the same, and it comes only
/// after three red candles with a strength of at most 25, or three green ones with one of at least
/// 75.
pub proof fn law_selective_calls_are_streak_calls<R: Meter, A: Meter>(
    selective: ReversalPro<R, A>,
    streak: StreakRsi<R, A>,
    rsi: R,
    atr: A,
    first: Seq<Candle>,
    candle: Candle,
)
    requires
        selective.is_fresh(rsi, atr),
        streak.is_fresh(rsi, atr),
        candle.high.is_finite(),
        candle.low.is_finite(),
        candle.low.at_most(candle.high),
    ensures
        selective.call_after(first, candle) matches Some(call) ==> {
            let window = candle::pushed(candle::window_after(Seq::empty(), first, 3), candle, 3);
            &&& streak.call_after(first, candle) == Some(call)
            &&& call.prediction == Prediction::Up ==> candle::same_color_streak_of(window, 3)
                == Some(false) && call.rsi.at_most(Binary64::count(25))
            &&& call.prediction == Prediction::Down ==> candle::same_color_streak_of(window, 3)
                == Some(true) && Binary64::count(75).at_most(call.rsi)
        },
{
    if selective.call_after(first, candle) is Some {
        let none = Seq::<Candle>::empty();
        let long = candle::window_after(none, first, Z_PERIOD as int);
        let short = candle::window_after(none, first, 3);
        lemma_end_alike_after(none, none, first);
        lemma_end_alike(long, short, candle);
        lemma_same_streak(
            candle::pushed(long, candle, Z_PERIOD as int),
            candle::pushed(short, candle, 3),
        );
        lemma_wider(candle, meters::fed_all(atr, first).fed(candle).reading());
        lemma_counts_in_order();
    }
}

/// 25 is at most 35, and 65 at most 75.
proof fn lemma_counts_in_order()
    ensures
        Binary64::count(25).at_most(Binary64::count(35)),
        Binary64::count(65).at_most(Binary64::count(75)),
{
    lemma2_to64();
    lemma2_to64_rest();
    lemma_count_pattern(25, 48, 0x4039_0000_0000_0000);
    lemma_count_pattern(35, 47, 0x4041_8000_0000_0000);
    lemma_count_pattern(65, 46, 0x4050_4000_0000_0000);
    lemma_count_pattern(75, 46, 0x4052_C000_0000_0000);
}

/// The composite calls only what at least two of its three voters call.
pub proof fn law_two_voters_agree(calls: Seq<Option<Call>>)
    requires
        calls.len() == 3,
    ensures
        trio_call_of(
            voters_for(calls, Prediction::Up),
            voters_for(calls, Prediction::Down),
        ) matches Some(call) ==> voters_for(calls, call.prediction) >= 2,
{
    lemma_voters_bounded(calls);
}

proof fn lemma_voters_bounded(calls: Seq<Option<Call>>)
    ensures
        voters_for(calls, Prediction::Up) + voters_for(calls, Prediction::Down) <= calls.len(),
    decreases calls.len(),
{
    if calls.len() > 0 {
        lemma_voters_bounded(calls.drop_last());
    }
}

/// Whether a number is a price: finite, not vanishing, and no more than a quadrillion.
pub open spec fn is_price(x: Binary64) -> bool {
    &&& x.is_finite()
    &&& exact(x) * 999_999_999_999real >= 1real
    &&& exact(x) <= 1_000_000_000_000_000real
}

/// Whether a candle holds prices.
pub open spec fn is_priced(c: Candle) -> bool {
    is_price(c.open) && is_price(c.high) && is_price(c.low) && is_price(c.close)
}

/// Whether every candle of a window holds prices.
pub open spec fn are_priced(window: Seq<Candle>) -> bool {
    forall|i: int| 0 <= i < window.len() ==> is_priced(#[trigger] window[i])
}

/// Where numbers vanish.
proof fn lemma_tiny()
    ensures
        indicators::tiny().is_finite(),
        size(exact(indicators::tiny()) - 1real / 1_000_000_000_000real)
            * 1_000_000_000_000_000_000_000_000_000real <= 1real,
{
    exact::law_ratio(false, 1, 1_000_000_000_000);
    exact::lemma_scale();
    exact::lemma_speck_is_tiny();
    let (e, t) = (exact::eps(), exact::speck());
    let v = 1int as real / 1_000_000_000_000int as real;
    let w = size(exact(indicators::tiny()) - v);
    assert(w * 1_000_000_000_000_000_000_000_000_000real <= 1real) by (nonlinear_arith)
        requires
            w <= v * e + t,
            v == 1real / 1_000_000_000_000real,
            e == 1real / 9_007_199_254_740_992real,
            t <= 1real / 1_000_000_000_000_000_000_000_000_000_000_000_000_000real,
    ;
}

/// A price has not vanished.
proof fn lemma_price_tells(x: Binary64)
    requires
        is_price(x),
    ensures
        indicators::tiny().less(x.abs()),
        !x.abs().at_most(indicators::tiny()),
        exact(x.abs()) == exact(x),
        x.abs().is_finite(),
{
    lemma_tiny();
    exact::law_signs_are_exact(x);
    exact::law_order_is_exact(indicators::tiny(), x.abs());
    exact::law_order_is_exact(x.abs(), indicators::tiny());
}

/// By how large a share of itself a price is off another: exact up to a few roundings.
proof fn lemma_share(a: Binary64, b: Binary64)
    requires
        is_price(a),
        is_price(b),
    ensures
        a.minus(b).over(a).is_finite(),
        size(exact(a.minus(b).over(a)) - (exact(a) - exact(b)) / exact(a))
            * 1_000_000_000_000_000real <= size((exact(a) - exact(b)) / exact(a)) + 1real
            / 1_000_000_000real,
{
    exact::lemma_scale();
    exact::lemma_speck_is_tiny();
    exact::lemma_big_is_big();
    let (e, t) = (exact::eps(), exact::speck());
    assert(e == 1real / 9_007_199_254_740_992real);
    let (x, y) = (exact(a), exact(b));
    let d = x - y;
    exact::law_minus(a, b);
    let r = exact(a.minus(b));
    let q = d / x;
    let p = r / x;
    assert(q * x == d && p * x == r) by (nonlinear_arith)
        requires
            q == d / x,
            p == r / x,
            x * 999_999_999_999real >= 1real,
    ;
    assert(size(q) * x == size(d) && size(p - q) * x == size(r - d)) by (nonlinear_arith)
        requires
            q * x == d,
            p * x == r,
            x * 999_999_999_999real >= 1real,
            size(q) == (if q < 0real { -q } else { q }),
            size(d) == (if d < 0real { -d } else { d }),
            size(p - q) == (if p - q < 0real { -(p - q) } else { p - q }),
            size(r - d) == (if r - d < 0real { -(r - d) } else { r - d }),
    ;
    let tt = 1real / 1_000_000_000_000_000_000_000_000_000real;
    let (sq, sd, spq, srd) = (size(q), size(d), size(p - q), size(r - d));
    assert(spq <= sq * e + tt) by (nonlinear_arith)
        requires
            sq * x == sd,
            spq * x == srd,
            srd <= sd * e + t,
            0real <= t,
            t * 1_000_000_000_000_000_000_000_000_000_000_000_000_000real <= 1real,
            tt * 1_000_000_000_000_000_000_000_000_000real == 1real,
            x * 999_999_999_999real >= 1real,
    ;
    assert(sq <= 1_000_000_000_000_000_000_000_000_000_000real) by (nonlinear_arith)
        requires
            sq * x == sd,
            sd <= 1_000_000_000_000_000real,
            x * 999_999_999_999real >= 1real,
            sq >= 0real,
    ;
    assert(sq * e <= sq) by (nonlinear_arith)
        requires
            sq >= 0real,
            e == 1real / 9_007_199_254_740_992real,
    ;
    let sp = size(p);
    assert(sp <= sq + spq);
    exact::law_over(a.minus(b), a);
    let z = exact(a.minus(b).over(a));
    assert(size(z - p) <= sp * e + t);
    let w = size(z - q);
    assert(w <= size(z - p) + spq);
    assert(w * 1_000_000_000_000_000real <= sq + 1real / 1_000_000_000real) by (nonlinear_arith)
        requires
            w <= sp * e + t + spq,
            sp <= sq + spq,
            spq <= sq * e + tt,
            sq >= 0real,
            tt * 1_000_000_000_000_000_000_000_000_000real == 1real,
            t * 1_000_000_000_000_000_000_000_000_000_000_000_000_000real <= 1real,
            e == 1real / 9_007_199_254_740_992real,
    ;
}

/// Whether none of the lows of the last twelve candles is more than a share of a price below it.
pub open spec fn at_the_bottom(window: Seq<Candle>, price: real, share: real) -> bool {
    forall|i: int|
        window.len() - 12 <= i < window.len() ==> price - exact((#[trigger] window[i]).low) <= price
            * share
}

/// Whether none of the highs of the last twelve candles is more than a share of a price above it.
pub open spec fn at_the_top(window: Seq<Candle>, price: real, share: real) -> bool {
    forall|i: int|
        window.len() - 12 <= i < window.len() ==> exact((#[trigger] window[i]).high) - price <= price
            * share
}

/// The edges of a channel of twelve candles.
proof fn lemma_channel(window: Seq<Candle>) -> (edges: (int, int))
    requires
        window.len() >= 12,
        are_priced(window),
    ensures
        window.len() - 12 <= edges.0 < window.len(),
        window.len() - 12 <= edges.1 < window.len(),
        indicators::lowest_low(window, 12) == window[edges.0].low,
        indicators::highest_high(window, 12) == window[edges.1].high,
        forall|i: int|
            window.len() - 12 <= i < window.len() ==> exact(window[edges.0].low) <= exact(
                (#[trigger] window[i]).low,
            ) && exact(window[i].high) <= exact(window[edges.1].high),
{
    let lows = indicators::recent_of(window, 12, Field::Low);
    let highs = indicators::recent_of(window, 12, Field::High);
    let n = window.len() - 1;
    assert forall|i: int| 0 <= i < 12 implies (#[trigger] lows[i]).is_finite() by {
        assert(is_priced(window[n - i]));
    }
    assert forall|i: int| 0 <= i < 12 implies (#[trigger] highs[i]).is_finite() by {
        assert(is_priced(window[n - i]));
    }
    let k = statistics::law_lowest(lows);
    let m = statistics::law_highest(highs);
    assert forall|i: int| window.len() - 12 <= i < window.len() implies exact(window[n - k].low)
        <= exact((#[trigger] window[i]).low) && exact(window[i].high) <= exact(
        window[n - m].high,
    ) by {
        assert(lows[n - i] == window[i].low);
        assert(highs[n - i] == window[i].high);
    }
    (n - k, n - m)
}

/// Where a price is within some share of one edge, by what is computed and by what is exact.
proof fn lemma_edge(x: real, q: real, computed: real, bound: real)
    requires
        size(computed - q) * 1_000_000_000_000_000real <= size(q) + 1real / 1_000_000_000real,
        size(bound - 35real / 100_000real) * 1_000_000_000_000_000_000real <= 1real,
        x > 0real,
    ensures
        computed <= bound ==> q * x <= x * (3501real / 10_000_000real),
        q * x <= x * (3499real / 10_000_000real) ==> computed <= bound,
        -bound <= computed ==> -(q * x) <= x * (3501real / 10_000_000real),
        -(q * x) <= x * (3499real / 10_000_000real) ==> -bound <= computed,
{
    if computed <= bound {
        assert(q <= 3501real / 10_000_000real);
        assert(q * x <= x * (3501real / 10_000_000real)) by (nonlinear_arith)
            requires
                q <= 3501real / 10_000_000real,
                x > 0real,
        ;
    }
    if q * x <= x * (3499real / 10_000_000real) {
        assert(q <= 3499real / 10_000_000real) by (nonlinear_arith)
            requires
                q * x <= x * (3499real / 10_000_000real),
                x > 0real,
        ;
    }
    if -bound <= computed {
        assert(-q <= 3501real / 10_000_000real);
        assert(-(q * x) <= x * (3501real / 10_000_000real)) by (nonlinear_arith)
            requires
                -q <= 3501real / 10_000_000real,
                x > 0real,
        ;
    }
    if -(q * x) <= x * (3499real / 10_000_000real) {
        assert(-q <= 3499real / 10_000_000real) by (nonlinear_arith)
            requires
                -(q * x) <= x * (3499real / 10_000_000real),
                x > 0real,
        ;
    }
}

/// The Donchian fade bets against the move. It calls up only where the score is at most -2.1, the
/// bodies come to at most -0.0045 and the close is at the bottom of the channel, within 0.035
/// percent; and down only where all is the other way round. Where it is so, it calls.
pub proof fn law_donchian_fades(
    window: Seq<Candle>,
    pressure: Binary64,
    z: Binary64,
    c: Candle,
)
    requires
        are_priced(window),
        is_price(c.close),
        signed_body_sum_of(window, 6) == Some(pressure),
        pressure.is_finite(),
        z.is_finite(),
    ensures
        donch_zscore_of(window, None, c) is None,
        donch_zscore_of(window, Some(z), c) == Some(Prediction::Up) ==> {
            &&& window.len() >= 24
            &&& exact(z) <= exact(Binary64::ratio(true, 21, 10)) < -20_999real / 10_000real
            &&& exact(pressure) <= exact(Binary64::ratio(true, 45, 10_000)) < -44_999real
                / 10_000_000real
            &&& at_the_bottom(window, exact(c.close), 3501real / 10_000_000real)
        },
        donch_zscore_of(window, Some(z), c) == Some(Prediction::Down) ==> {
            &&& window.len() >= 24
            &&& exact(z) >= exact(Binary64::ratio(false, 21, 10)) > 20_999real / 10_000real
            &&& exact(pressure) >= exact(Binary64::ratio(false, 45, 10_000)) > 44_999real
                / 10_000_000real
            &&& at_the_top(window, exact(c.close), 3501real / 10_000_000real)
        },
        window.len() >= 24 && exact(z) <= exact(Binary64::ratio(true, 21, 10)) && exact(pressure)
            <= exact(Binary64::ratio(true, 45, 10_000)) && at_the_bottom(
            window,
            exact(c.close),
            3499real / 10_000_000real,
        ) ==> donch_zscore_of(window, Some(z), c) == Some(Prediction::Up),
        window.len() >= 24 && exact(z) >= exact(Binary64::ratio(false, 21, 10)) && exact(pressure)
            >= exact(Binary64::ratio(false, 45, 10_000)) && at_the_top(
            window,
            exact(c.close),
            3499real / 10_000_000real,
        ) ==> donch_zscore_of(window, Some(z), c) == Some(Prediction::Down),
{
    exact::lemma_scale();
    exact::lemma_speck_is_tiny();
    exact::law_ratio(true, 21, 10);
    exact::law_ratio(false, 21, 10);
    exact::law_ratio(true, 45, 10_000);
    exact::law_ratio(false, 45, 10_000);
    exact::law_ratio(true, 35, 100_000);
    exact::law_ratio(false, 35, 100_000);
    lemma_price_tells(c.close);
    if window.len() >= 24 {
        let (i, j) = lemma_channel(window);
        assert(is_priced(window[i]) && is_priced(window[j]));
        let (low, high) = (window[i].low, window[j].high);
        lemma_share(c.close, low);
        lemma_share(c.close, high);
        let x = exact(c.close);
        let (p, q) = ((x - exact(low)) / x, (x - exact(high)) / x);
        assert(p * x == x - exact(low) && q * x == x - exact(high)) by (nonlinear_arith)
            requires
                p == (x - exact(low)) / x,
                q == (x - exact(high)) / x,
                x * 999_999_999_999real >= 1real,
        ;
        let near = number_of(35, 100_000);
        let below = Binary64::ratio(true, 35, 100_000);
        lemma_opposite(35, 100_000);
        let (a, b) = (c.close.minus(low).over(c.close), c.close.minus(high).over(c.close));
        lemma_edge(x, p, exact(a), exact(near));
        lemma_edge(x, q, exact(b), exact(near));
        exact::law_order_is_exact(a, near);
        exact::law_order_is_exact(below, b);
        exact::law_order_is_exact(pressure, Binary64::ratio(true, 45, 10_000));
        exact::law_order_is_exact(Binary64::ratio(false, 45, 10_000), pressure);
        exact::law_order_is_exact(z, Binary64::ratio(true, 21, 10));
        exact::law_order_is_exact(Binary64::ratio(false, 21, 10), z);
    }
}

/// A negative ratio is the negation of the positive one.
proof fn lemma_opposite(p: u64, q: u64)
    requires
        q > 0,
    ensures
        exact(Binary64::ratio(true, p, q)) == -exact(Binary64::ratio(false, p, q)),
{
    reveal(Binary64::ratio_spec);
    exact::law_ratio(false, p, q);
    exact::law_signs_are_exact(Binary64::ratio(false, p, q));
    exact::lemma_scale();
    let (a, b) = (Binary64::ratio(false, p, q), Binary64::ratio(true, p, q));
    let w = pow2(1074) as int;
    let pattern = rounding::rounded(p * w, q as int);
    lemma_pow2_pos(1074);
    lemma_pow2_adds(1074, 1023);
    lemma2_to64();
    rounding::lemma_pow2_monotone(64, 1023);
    assert(0 <= p * w <= pow2(2097) * q) by (nonlinear_arith)
        requires
            0 <= p < pow2(1023),
            q > 0,
            w > 0,
            pow2(2097) == w * pow2(1023),
    ;
    rounding::law_rounded_is_close(p * w, q as int);
    assert(a == signed(false, pattern) && b == signed(true, pattern));
    assert(a.magnitude() == pattern && b.magnitude() == pattern);
    assert(b.negative() && !a.negative());
    assert(b.value() == -a.value());
    let v = a.value() as real;
    let s = exact::scale();
    assert((-v) / s == -(v / s)) by (nonlinear_arith)
        requires
            s >= 1real,
    ;
}

/// A quotient of two differences of prices, where the divisor has not vanished: exact up to a few
/// roundings.
proof fn lemma_body(a: Binary64, b: Binary64, c: Binary64, d: Binary64)
    requires
        is_price(a),
        is_price(b),
        is_price(c),
        is_price(d),
        (exact(c) - exact(d)) * 999_999_999_999real >= 1real,
    ensures
        c.minus(d).is_finite(),
        indicators::tiny().less(c.minus(d).abs()),
        a.minus(b).abs().over(c.minus(d)).is_finite(),
        size(
            exact(a.minus(b).abs().over(c.minus(d))) - size(exact(a) - exact(b)) / (exact(c)
                - exact(d)),
        ) * 1_000_000_000_000_000real <= size(exact(a) - exact(b)) / (exact(c) - exact(d)) + 1real
            / 1_000_000_000real,
{
    exact::lemma_scale();
    exact::lemma_speck_is_tiny();
    exact::lemma_big_is_big();
    lemma_tiny();
    let (e, t) = (exact::eps(), exact::speck());
    assert(e == 1real / 9_007_199_254_740_992real);
    exact::law_minus(a, b);
    exact::law_minus(c, d);
    let (body, range) = (a.minus(b), c.minus(d));
    exact::law_signs_are_exact(body);
    exact::law_signs_are_exact(range);
    let (n, m) = (size(exact(a) - exact(b)), exact(c) - exact(d));
    let (x, y) = (size(exact(body)), exact(range));
    assert(size(x - n) <= n * e + t);
    assert(size(y - m) <= m * e + t);
    assert(y * 1_000_000_000_000real > 1real + 1real / 10_000_000_000_000real) by (nonlinear_arith)
        requires
            y >= m - m * e - t,
            m * 999_999_999_999real >= 1real,
            e == 1real / 9_007_199_254_740_992real,
            t <= 1real / 1_000_000_000_000_000_000_000_000_000_000_000_000_000real,
    ;
    exact::law_order_is_exact(indicators::tiny(), range.abs());
    let q = n / m;
    let p = x / y;
    assert(q * m == n && p * y == x) by (nonlinear_arith)
        requires
            q == n / m,
            p == x / y,
            m * 999_999_999_999real >= 1real,
            y * 1_000_000_000_000real > 1real,
    ;
    assert(q >= 0real && p >= 0real) by (nonlinear_arith)
        requires
            q * m == n,
            p * y == x,
            n >= 0real,
            x >= 0real,
            m * 999_999_999_999real >= 1real,
            y * 1_000_000_000_000real > 1real,
    ;
    let tt = 1real / 10_000_000_000real;
    let mt = m * tt;
    assert(t <= mt * e) by (nonlinear_arith)
        requires
            mt == m * tt,
            m * 999_999_999_999real >= 1real,
            tt == 1real / 10_000_000_000real,
            t <= 1real / 1_000_000_000_000_000_000_000_000_000_000_000_000_000real,
            e == 1real / 9_007_199_254_740_992real,
    ;
    exact::lemma_quotient(n, m, x, y, q, p, e, tt);
    assert(p <= 1_000_000_000_000_000_000_000_000_000_000real) by (nonlinear_arith)
        requires
            p * y == x,
            x <= 10_000_000_000_000_000real,
            y * 1_000_000_000_000real > 1real,
            p >= 0real,
    ;
    exact::law_over(body.abs(), range);
    let z = exact(body.abs().over(range));
    assert(size(z - p) <= p * e + t);
    assert(size(z - q) <= size(z - p) + size(p - q));
    let w = size(z - q);
    assert(w * 1_000_000_000_000_000real <= q + 1real / 1_000_000_000real) by (nonlinear_arith)
        requires
            w <= p * e + t + (4real * q * e + 4real * tt * e),
            p <= q + 4real * q * e + 4real * tt * e,
            q >= 0real,
            tt == 1real / 10_000_000_000real,
            t <= 1real / 1_000_000_000_000_000_000_000_000_000_000_000_000_000real,
            e == 1real / 9_007_199_254_740_992real,
    ;
}

/// The body of a candle with a range is the distance of its close from its open, as a share of the
/// distance of its high from its low, up to a few roundings; a candle whose high is its low has
/// none.
pub proof fn law_body_ratio(c: Candle)
    requires
        is_priced(c),
        exact(c.low) <= exact(c.high),
    ensures
        (exact(c.high) - exact(c.low)) * 999_999_999_999real >= 1real ==> {
            let share = size(exact(c.close) - exact(c.open)) / (exact(c.high) - exact(c.low));
            &&& body_ratio_of(c) matches Some(ratio)
            &&& ratio.is_finite()
            &&& size(exact(ratio) - share) * 1_000_000_000_000_000real <= share + 1real
                / 1_000_000_000real
        },
        exact(c.high) == exact(c.low) ==> body_ratio_of(c) is None,
{
    if (exact(c.high) - exact(c.low)) * 999_999_999_999real >= 1real {
        lemma_body(c.close, c.open, c.high, c.low);
    }
    if exact(c.high) == exact(c.low) {
        exact::lemma_scale();
        exact::lemma_big_is_big();
        exact::lemma_speck_is_tiny();
        lemma_tiny();
        exact::law_minus(c.high, c.low);
        let range = c.high.minus(c.low);
        assert(0real * exact::eps() == 0real) by (nonlinear_arith);
        exact::law_signs_are_exact(range);
        exact::law_order_is_exact(indicators::tiny(), range.abs());
    }
}

/// Whether a candle spreads over a range that has not vanished.
pub open spec fn spreads(c: Candle) -> bool {
    is_priced(c) && (exact(c.high) - exact(c.low)) * 999_999_999_999real >= 1real
}

/// Whether the body of a candle is at least a share of its range.
pub open spec fn body_takes(c: Candle, share: real) -> bool {
    size(exact(c.close) - exact(c.open)) >= (exact(c.high) - exact(c.low)) * share
}

/// Where a body takes some share, by what is computed and by what is exact.
proof fn lemma_body_takes(c: Candle, p: u64, q: u64)
    requires
        spreads(c),
        0 < p < q <= 1_000,
    ensures
        body_ratio_of(c) is Some,
        body_ratio_of(c).unwrap().is_finite(),
        number_of(p, q).is_finite(),
        number_of(p, q).at_most(body_ratio_of(c).unwrap()) <==> !body_ratio_of(c).unwrap().less(
            number_of(p, q),
        ),
        number_of(p, q).at_most(body_ratio_of(c).unwrap()) ==> body_takes(
            c,
            p as int as real / q as int as real - 1real / 100_000_000_000_000real,
        ),
        body_takes(c, p as int as real / q as int as real + 1real / 100_000_000_000_000real)
            ==> number_of(p, q).at_most(body_ratio_of(c).unwrap()),
{
    law_body_ratio(c);
    exact::law_ratio(false, p, q);
    exact::lemma_scale();
    exact::lemma_speck_is_tiny();
    let ratio = body_ratio_of(c).unwrap();
    let bound = number_of(p, q);
    exact::law_order_is_exact(ratio, bound);
    exact::law_order_is_exact(bound, ratio);
    let (n, m) = (size(exact(c.close) - exact(c.open)), exact(c.high) - exact(c.low));
    let share = n / m;
    assert(share * m == n) by (nonlinear_arith)
        requires
            share == n / m,
            m * 999_999_999_999real >= 1real,
    ;
    let (a, b) = (p as int as real, q as int as real);
    let v = a / b;
    let e = exact::eps();
    assert(0real < v < 1real) by (nonlinear_arith)
        requires
            v == a / b,
            0real < a < b,
    ;
    assert(v * e <= 1real / 1_000_000_000_000_000real) by (nonlinear_arith)
        requires
            0real < v < 1real,
            e == 1real / 9_007_199_254_740_992real,
    ;
    let d = 1real / 100_000_000_000_000real;
    if bound.at_most(ratio) {
        assert(share >= v - d);
        assert(n >= m * (v - d)) by (nonlinear_arith)
            requires
                share >= v - d,
                share * m == n,
                m * 999_999_999_999real >= 1real,
        ;
    }
    if n >= m * (v + d) {
        assert(share >= v + d) by (nonlinear_arith)
            requires
                n >= m * (v + d),
                share * m == n,
                m * 999_999_999_999real >= 1real,
        ;
    }
}

/// How far a line between bands is off, at most.
pub open spec fn band_slack(mean: Binary64, deviation: Binary64) -> real {
    (size(exact(mean)) + size(exact(deviation)) + 1real) / 100_000_000_000_000real
}

/// The bands stand 2.2 deviations off the mean.
proof fn lemma_bands(mean: Binary64, deviation: Binary64)
    requires
        mean.is_finite(),
        deviation.is_finite(),
        size(exact(mean)) <= 1_000_000_000_000_000real,
        0real <= exact(deviation) <= 1_000_000_000_000_000real,
    ensures
        ({
            let width = number_of(22, 10).times(deviation);
            let slack = band_slack(mean, deviation);
            &&& mean.minus(width).is_finite()
            &&& mean.plus(width).is_finite()
            &&& size(exact(mean.minus(width)) - (exact(mean) - exact(deviation) * 22real / 10real))
                <= slack
            &&& size(exact(mean.plus(width)) - (exact(mean) + exact(deviation) * 22real / 10real))
                <= slack
        }),
{
    exact::law_ratio(false, 22, 10);
    exact::lemma_scale();
    exact::lemma_speck_is_tiny();
    exact::lemma_big_is_big();
    let (e, t) = (exact::eps(), exact::speck());
    let k = number_of(22, 10);
    let (m, d) = (exact(mean), exact(deviation));
    let x = exact(k);
    let v = 22int as real / 10int as real;
    assert(v * e <= 1real / 2_000_000_000_000_000real) by (nonlinear_arith)
        requires
            v == 22real / 10real,
            e == 1real / 9_007_199_254_740_992real,
    ;
    assert(size(x - 22real / 10real) <= 1real / 1_000_000_000_000_000real);
    let xd = x * d;
    assert(0real <= xd <= 3real * d && size(xd - d * 22real / 10real) <= d / 1_000_000_000_000_000real)
        by (nonlinear_arith)
        requires
            xd == x * d,
            d >= 0real,
            -(1real / 1_000_000_000_000_000real) <= x - 22real / 10real <= 1real
                / 1_000_000_000_000_000real,
            size(xd - d * 22real / 10real) == (if xd - d * 22real / 10real < 0real {
                -(xd - d * 22real / 10real)
            } else {
                xd - d * 22real / 10real
            }),
    ;
    exact::law_times(k, deviation);
    let width = k.times(deviation);
    let w = exact(width);
    assert(xd * e <= d / 2_000_000_000_000_000real) by (nonlinear_arith)
        requires
            0real <= xd <= 3real * d,
            e == 1real / 9_007_199_254_740_992real,
    ;
    let want = d * 22real / 10real;
    let t_small = 1real / 1_000_000_000_000_000_000_000_000_000_000_000_000_000real;
    assert(size(w - want) <= d / 500_000_000_000_000real + t_small);
    exact::law_minus(mean, width);
    exact::law_plus(mean, width);
    let (lower, upper) = (size(m - w), size(m + w));
    let most = size(m) + 4real * d + 1real;
    assert(lower <= most && upper <= most);
    assert(lower * e <= most / 9_000_000_000_000_000real && upper * e <= most
        / 9_000_000_000_000_000real) by (nonlinear_arith)
        requires
            0real <= lower <= most,
            0real <= upper <= most,
            e == 1real / 9_007_199_254_740_992real,
    ;
    let (low, high) = (exact(mean.minus(width)), exact(mean.plus(width)));
    let near = most / 9_000_000_000_000_000real + t_small;
    assert(size(low - (m - w)) <= near);
    assert(size(high - (m + w)) <= near);
    lemma_slack(low, m - w, m - want, near, d, size(m));
    lemma_slack(high, m + w, m + want, near, d, size(m));
}

/// Two small distances make a small one.
proof fn lemma_slack(x: real, y: real, z: real, near: real, d: real, m: real)
    requires
        size(x - y) <= near,
        size(y - z) <= d / 500_000_000_000_000real + 1real
            / 1_000_000_000_000_000_000_000_000_000_000_000_000_000real,
        near == (m + 4real * d + 1real) / 9_000_000_000_000_000real + 1real
            / 1_000_000_000_000_000_000_000_000_000_000_000_000_000real,
        d >= 0real,
        m >= 0real,
    ensures
        size(x - z) <= (m + d + 1real) / 100_000_000_000_000real,
{
}

/// The Bollinger fade bets against the move. It calls up only on a falling candle, at least half of
/// it body, that closes more than 2.2 deviations below the mean of twenty closes; and down only on a
/// rising one that closes as far above it. Where it is so, it calls.
pub proof fn law_bollinger_fades(window: Seq<Candle>, c: Candle, mean: Binary64, deviation: Binary64)
    requires
        spreads(c),
        bands_of(window) == (mean, deviation),
        mean.is_finite(),
        deviation.is_finite(),
        size(exact(mean)) <= 1_000_000_000_000_000real,
        0real <= exact(deviation) <= 1_000_000_000_000_000real,
    ensures
        boll_fade_of(window, c) == Some(Prediction::Up) ==> {
            &&& window.len() >= 20
            &&& exact(c.close) < exact(c.open)
            &&& body_takes(c, 1real / 2real - 1real / 100_000_000_000_000real)
            &&& exact(c.close) < exact(mean) - exact(deviation) * 22real / 10real + band_slack(
                mean,
                deviation,
            )
        },
        boll_fade_of(window, c) == Some(Prediction::Down) ==> {
            &&& window.len() >= 20
            &&& exact(c.open) < exact(c.close)
            &&& body_takes(c, 1real / 2real - 1real / 100_000_000_000_000real)
            &&& exact(c.close) > exact(mean) + exact(deviation) * 22real / 10real - band_slack(
                mean,
                deviation,
            )
        },
        window.len() >= 20 && exact(c.close) < exact(c.open) && body_takes(
            c,
            1real / 2real + 1real / 100_000_000_000_000real,
        ) && exact(c.close) < exact(mean) - exact(deviation) * 22real / 10real - band_slack(
            mean,
            deviation,
        ) ==> boll_fade_of(window, c) == Some(Prediction::Up),
        window.len() >= 20 && exact(c.open) < exact(c.close) && body_takes(
            c,
            1real / 2real + 1real / 100_000_000_000_000real,
        ) && exact(c.close) > exact(mean) + exact(deviation) * 22real / 10real + band_slack(
            mean,
            deviation,
        ) ==> boll_fade_of(window, c) == Some(Prediction::Down),
{
    lemma_body_takes(c, 1, 2);
    lemma_bands(mean, deviation);
    candle::law_colors(c);
    let width = number_of(22, 10).times(deviation);
    exact::law_order_is_exact(c.close, mean.minus(width));
    exact::law_order_is_exact(mean.plus(width), c.close);
}

/// A candle is wide exactly where its range is at least a measure and its body at least three fifths
/// of the range, up to a few roundings; without a measure none is.
pub proof fn law_wide(c: Candle, least: Binary64)
    requires
        spreads(c),
        least.is_finite(),
    ensures
        !wide_of(c, None),
        wide_of(c, Some(least)) ==> exact(least) <= (exact(c.high) - exact(c.low)) * (1real + 1real
            / 1_000_000_000_000_000real) && body_takes(
            c,
            6real / 10real - 1real / 100_000_000_000_000real,
        ),
        exact(least) <= (exact(c.high) - exact(c.low)) * (1real - 1real / 1_000_000_000_000_000real)
            && body_takes(c, 6real / 10real + 1real / 100_000_000_000_000real) ==> wide_of(
            c,
            Some(least),
        ),
{
    lemma_body_takes(c, 6, 10);
    exact::lemma_scale();
    exact::lemma_speck_is_tiny();
    exact::lemma_big_is_big();
    let (e, t) = (exact::eps(), exact::speck());
    let range = c.high.minus(c.low);
    let m = exact(c.high) - exact(c.low);
    exact::law_minus(c.high, c.low);
    exact::law_order_is_exact(least, range);
    let y = exact(range);
    assert(y <= m * (1real + 1real / 1_000_000_000_000_000real) && y >= m * (1real - 1real
        / 1_000_000_000_000_000real)) by (nonlinear_arith)
        requires
            m - (m * e + t) <= y <= m + (m * e + t),
            m * 999_999_999_999real >= 1real,
            e == 1real / 9_007_199_254_740_992real,
            t <= 1real / 1_000_000_000_000_000_000_000_000_000_000_000_000_000real,
    ;
}

/// The streak reversal bets against the streak: on a wide candle it calls up exactly after three
/// falling candles with a strength of at most 35, and down exactly after three rising ones with a
/// strength of at least 65. On any other candle it is quiet.
pub proof fn law_streaks_are_reversed(
    window: Seq<Candle>,
    rsi: Binary64,
    atr: Option<Binary64>,
    c: Candle,
)
    requires
        are_priced(window),
        rsi.is_finite(),
    ensures
        streak_rsi_of(window, Some(rsi), atr, c) == Some(Prediction::Up) <==> window.len() >= 3
            && candle::all_fall(window, 3) && exact(rsi) <= 35real && wide_of(c, atr),
        streak_rsi_of(window, Some(rsi), atr, c) == Some(Prediction::Down) <==> window.len() >= 3
            && candle::all_rise(window, 3) && exact(rsi) >= 65real && wide_of(c, atr),
        streak_rsi_of(window, None, atr, c) is None,
{
    lemma_finite_opens(window);
    candle::law_streaks(window, 3);
    exact::law_counts_are_exact(35);
    exact::law_counts_are_exact(65);
    exact::law_order_is_exact(rsi, Binary64::count(35));
    exact::law_order_is_exact(Binary64::count(65), rsi);
}

proof fn lemma_finite_opens(window: Seq<Candle>)
    requires
        are_priced(window),
    ensures
        forall|i: int|
            0 <= i < window.len() ==> (#[trigger] window[i]).open.is_finite()
                && window[i].close.is_finite(),
{
    assert forall|i: int| 0 <= i < window.len() implies (#[trigger] window[i]).open.is_finite()
        && window[i].close.is_finite() by {
        assert(is_priced(window[i]));
    }
}

/// The selective fade bets against the streak too: on a candle one and a half times as long as the
/// average it calls up exactly after three falling candles with a strength of at most 25 and a score
/// of at most -2, and down exactly after three rising ones with a strength of at least 75 and a
/// score of at least 2. On any other candle it is quiet.
pub proof fn law_selective_fades(
    window: Seq<Candle>,
    rsi: Binary64,
    atr: Binary64,
    z: Binary64,
    c: Candle,
)
    requires
        are_priced(window),
        rsi.is_finite(),
        z.is_finite(),
        atr.is_finite(),
        size(exact(atr)) <= 1_000_000_000_000_000real,
        spreads(c),
    ensures
        ({
            let range = exact(c.high) - exact(c.low);
            let long = range * (1real + 1real / 100_000_000_000_000real) >= exact(atr) * 15real
                / 10real && body_takes(c, 6real / 10real - 1real / 100_000_000_000_000real);
            let surely_long = range * (1real - 1real / 100_000_000_000_000real) >= exact(atr)
                * 15real / 10real && body_takes(
                c,
                6real / 10real + 1real / 100_000_000_000_000real,
            );
            let up = window.len() >= 3 && candle::all_fall(window, 3) && exact(rsi) <= 25real
                && exact(z) <= -2real;
            let down = window.len() >= 3 && candle::all_rise(window, 3) && exact(rsi) >= 75real
                && exact(z) >= 2real;
            let called = reversal_pro_of(window, Some(rsi), Some(atr), Some(z), c);
            &&& called == Some(Prediction::Up) ==> up && long
            &&& called == Some(Prediction::Down) ==> down && long
            &&& up && surely_long ==> called == Some(Prediction::Up)
            &&& down && surely_long ==> called == Some(Prediction::Down)
        }),
        reversal_pro_of(window, None, Some(atr), Some(z), c) is None,
        reversal_pro_of(window, Some(rsi), None, Some(z), c) is None,
        reversal_pro_of(window, Some(rsi), Some(atr), None, c) is None,
{
    lemma_finite_opens(window);
    candle::law_streaks(window, 3);
    exact::law_counts_are_exact(25);
    exact::law_counts_are_exact(75);
    exact::law_counts_are_exact(2);
    exact::law_order_is_exact(rsi, Binary64::count(25));
    exact::law_order_is_exact(Binary64::count(75), rsi);
    exact::law_order_is_exact(z, Binary64::ratio(true, 2, 1));
    exact::law_order_is_exact(Binary64::count(2), z);
    exact::law_half_more(atr);
    let more = number_of(15, 10).times(atr);
    law_wide(c, more);
    let range = exact(c.high) - exact(c.low);
    let (a, b) = (exact(atr) * 15real / 10real, exact(more));
    let (e, t) = (exact::eps(), exact::speck());
    exact::lemma_scale();
    exact::lemma_speck_is_tiny();
    assert(size(b - a) <= size(a) * e + t);
    assert(b <= range * (1real + 1real / 1_000_000_000_000_000real) ==> range * (1real + 1real
        / 100_000_000_000_000real) >= a) by (nonlinear_arith)
        requires
            a - b <= (if a < 0real { -a } else { a }) * e + t,
            range * 999_999_999_999real >= 1real,
            e == 1real / 9_007_199_254_740_992real,
            t <= 1real / 1_000_000_000_000_000_000_000_000_000_000_000_000_000real,
    ;
    assert(range * (1real - 1real / 100_000_000_000_000real) >= a ==> b <= range * (1real - 1real
        / 1_000_000_000_000_000real)) by (nonlinear_arith)
        requires
            b - a <= (if a < 0real { -a } else { a }) * e + t,
            range * 999_999_999_999real >= 1real,
            e == 1real / 9_007_199_254_740_992real,
            t <= 1real / 1_000_000_000_000_000_000_000_000_000_000_000_000_000real,
    ;
}

/// The composite of three voters calls a way exactly where at least two of them do, and is quiet
/// otherwise.
pub proof fn law_majority_of_three(a: Option<Call>, b: Option<Call>, c: Option<Call>)
    ensures
        ({
            let calls = seq![a, b, c];
            let called = trio_call_of(
                voters_for(calls, Prediction::Up),
                voters_for(calls, Prediction::Down),
            );
            let goes = |v: Option<Call>, way: Prediction| v is Some && v.unwrap().prediction == way;
            let two = |way: Prediction|
                goes(a, way) && goes(b, way) || goes(a, way) && goes(c, way) || goes(b, way)
                    && goes(c, way);
            &&& called is Some && called.unwrap().prediction == Prediction::Up <==> two(
                Prediction::Up,
            )
            &&& called is Some && called.unwrap().prediction == Prediction::Down <==> two(
                Prediction::Down,
            )
        }),
{
    let calls = seq![a, b, c];
    reveal_with_fuel(voters_for, 4);
    assert(calls.drop_last() =~= seq![a, b]);
    assert(calls.drop_last().drop_last() =~= seq![a]);
    assert(calls.drop_last().drop_last().drop_last() =~= Seq::<Option<Call>>::empty());
}

/// Of up to three voters, the share of the larger side in percent, up to a few roundings.
pub proof fn law_vote_share(up: nat, down: nat)
    requires
        0 < up + down <= 3,
    ensures
        ({
            let larger = if up < down {
                down
            } else {
                up
            };
            &&& vote_pct_of(up, down) matches Some(pct)
            &&& pct.is_finite()
            &&& size(
                exact(pct) - 100real * (larger as int as real) / ((up + down) as int as real),
            ) * 10_000_000_000real <= 1real
        }),
        vote_pct_of(0, 0) is None,
{
    let larger = if up >= down {
        up
    } else {
        down
    };
    exact::lemma_scale();
    exact::lemma_big_is_big();
    exact::law_counts_are_exact(larger as u64);
    exact::law_counts_are_exact(100);
    exact::law_counts_are_exact((up + down) as u64);
    let (n, m) = (larger as int as real, (up + down) as int as real);
    let x = Binary64::count(larger as u64);
    let y = Binary64::count((up + down) as u64);
    exact::lemma_within_itself(x, 3real);
    exact::lemma_within_times(x, n, 3real, 0real, Binary64::count(100), 100real);
    let part = 300real / m;
    assert(part * m == 300real && part >= 100real && part <= 300real) by (nonlinear_arith)
        requires
            part == 300real / m,
            1real <= m <= 3real,
    ;
    let z = x.times(Binary64::count(100));
    exact::lemma_within_over(z, n * 100real, 300real, 2real, y, part);
    let pct = z.over(y);
    let e = exact::eps();
    assert(4real * part * e * 10_000_000_000real <= 1real) by (nonlinear_arith)
        requires
            part <= 300real,
            e == 1real / 9_007_199_254_740_992real,
    ;
    let w = size(exact(pct) - n * 100real / m);
    assert(w <= 4real * part * e);
    assert(w * 10_000_000_000real <= 1real) by (nonlinear_arith)
        requires
            w <= 4real * part * e,
            4real * part * e * 10_000_000_000real <= 1real,
    ;
}

/// A score is shown as ten times its distance from zero, at most 100, up to a rounding.
pub proof fn law_distance_shown(z: Binary64)
    requires
        z.is_finite(),
        size(exact(z)) <= 1_000_000_000_000_000real,
    ensures
        distance_of(z).is_finite(),
        size(exact(z)) >= 11real ==> exact(distance_of(z)) == 100real,
        size(exact(z)) <= 10real ==> size(exact(distance_of(z)) - 10real * size(exact(z)))
            * 1_000_000_000_000real <= 1real,
        exact(distance_of(z)) <= 100real,
{
    exact::lemma_scale();
    exact::lemma_big_is_big();
    exact::lemma_speck_is_tiny();
    exact::law_counts_are_exact(10);
    exact::law_counts_are_exact(100);
    exact::law_signs_are_exact(z);
    let x = size(exact(z));
    exact::law_times(z.abs(), Binary64::count(10));
    let y = z.abs().times(Binary64::count(10));
    exact::law_max(y, Binary64::count(100));
    let e = exact::eps();
    assert(x * 10real * e <= x / 100_000_000_000_000real) by (nonlinear_arith)
        requires
            x >= 0real,
            e == 1real / 9_007_199_254_740_992real,
    ;
}

/// The signed body of a candle as a share of its close.
pub open spec fn body_share(c: Candle) -> real {
    (exact(c.close) - exact(c.open)) / exact(c.close)
}

/// The signed bodies of the last candles come to what each close gained on its open, as a share of
/// the close, added up, but for a few roundings; up to thirty candles, none of which moved a
/// thousandfold.
pub proof fn law_bodies_add_up(window: Seq<Candle>, n: int)
    requires
        0 <= n <= 30,
        n <= window.len(),
        are_priced(window),
        forall|i: int| 0 <= i < window.len() ==> size(body_share(#[trigger] window[i])) <= 1_000real,
    ensures
        signed_body_sum_of(window, n) matches Some(sum) && sum.is_finite() && size(
            exact(sum) - statistics::real_sum(
                Seq::new(n as nat, |i: int| body_share(window[window.len() - 1 - i])),
            ),
        ) * 1_000_000_000real <= 1real,
{
    let newest = candle::newest_of(window, n);
    let bodies = signed_bodies_of(newest);
    let shares = Seq::new(n as nat, |i: int| body_share(window[window.len() - 1 - i]));
    let d = 1real / 100_000_000_000real;
    assert forall|i: int| 0 <= i < n implies {
        &&& indicators::tiny().less((#[trigger] newest[i]).close.abs())
        &&& bodies[i].is_finite()
        &&& size(exact(bodies[i]) - shares[i]) <= d
        &&& size(exact(bodies[i])) <= 1_001real
    } by {
        let c = window[window.len() - 1 - i];
        assert(is_priced(c) && newest[i] == c);
        assert(size(body_share(c)) <= 1_000real);
        lemma_price_tells(c.close);
        lemma_share(c.close, c.open);
        assert(bodies[i] == c.close.minus(c.open).over(c.close));
    }
    assert(closes_tell(newest));
    assert forall|i: int| 0 <= i < bodies.len() implies (#[trigger] bodies[i]).is_finite() by {
        assert(indicators::tiny().less(newest[i].close.abs()));
    }
    let values = statistics::exacts(bodies);
    let sizes = statistics::sizes(bodies);
    assert forall|i: int| 0 <= i < values.len() implies size(#[trigger] values[i] - shares[i]) <= d
        by {
        assert(indicators::tiny().less(newest[i].close.abs()));
    }
    assert forall|i: int| 0 <= i < sizes.len() implies #[trigger] sizes[i] <= 1_001real by {
        assert(indicators::tiny().less(newest[i].close.abs()));
    }
    statistics::lemma_sums_are_close(values, shares, d);
    statistics::lemma_sum_is_bounded(sizes, 1_001real);
    exact::law_zero_and_one();
    exact::lemma_scale();
    exact::lemma_big_is_big();
    statistics::law_sum(Binary64::zero(), bodies, 40_000real);
    let m = n as real;
    let e = exact::eps();
    assert(2real * m * 40_000real * e <= 3real / 10_000_000_000real) by (nonlinear_arith)
        requires
            0real <= m <= 30real,
            e == 1real / 9_007_199_254_740_992real,
    ;
    assert(d * m <= 30real * d) by (nonlinear_arith)
        requires
            0real <= m <= 30real,
            d >= 0real,
    ;
}

/// The bands stand on the mean of twenty closes and on their deviation: its square is the mean of
/// the squares of their distances from the mean, up to rounding.
pub proof fn law_bands(window: Seq<Candle>, bound: real)
    requires
        window.len() == 20,
        statistics::bounded_by(candle::column_of(window, Field::Close), bound),
    ensures
        ({
            let closes = candle::column_of(window, Field::Close);
            let (mean, deviation) = bands_of(window);
            let exact_mean = statistics::real_sum(statistics::exacts(closes)) / 20real;
            let variance = statistics::real_sum(statistics::real_squares(closes, exact_mean))
                / 20real;
            &&& mean.is_finite()
            &&& size(exact(mean) - exact_mean) * 100_000_000_000_000real <= bound
            &&& deviation.is_finite()
            &&& exact(deviation) >= 0real
            &&& size(exact(deviation) * exact(deviation) - variance) * 1_000_000_000_000real <= bound
                * bound
        }),
{
    let closes = candle::column_of(window, Field::Close);
    statistics::law_mean_is_mean(closes, bound);
    statistics::law_deviation(closes, bound);
}

/// The score of the newest close is its distance from the mean of the last closes in units of their
/// sample deviation, up to rounding; there is none where the deviation has vanished, or the closes
/// are not there.
pub proof fn law_score(window: Seq<Candle>, n: int, bound: real)
    requires
        2 <= n <= 30,
        n <= window.len() ==> statistics::bounded_by(
            indicators::recent_of(window, n, Field::Close),
            bound,
        ),
    ensures
        window.len() < n ==> sample_close_z_of(window, n) is None,
        window.len() >= n ==> {
            let closes = indicators::recent_of(window, n, Field::Close);
            let deviation = statistics::sample_deviation_of(closes);
            let above = exact(window.last().close) - statistics::real_mean(closes);
            &&& sample_close_z_of(window, n) is Some <==> exact(deviation) > exact(
                Binary64::ratio(false, 1, 1_000_000_000_000),
            )
            &&& sample_close_z_of(window, n) matches Some(z) ==> z.is_finite() && size(
                exact(z) * exact(deviation) - above,
            ) * 10_000_000_000_000real <= bound
        },
{
    if window.len() >= n {
        let closes = indicators::recent_of(window, n, Field::Close);
        let deviation = statistics::sample_deviation_of(closes);
        let mean = statistics::mean_of(closes);
        assert(closes[0] == window.last().close);
        statistics::law_mean_is_mean(closes, bound);
        statistics::law_sample_deviation(closes, bound);
        lemma_tiny();
        exact::law_order_is_exact(indicators::tiny(), deviation);
        if sample_close_z_of(window, n) is Some {
            lemma_score(closes[0], mean, deviation, statistics::real_mean(closes), bound);
        }
    }
}

/// A distance from a mean in units of a deviation.
proof fn lemma_score(
    close: Binary64,
    mean: Binary64,
    deviation: Binary64,
    center: real,
    bound: real,
)
    requires
        close.is_finite(),
        mean.is_finite(),
        deviation.is_finite(),
        1real <= bound <= 1_000_000_000_000_000real,
        size(exact(close)) <= bound,
        size(exact(mean) - center) * 100_000_000_000_000real <= bound,
        size(center) <= bound,
        exact(deviation) * 2_000_000_000_000real > 1real,
        exact(deviation) <= 10real * bound,
    ensures
        close.minus(mean).over(deviation).is_finite(),
        size(
            exact(close.minus(mean).over(deviation)) * exact(deviation) - (exact(close) - center),
        ) * 10_000_000_000_000real <= bound,
{
    exact::lemma_scale();
    exact::lemma_speck_is_tiny();
    exact::lemma_big_is_big();
    let (e, t) = (exact::eps(), exact::speck());
    assert(e == 1real / 9_007_199_254_740_992real);
    let (c, m, d) = (exact(close), exact(mean), exact(deviation));
    exact::law_minus(close, mean);
    let x = exact(close.minus(mean));
    let g = size(c - m);
    assert(g * e <= bound / 2_000_000_000_000_000real) by (nonlinear_arith)
        requires
            0real <= g <= 3real * bound,
            bound >= 1real,
            e == 1real / 9_007_199_254_740_992real,
    ;
    assert(size(x) <= 4real * bound);
    let q = x / d;
    let sx = size(x);
    let sq = size(q);
    assert(q * d == x && sq * d == sx) by (nonlinear_arith)
        requires
            q == x / d,
            d * 2_000_000_000_000real > 1real,
            sq == (if q < 0real { -q } else { q }),
            sx == (if x < 0real { -x } else { x }),
    ;
    assert(sq <= 1_000_000_000_000_000_000_000_000_000_000real) by (nonlinear_arith)
        requires
            sq * d == sx,
            sx <= 4_000_000_000_000_000real,
            d * 2_000_000_000_000real > 1real,
            sq >= 0real,
    ;
    exact::law_over(close.minus(mean), deviation);
    let z = exact(close.minus(mean).over(deviation));
    let w = size(z - q);
    assert(w <= sq * e + t);
    let zd = z * d;
    assert(size(zd - x) <= sx * e + t * d) by (nonlinear_arith)
        requires
            w <= sq * e + t,
            w == (if z - q < 0real { -(z - q) } else { z - q }),
            zd == z * d,
            q * d == x,
            sq * d == sx,
            d * 2_000_000_000_000real > 1real,
            size(zd - x) == (if zd - x < 0real { -(zd - x) } else { zd - x }),
    ;
    assert(sx * e <= bound / 2_000_000_000_000_000real) by (nonlinear_arith)
        requires
            0real <= sx <= 4real * bound,
            bound >= 1real,
            e == 1real / 9_007_199_254_740_992real,
    ;
    assert(t * d <= bound / 1_000_000_000_000_000real) by (nonlinear_arith)
        requires
            0real < d <= 10real * bound,
            0real <= t <= 1real / 1_000_000_000_000_000_000_000_000_000_000_000_000_000real,
            bound >= 1real,
    ;
}

/// What a fresh meter reads after some candles and one more.
proof fn lemma_fed_on<M: Meter>(meter: M, first: Seq<Candle>, candle: Candle)
    ensures
        meters::fed_all(meter, first).fed(candle) == meters::fed_all(meter, first.push(candle)),
    decreases first.len(),
{
    let all = first.push(candle);
    if first.len() == 0 {
        reveal_with_fuel(meters::fed_all, 2);
        assert(all.drop_first() =~= Seq::<Candle>::empty());
    } else {
        assert(all.drop_first() =~= first.drop_first().push(candle));
        lemma_fed_on(meter.fed(first[0]), first.drop_first(), candle);
    }
}

/// The window that a strategy looks at is the end of the candles it has seen.
proof fn lemma_seen(first: Seq<Candle>, candle: Candle, n: int)
    requires
        0 < n,
    ensures
        candle::pushed(candle::window_after(Seq::empty(), first, n), candle, n)
            == candle::end_of(first.push(candle), n),
{
    let none = Seq::<Candle>::empty();
    candle::law_window_is_the_end(none, first, n);
    assert(none + first =~= first);
    candle::law_pushed_is_the_end(first, candle, n);
}

/// A fresh Bollinger fade calls what it makes of the last twenty candles, with a strength of 50.
pub proof fn law_bollinger_calls(fade: BollFade, first: Seq<Candle>, candle: Candle)
    requires
        fade.candles@ == Seq::<Candle>::empty(),
    ensures
        ({
            let made = boll_fade_of(candle::end_of(first.push(candle), 20), candle);
            let called = fade.call_after(first, candle);
            &&& called is Some <==> made is Some
            &&& called matches Some(call) ==> Some(call.prediction) == made && exact(call.rsi)
                == 50real
        }),
{
    lemma_seen(first, candle, 20);
    exact::law_counts_are_exact(50);
}

/// A fresh streak reversal calls what it makes of the last three candles, with the strength that its
/// meter reads.
pub proof fn law_streak_calls<R: Meter, A: Meter>(
    reversal: StreakRsi<R, A>,
    rsi: R,
    atr: A,
    first: Seq<Candle>,
    candle: Candle,
)
    requires
        reversal.is_fresh(rsi, atr),
    ensures
        ({
            let all = first.push(candle);
            let strength = meters::fed_all(rsi, all).reading();
            let range = meters::fed_all(atr, all).reading();
            let made = streak_rsi_of(candle::end_of(all, 3), strength, range, candle);
            let called = reversal.call_after(first, candle);
            &&& called is Some <==> made is Some
            &&& called matches Some(call) ==> Some(call.prediction) == made && Some(call.rsi)
                == strength
        }),
{
    lemma_seen(first, candle, 3);
    lemma_fed_on(rsi, first, candle);
    lemma_fed_on(atr, first, candle);
}

/// A fresh Donchian fade calls what it makes of the last 24 candles and the score of the newest of
/// them, with ten times the score's distance from zero as its strength.
pub proof fn law_donchian_calls(fade: DonchZscore, first: Seq<Candle>, candle: Candle)
    requires
        fade.candles@ == Seq::<Candle>::empty(),
    ensures
        ({
            let window = candle::end_of(first.push(candle), 24);
            let z = sample_close_z_of(window, 24);
            let made = donch_zscore_of(window, z, candle);
            let called = fade.call_after(first, candle);
            &&& called is Some <==> made is Some
            &&& called matches Some(call) ==> Some(call.prediction) == made && z is Some && call.rsi
                == distance_of(z.unwrap())
        }),
{
    lemma_seen(first, candle, 24);
}

/// A fresh selective fade calls what it makes of the last 24 candles and the score of the newest of
/// them, with the strength that its meter reads.
pub proof fn law_selective_calls<R: Meter, A: Meter>(
    fade: ReversalPro<R, A>,
    rsi: R,
    atr: A,
    first: Seq<Candle>,
    candle: Candle,
)
    requires
        fade.is_fresh(rsi, atr),
    ensures
        ({
            let all = first.push(candle);
            let window = candle::end_of(all, 24);
            let strength = meters::fed_all(rsi, all).reading();
            let range = meters::fed_all(atr, all).reading();
            let z = sample_close_z_of(window, 24);
            let made = reversal_pro_of(window, strength, range, z, candle);
            let called = fade.call_after(first, candle);
            &&& called is Some <==> made is Some
            &&& called matches Some(call) ==> Some(call.prediction) == made && Some(call.rsi)
                == strength
        }),
{
    lemma_seen(first, candle, 24);
    lemma_fed_on(rsi, first, candle);
    lemma_fed_on(atr, first, candle);
}

/// The composite calls up where at least two of its three fades call up, down where at least two
/// call down, and nothing otherwise.
pub proof fn law_composite_calls<R: Meter, A: Meter>(
    composite: TrioVote2<R, A>,
    first: Seq<Candle>,
    candle: Candle,
)
    ensures
        ({
            let a = composite.boll.call_after(first, candle);
            let b = composite.streak.call_after(first, candle);
            let c = composite.donch.call_after(first, candle);
            let goes = |v: Option<Call>, way: Prediction| v is Some && v.unwrap().prediction == way;
            let two = |way: Prediction|
                goes(a, way) && goes(b, way) || goes(a, way) && goes(c, way) || goes(b, way)
                    && goes(c, way);
            let called = composite.call_after(first, candle);
            &&& called is Some && called.unwrap().prediction == Prediction::Up <==> two(
                Prediction::Up,
            )
            &&& called is Some && called.unwrap().prediction == Prediction::Down <==> two(
                Prediction::Down,
            )
        }),
{
    law_majority_of_three(
        composite.boll.call_after(first, candle),
        composite.streak.call_after(first, candle),
        composite.donch.call_after(first, candle),
    );
}

/// On a candle whose high is its low the fades that look at bodies are quiet.
pub proof fn law_fades_need_a_range(
    window: Seq<Candle>,
    rsi: Option<Binary64>,
    atr: Option<Binary64>,
    z: Option<Binary64>,
    c: Candle,
)
    requires
        is_priced(c),
        exact(c.high) == exact(c.low),
    ensures
        boll_fade_of(window, c) is None,
        streak_rsi_of(window, rsi, atr, c) is None,
        reversal_pro_of(window, rsi, atr, z, c) is None,
{
    law_body_ratio(c);
}

} // verus!
