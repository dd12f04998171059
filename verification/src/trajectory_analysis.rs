//! Analysis of recorded trajectories that never looks ahead: what is said of a moment rests only
//! on what had been observed by then.

use vstd::prelude::*;
use vstd::multiset::Multiset;
use vstd::string::*;
use crate::binary64::{law_times_minus_one, Binary64};
use crate::exact;
use crate::exact::{exact, size};
use crate::text;
use crate::trajectory_index::{law_precedes_transitive, precedes};

verus! {

/// How long after a fill the exits are looked at, in milliseconds.
pub const RISK_HORIZONS_MS: [(&'static str, i64); 6] = [
    ("t15s", 15_000),
    ("t30s", 30_000),
    ("t60s", 60_000),
    ("t120s", 120_000),
    ("t180s", 180_000),
    ("t300s", 300_000),
];

/// The longest of them.
pub const LAST_HORIZON_MS: i64 = 300_000;

/// Bids to fall below, in hundredths.
pub const BELOW_THRESHOLDS: [(&'static str, u64); 4] = [
    ("below_0_45", 45),
    ("below_0_40", 40),
    ("below_0_35", 35),
    ("below_0_30", 30),
];

/// Bids to rise above, in hundredths.
pub const ABOVE_THRESHOLDS: [(&'static str, u64); 4] = [
    ("above_0_55", 55),
    ("above_0_60", 60),
    ("above_0_65", 65),
    ("above_0_70", 70),
];

/// The places of the horizons in their table, in the order of their names.
pub const HORIZONS_BY_NAME: [usize; 6] = [3, 0, 4, 5, 1, 2];

/// The places of the thresholds to fall below in their table, in the order of their names.
pub const BELOW_BY_NAME: [usize; 4] = [3, 2, 1, 0];

/// The places of the thresholds to rise above in their table, in the order of their names.
pub const ABOVE_BY_NAME: [usize; 4] = [0, 1, 2, 3];

/// What an exit costs, in hundredths of a percent.
#[derive(Clone, Copy, Debug)]
pub struct ExitCostAssumptions {
    pub fee_bps: Binary64,
    pub slippage_bps: Binary64,
}

/// A value of an event's payload.
#[derive(Clone, Debug)]
pub enum Value {
    /// A text, and the number that it spells, if it spells one.
    Text { text: String, spells: Option<Binary64> },
    /// A number, and the whole number that it is, if it is one.
    Number { number: Binary64, whole: Option<i64> },
    /// Anything else.
    Other,
}

/// Something that was recorded. The payload is a list of named values.
#[derive(Clone, Debug)]
pub struct TrajectoryEvent {
    pub received_at_unix_ms: i64,
    pub event_type: String,
    pub payload: Vec<(String, Value)>,
}

/// The book of one outcome at a moment.
#[derive(Clone, Copy, Debug, PartialEq)]
pub struct QuotePoint {
    pub observed_at_unix_ms: i64,
    pub best_bid: Option<Binary64>,
    pub best_bid_size: Option<Binary64>,
    pub bid_shares_available: Option<Binary64>,
    pub sell_vwap_5: Option<Binary64>,
    pub sell_vwap_candidate: Option<Binary64>,
    pub candidate_shares: Option<Binary64>,
    pub best_ask: Option<Binary64>,
    pub best_ask_size: Option<Binary64>,
    pub ask_shares_at_or_below_limit: Option<Binary64>,
    pub last_trade_price: Option<Binary64>,
}

/// The first chance to buy below one half at or after a signal.
#[derive(Clone, Copy, Debug, PartialEq)]
pub struct StrictFill {
    pub observed_at_unix_ms: i64,
    pub elapsed_from_signal_ms: i64,
    pub quote: QuotePoint,
}

/// A price at a moment.
#[derive(Clone, Copy, Debug, PartialEq)]
pub struct TimedPrice {
    pub observed_at_unix_ms: i64,
    pub elapsed_from_fill_ms: i64,
    pub value: Binary64,
}

/// How the bid went past a threshold.
#[derive(Clone, Copy, Debug, PartialEq)]
pub struct ThresholdPath {
    pub first_elapsed_from_fill_ms: Option<i64>,
    pub first_best_bid: Option<Binary64>,
    pub first_sell_vwap_5: Option<Binary64>,
    pub first_gross_pnl_5_usdc: Option<Binary64>,
    pub first_net_pnl_5_usdc: Option<Binary64>,
    pub duration_ms: i64,
    pub recovered_to_half: bool,
}

/// What an exit would have brought at a moment after the fill.
#[derive(Clone, Copy, Debug, PartialEq)]
pub struct ExitCheckpoint {
    pub target_elapsed_from_fill_ms: i64,
    pub observed_at_unix_ms: Option<i64>,
    pub unavailable_after_resolution: bool,
    pub best_bid: Option<Binary64>,
    pub best_bid_size: Option<Binary64>,
    pub bid_shares_available: Option<Binary64>,
    pub best_ask: Option<Binary64>,
    pub spread: Option<Binary64>,
    pub last_trade_price: Option<Binary64>,
    pub sell_vwap_5: Option<Binary64>,
    pub sell_vwap_candidate: Option<Binary64>,
    pub candidate_shares: Option<Binary64>,
    pub gross_pnl_5_usdc: Option<Binary64>,
    pub net_pnl_5_usdc: Option<Binary64>,
    pub binance_signed_move_bps: Option<Binary64>,
    pub time_remaining_ms: i64,
}

/// A fall of the bid from a peak to a trough after it.
#[derive(Clone, Copy, Debug, PartialEq)]
pub struct DrawdownPoint {
    pub peak_observed_at_unix_ms: i64,
    pub trough_observed_at_unix_ms: i64,
    pub peak_elapsed_from_fill_ms: i64,
    pub trough_elapsed_from_fill_ms: i64,
    pub peak_best_bid: Binary64,
    pub trough_best_bid: Binary64,
    pub drawdown: Binary64,
}

/// What became of a fill. Checkpoints and thresholds go by the names of their tables, and stand in
/// the order of these names.
#[derive(Clone, Debug, PartialEq)]
pub struct RiskPathMetrics {
    pub mae_best_bid: Option<TimedPrice>,
    pub mfe_best_bid: Option<TimedPrice>,
    pub maximum_drawdown: Option<DrawdownPoint>,
    pub checkpoints: Vec<(&'static str, ExitCheckpoint)>,
    pub below_thresholds: Vec<(&'static str, ThresholdPath)>,
    pub above_thresholds: Vec<(&'static str, ThresholdPath)>,
}

/// The names in a row of named things.
pub open spec fn names_of<T>(named: Seq<(&'static str, T)>) -> Seq<Seq<char>> {
    Seq::new(named.len(), |i: int| named[i].0@)
}

/// Whether names stand in their order, none of them twice.
pub open spec fn in_name_order(names: Seq<Seq<char>>) -> bool {
    forall|i: int, j: int|
        0 <= i < j < names.len() ==> precedes(#[trigger] names[i], #[trigger] names[j])
}

impl RiskPathMetrics {
    /// Checkpoints and thresholds stand in the order of their names.
    pub open spec fn well_formed(&self) -> bool {
        &&& in_name_order(names_of(self.checkpoints@))
        &&& in_name_order(names_of(self.below_thresholds@))
        &&& in_name_order(names_of(self.above_thresholds@))
    }
}

/// What a trajectory says of one outcome.
#[derive(Clone, Debug, PartialEq)]
pub struct OutcomeTrajectoryAnalysis {
    pub quote_at_signal: Option<QuotePoint>,
    pub strict_fill: Option<StrictFill>,
    pub risk: Option<RiskPathMetrics>,
}

/// The price of the underlying at a moment, and where its candle opened.
#[derive(Clone, Copy, Debug)]
pub struct BinancePoint {
    pub observed_at_unix_ms: i64,
    pub open: Binary64,
    pub close: Binary64,
}

/// Something observed at a moment.
pub trait Timed: Copy {
    spec fn at(&self) -> i64;

    fn observed(&self) -> (r: i64)
        ensures
            r == self.at(),
    ;
}

impl Timed for QuotePoint {
    open spec fn at(&self) -> i64 {
        self.observed_at_unix_ms
    }

    fn observed(&self) -> (r: i64) {
        self.observed_at_unix_ms
    }
}

impl Timed for BinancePoint {
    open spec fn at(&self) -> i64 {
        self.observed_at_unix_ms
    }

    fn observed(&self) -> (r: i64) {
        self.observed_at_unix_ms
    }
}

/// A point put into a row in order of time, after every one that is not later.
pub open spec fn placed<T: Timed>(points: Seq<T>, point: T) -> Seq<T>
    decreases points.len(),
{
    if points.len() == 0 || points.last().at() <= point.at() {
        points.push(point)
    } else {
        placed(points.drop_last(), point).push(points.last())
    }
}

/// Points in order of time, those of one moment in the order they came.
pub open spec fn by_time<T: Timed>(points: Seq<T>) -> Seq<T>
    decreases points.len(),
{
    if points.len() == 0 {
        Seq::empty()
    } else {
        placed(by_time(points.drop_last()), points.last())
    }
}

/// Whether points are in order of time.
pub open spec fn in_time<T: Timed>(points: Seq<T>) -> bool {
    forall|i: int, j: int|
        0 <= i <= j < points.len() ==> (#[trigger] points[i]).at() <= (#[trigger] points[j]).at()
}

proof fn lemma_placed_at<T: Timed>(points: Seq<T>, point: T, k: int)
    requires
        0 <= k <= points.len(),
        k > 0 ==> points[k - 1].at() <= point.at(),
        forall|i: int| k <= i < points.len() ==> (#[trigger] points[i]).at() > point.at(),
    ensures
        placed(points, point) == points.insert(k, point),
    decreases points.len(),
{
    if k == points.len() {
        assert(points.insert(k, point) =~= points.push(point));
    } else {
        assert(points.last() == points[points.len() - 1]);
        lemma_placed_at(points.drop_last(), point, k);
        assert(points.drop_last().insert(k, point).push(points.last()) =~= points.insert(k, point));
    }
}

/// Putting points in order of time loses none, adds none, and puts them in order.
pub proof fn law_by_time_sorts<T: Timed>(points: Seq<T>)
    ensures
        in_time(by_time(points)),
        by_time(points).to_multiset() == points.to_multiset(),
    decreases points.len(),
{
    if points.len() > 0 {
        let fewer = points.drop_last();
        law_by_time_sorts(fewer);
        lemma_placed_sorts(by_time(fewer), points.last());
        assert(fewer.push(points.last()) =~= points);
        fewer.to_multiset_ensures();
    } else {
        assert(points =~= Seq::<T>::empty());
    }
}

proof fn lemma_placed_sorts<T: Timed>(points: Seq<T>, point: T)
    requires
        in_time(points),
    ensures
        in_time(placed(points, point)),
        placed(points, point).to_multiset() == points.to_multiset().insert(point),
        placed(points, point).len() == points.len() + 1,
        points.len() > 0 && point.at() < points.last().at() ==> placed(points, point).last()
            == points.last(),
        points.len() == 0 || points.last().at() <= point.at() ==> placed(points, point).last()
            == point,
    decreases points.len(),
{
    let all = placed(points, point);
    points.to_multiset_ensures();
    if points.len() == 0 || points.last().at() <= point.at() {
        assert forall|i: int, j: int| 0 <= i <= j < all.len() implies (#[trigger] all[i]).at() <= (
        #[trigger] all[j]).at() by {
            if j == points.len() && i < j {
                assert(points[i].at() <= points[points.len() - 1].at());
            } else if j < points.len() {
                assert(points[i].at() <= points[j].at());
            }
        }
    } else {
        let fewer = points.drop_last();
        assert(in_time(fewer)) by {
            assert forall|i: int, j: int| 0 <= i <= j < fewer.len() implies (
            #[trigger] fewer[i]).at() <= (#[trigger] fewer[j]).at() by {
                assert(points[i].at() <= points[j].at());
            }
        }
        lemma_placed_sorts(fewer, point);
        let inner = placed(fewer, point);
        fewer.to_multiset_ensures();
        inner.to_multiset_ensures();
        assert(fewer.push(points.last()) =~= points);
        assert(all.to_multiset() =~= points.to_multiset().insert(point));
        assert forall|i: int, j: int| 0 <= i <= j < all.len() implies (#[trigger] all[i]).at() <= (
        #[trigger] all[j]).at() by {
            if j == inner.len() && i < j {
                assert(inner[i].at() <= inner[inner.len() - 1].at());
                if fewer.len() > 0 {
                    assert(points[fewer.len() - 1].at() <= points[points.len() - 1].at());
                    assert(fewer.last() == points[fewer.len() - 1]);
                }
                assert(inner[inner.len() - 1] == inner.last());
                assert(inner.last().at() <= points.last().at());
            } else if j < inner.len() {
                assert(inner[i].at() <= inner[j].at());
            }
        }
    }
}

/// Puts points in order of time, those of one moment in the order they came.
pub fn sort_by_time<T: Timed>(points: &Vec<T>) -> (r: Vec<T>)
    ensures
        r@ == by_time(points@),
        in_time(r@),
{
    let mut r: Vec<T> = Vec::new();
    let mut i: usize = 0;
    while i < points.len()
        invariant
            i <= points@.len(),
            r@.len() == i,
            r@ == by_time(points@.take(i as int)),
            in_time(r@),
        decreases points@.len() - i,
    {
        let point: T = points[i];
        let mut k: usize = i;
        while k > 0 && r[k - 1].observed() > point.observed()
            invariant
                k <= i,
                r@.len() == i,
                forall|j: int| k <= j < i ==> (#[trigger] r@[j]).at() > point.at(),
            decreases k,
        {
            k = k - 1;
        }
        proof {
            lemma_placed_at(r@, point, k as int);
            lemma_placed_sorts(r@, point);
        }
        r.insert(k, point);
        i = i + 1;
        assert(points@.take(i as int).drop_last() =~= points@.take(i - 1));
    }
    assert(points@.take(i as int) =~= points@);
    r
}

/// The last point that is not later than a moment.
pub open spec fn latest_of<T: Timed>(points: Seq<T>, moment: int) -> Option<T>
    decreases points.len(),
{
    if points.len() == 0 {
        None
    } else if points.last().at() <= moment {
        Some(points.last())
    } else {
        latest_of(points.drop_last(), moment)
    }
}

/// The last point that is not later than a moment.
pub fn latest<T: Timed>(points: &Vec<T>, moment: i64) -> (r: Option<T>)
    ensures
        r == latest_of(points@, moment as int),
{
    let mut i: usize = points.len();
    assert(points@.take(i as int) =~= points@);
    while i > 0
        invariant
            i <= points@.len(),
            latest_of(points@, moment as int) == latest_of(points@.take(i as int), moment as int),
        decreases i,
    {
        i = i - 1;
        assert(points@.take(i + 1).drop_last() =~= points@.take(i as int));
        if points[i].observed() <= moment {
            return Some(points[i]);
        }
    }
    None
}

/// The points that are not later than a moment.
pub open spec fn until<T: Timed>(points: Seq<T>, moment: int) -> Seq<T>
    decreases points.len(),
{
    if points.len() == 0 {
        Seq::empty()
    } else if points.last().at() <= moment {
        until(points.drop_last(), moment).push(points.last())
    } else {
        until(points.drop_last(), moment)
    }
}

/// What is the last observation at a moment rests on nothing that was observed later, is not
/// later itself, and among points in order of time no other one up to the moment is later than it.
pub proof fn law_latest_never_looks_ahead<T: Timed>(points: Seq<T>, moment: int)
    ensures
        latest_of(points, moment) == latest_of(until(points, moment), moment),
        latest_of(points, moment) matches Some(p) ==> p.at() <= moment,
        latest_of(points, moment) is None <==> forall|i: int|
            0 <= i < points.len() ==> (#[trigger] points[i]).at() > moment,
        in_time(points) ==> forall|i: int|
            0 <= i < points.len() && (#[trigger] points[i]).at() <= moment ==> latest_of(
                points,
                moment,
            ) is Some && points[i].at() <= latest_of(points, moment).unwrap().at(),
    decreases points.len(),
{
    if points.len() > 0 {
        let fewer = points.drop_last();
        law_latest_never_looks_ahead(fewer, moment);
        assert(points.last() == points[points.len() - 1]);
        assert forall|i: int| 0 <= i < fewer.len() implies fewer[i] == points[i] by {}
        if points.last().at() <= moment {
            assert(until(points, moment).drop_last() =~= until(fewer, moment));
        } else {
            if latest_of(points, moment) is None {
                assert forall|i: int| 0 <= i < points.len() implies (#[trigger] points[i]).at()
                    > moment by {
                    if i < fewer.len() {
                        assert(fewer[i].at() > moment);
                    }
                }
            } else {
                let i = choose|i: int| 0 <= i < fewer.len() && (#[trigger] fewer[i]).at() <= moment;
                assert(points[i].at() <= moment);
            }
        }
        if in_time(points) {
            assert(in_time(fewer)) by {
                assert forall|i: int, j: int| 0 <= i <= j < fewer.len() implies (
                #[trigger] fewer[i]).at() <= (#[trigger] fewer[j]).at() by {
                    assert(points[i].at() <= points[j].at());
                }
            }
            assert forall|i: int|
                0 <= i < points.len() && (#[trigger] points[i]).at() <= moment implies latest_of(
                points,
                moment,
            ) is Some && points[i].at() <= latest_of(points, moment).unwrap().at() by {
                if points.last().at() <= moment {
                    assert(points[i].at() <= points[points.len() - 1].at());
                } else {
                    assert(i < fewer.len());
                    assert(fewer[i].at() <= moment);
                }
            }
        }
    }
}

/// A letter with its case taken away, by its code; other characters as they are.
pub open spec fn caseless(c: char) -> int {
    if 65 <= c as int <= 90 {
        c as int + 32
    } else {
        c as int
    }
}

/// Whether two texts are the same but for the case of ASCII letters.
pub open spec fn alike(a: Seq<char>, b: Seq<char>) -> bool {
    a.len() == b.len() && forall|i: int|
        0 <= i < a.len() ==> caseless(#[trigger] a[i]) == caseless(b[i])
}

fn without_case(c: char) -> (r: u32)
    ensures
        r == caseless(c),
{
    let code: u32 = c as u32;
    if 65 <= code && code <= 90 {
        code + 32
    } else {
        code
    }
}

/// Whether two texts are the same but for the case of ASCII letters.
pub fn is_alike(a: &str, b: &str) -> (r: bool)
    ensures
        r == alike(a@, b@),
{
    let n: usize = a.unicode_len();
    if n != b.unicode_len() {
        return false;
    }
    let mut i: usize = 0;
    while i < n
        invariant
            i <= n,
            n == a@.len(),
            n == b@.len(),
            forall|j: int| 0 <= j < i ==> caseless(#[trigger] a@[j]) == caseless(b@[j]),
        decreases n - i,
    {
        if without_case(a.get_char(i)) != without_case(b.get_char(i)) {
            assert(caseless(a@[i as int]) != caseless(b@[i as int]));
            return false;
        }
        i = i + 1;
    }
    true
}

/// Where the payload holds a value of a name: the place of the last one.
pub open spec fn place_of(payload: Seq<(String, Value)>, key: Seq<char>) -> Option<int>
    decreases payload.len(),
{
    if payload.len() == 0 {
        None
    } else if payload.last().0@ == key {
        Some(payload.len() - 1)
    } else {
        place_of(payload.drop_last(), key)
    }
}

fn place(payload: &Vec<(String, Value)>, key: &str) -> (r: Option<usize>)
    ensures
        r matches Some(i) ==> i < payload@.len() && place_of(payload@, key@) == Some(i as int),
        r is None ==> place_of(payload@, key@) is None,
{
    let mut i: usize = payload.len();
    assert(payload@.take(i as int) =~= payload@);
    while i > 0
        invariant
            i <= payload@.len(),
            place_of(payload@, key@) == place_of(payload@.take(i as int), key@),
        decreases i,
    {
        i = i - 1;
        assert(payload@.take(i + 1).drop_last() =~= payload@.take(i as int));
        if text::reads(&payload[i].0, key) {
            return Some(i);
        }
    }
    None
}

/// The number under a name: a number, or a text that spells one.
pub open spec fn number_of(payload: Seq<(String, Value)>, key: Seq<char>) -> Option<Binary64> {
    match place_of(payload, key) {
        Some(i) => match payload[i].1 {
            Value::Number { number, .. } => Some(number),
            Value::Text { spells, .. } => spells,
            Value::Other => None,
        },
        None => None,
    }
}

/// The number under a name: a number, or a text that spells one.
pub fn number(payload: &Vec<(String, Value)>, key: &str) -> (r: Option<Binary64>)
    ensures
        r == number_of(payload@, key@),
{
    match place(payload, key) {
        Some(i) => match &payload[i].1 {
            Value::Number { number, .. } => Some(*number),
            Value::Text { spells, .. } => *spells,
            Value::Other => None,
        },
        None => None,
    }
}

/// Whether an event quotes an outcome.
pub open spec fn quotes_outcome(event: TrajectoryEvent, outcome: Seq<char>) -> bool {
    &&& event.event_type@ == "quote"@ || event.event_type@ == "signal_snapshot"@
    &&& match place_of(event.payload@, "outcome"@) {
        Some(i) => match event.payload@[i].1 {
            Value::Text { text, .. } => alike(text@, outcome),
            _ => false,
        },
        None => false,
    }
}

/// When a quote was observed: as its payload says in a whole number, or else when it came.
pub open spec fn quote_time_of(event: TrajectoryEvent) -> i64 {
    match place_of(event.payload@, "observed_at_unix_ms"@) {
        Some(i) => match event.payload@[i].1 {
            Value::Number { whole: Some(ms), .. } => ms,
            _ => event.received_at_unix_ms,
        },
        None => event.received_at_unix_ms,
    }
}

/// The quote of an outcome that an event holds.
pub open spec fn quote_of(event: TrajectoryEvent, outcome: Seq<char>) -> Option<QuotePoint> {
    if quotes_outcome(event, outcome) {
        let payload = event.payload@;
        Some(
            QuotePoint {
                observed_at_unix_ms: quote_time_of(event),
                best_bid: number_of(payload, "best_bid"@),
                best_bid_size: number_of(payload, "best_bid_size"@),
                bid_shares_available: number_of(payload, "bid_shares_available"@),
                sell_vwap_5: number_of(payload, "sell_vwap_5"@),
                sell_vwap_candidate: number_of(payload, "sell_vwap_candidate"@),
                candidate_shares: number_of(payload, "candidate_shares"@),
                best_ask: number_of(payload, "best_ask"@),
                best_ask_size: number_of(payload, "best_ask_size"@),
                ask_shares_at_or_below_limit: number_of(payload, "ask_shares_at_or_below_limit"@),
                last_trade_price: number_of(payload, "last_trade_price"@),
            },
        )
    } else {
        None
    }
}

fn quotes(event: &TrajectoryEvent, outcome: &str) -> (r: bool)
    ensures
        r == quotes_outcome(*event, outcome@),
{
    let kind: &String = &event.event_type;
    if !text::reads(kind, "quote") && !text::reads(kind, "signal_snapshot") {
        return false;
    }
    match place(&event.payload, "outcome") {
        Some(i) => match &event.payload[i].1 {
            Value::Text { text, .. } => is_alike(text.as_str(), outcome),
            _ => false,
        },
        None => false,
    }
}

fn quote_time(event: &TrajectoryEvent) -> (r: i64)
    ensures
        r == quote_time_of(*event),
{
    match place(&event.payload, "observed_at_unix_ms") {
        Some(i) => match &event.payload[i].1 {
            Value::Number { whole: Some(ms), .. } => *ms,
            _ => event.received_at_unix_ms,
        },
        None => event.received_at_unix_ms,
    }
}

/// The quote of an outcome that an event holds.
pub fn quote_from_event(event: &TrajectoryEvent, outcome: &str) -> (r: Option<QuotePoint>)
    ensures
        r == quote_of(*event, outcome@),
{
    if !quotes(event, outcome) {
        return None;
    }
    let payload: &Vec<(String, Value)> = &event.payload;
    Some(
        QuotePoint {
            observed_at_unix_ms: quote_time(event),
            best_bid: number(payload, "best_bid"),
            best_bid_size: number(payload, "best_bid_size"),
            bid_shares_available: number(payload, "bid_shares_available"),
            sell_vwap_5: number(payload, "sell_vwap_5"),
            sell_vwap_candidate: number(payload, "sell_vwap_candidate"),
            candidate_shares: number(payload, "candidate_shares"),
            best_ask: number(payload, "best_ask"),
            best_ask_size: number(payload, "best_ask_size"),
            ask_shares_at_or_below_limit: number(payload, "ask_shares_at_or_below_limit"),
            last_trade_price: number(payload, "last_trade_price"),
        },
    )
}

/// The price of the underlying that an event holds.
pub open spec fn binance_of(event: TrajectoryEvent) -> Option<BinancePoint> {
    match (number_of(event.payload@, "open"@), number_of(event.payload@, "close"@)) {
        (Some(open), Some(close)) => if event.event_type@ == "binance_quote"@ {
            Some(BinancePoint { observed_at_unix_ms: event.received_at_unix_ms, open, close })
        } else {
            None
        },
        _ => None,
    }
}

/// The price of the underlying that an event holds.
pub fn binance_from_event(event: &TrajectoryEvent) -> (r: Option<BinancePoint>)
    ensures
        r == binance_of(*event),
{
    if !text::reads(&event.event_type, "binance_quote") {
        return None;
    }
    match (number(&event.payload, "open"), number(&event.payload, "close")) {
        (Some(open), Some(close)) => Some(
            BinancePoint { observed_at_unix_ms: event.received_at_unix_ms, open, close },
        ),
        _ => None,
    }
}

/// The quotes of an outcome among some events, in the order they came.
pub open spec fn quotes_of(events: Seq<TrajectoryEvent>, outcome: Seq<char>) -> Seq<QuotePoint>
    decreases events.len(),
{
    if events.len() == 0 {
        Seq::empty()
    } else {
        let before = quotes_of(events.drop_last(), outcome);
        match quote_of(events.last(), outcome) {
            Some(quote) => before.push(quote),
            None => before,
        }
    }
}

/// The prices of the underlying among some events, in the order they came.
pub open spec fn binances_of(events: Seq<TrajectoryEvent>) -> Seq<BinancePoint>
    decreases events.len(),
{
    if events.len() == 0 {
        Seq::empty()
    } else {
        let before = binances_of(events.drop_last());
        match binance_of(events.last()) {
            Some(point) => before.push(point),
            None => before,
        }
    }
}

fn all_quotes(events: &Vec<TrajectoryEvent>, outcome: &str) -> (r: Vec<QuotePoint>)
    ensures
        r@ == quotes_of(events@, outcome@),
{
    let mut r: Vec<QuotePoint> = Vec::new();
    let mut i: usize = 0;
    while i < events.len()
        invariant
            i <= events@.len(),
            r@ == quotes_of(events@.take(i as int), outcome@),
        decreases events@.len() - i,
    {
        match quote_from_event(&events[i], outcome) {
            Some(quote) => {
                r.push(quote);
            },
            None => {},
        }
        i = i + 1;
        assert(events@.take(i as int).drop_last() =~= events@.take(i - 1));
    }
    assert(events@.take(i as int) =~= events@);
    r
}

fn all_binances(events: &Vec<TrajectoryEvent>) -> (r: Vec<BinancePoint>)
    ensures
        r@ == binances_of(events@),
{
    let mut r: Vec<BinancePoint> = Vec::new();
    let mut i: usize = 0;
    while i < events.len()
        invariant
            i <= events@.len(),
            r@ == binances_of(events@.take(i as int)),
        decreases events@.len() - i,
    {
        match binance_from_event(&events[i]) {
            Some(point) => {
                r.push(point);
            },
            None => {},
        }
        i = i + 1;
        assert(events@.take(i as int).drop_last() =~= events@.take(i - 1));
    }
    assert(events@.take(i as int) =~= events@);
    r
}

/// One half.
#[verifier::allow_in_spec]
pub fn half() -> Binary64
    returns
        Binary64::ratio(false, 1, 2),
{
    Binary64::ratio(false, 1, 2)
}

/// How long one moment is after another, and nothing where it is not.
pub open spec fn elapsed_of(from: i64, to: i64) -> int {
    if to > from {
        to - from
    } else {
        0
    }
}

fn elapsed(from: i64, to: i64) -> (r: i64)
    requires
        to - from <= i64::MAX,
    ensures
        r == elapsed_of(from, to),
{
    if to > from {
        to - from
    } else {
        0
    }
}

/// A price at a moment after a fill.
pub open spec fn timed_price_of(at: i64, fill_at: i64, value: Binary64) -> TimedPrice {
    TimedPrice {
        observed_at_unix_ms: at,
        elapsed_from_fill_ms: elapsed_of(fill_at, at) as i64,
        value,
    }
}

/// A price at a moment after a fill.
pub fn timed_price(observed_at_unix_ms: i64, fill: &StrictFill, value: Binary64) -> (r: TimedPrice)
    requires
        observed_at_unix_ms - fill.observed_at_unix_ms <= i64::MAX,
    ensures
        r == timed_price_of(observed_at_unix_ms, fill.observed_at_unix_ms, value),
{
    TimedPrice {
        observed_at_unix_ms,
        elapsed_from_fill_ms: elapsed(fill.observed_at_unix_ms, observed_at_unix_ms),
        value,
    }
}

/// What selling some shares at a price leaves, after slippage and fees, of buying them at one
/// half.
pub open spec fn net_exit_pnl_of(
    vwap: Binary64,
    shares: Binary64,
    costs: ExitCostAssumptions,
) -> Binary64 {
    let unit = Binary64::count(10_000);
    let kept = Binary64::one().minus(costs.slippage_bps.max(Binary64::zero()).over(unit));
    let proceeds = vwap.times(kept).times(shares);
    let fee = proceeds.times(costs.fee_bps.max(Binary64::zero())).over(unit);
    proceeds.minus(fee).minus(half().times(shares))
}

pub fn net_exit_pnl(vwap: Binary64, shares: Binary64, costs: ExitCostAssumptions) -> (r: Binary64)
    ensures
        r == net_exit_pnl_of(vwap, shares, costs),
{
    let unit: Binary64 = Binary64::count(10_000);
    let kept: Binary64 = Binary64::one().minus(costs.slippage_bps.max(Binary64::zero()).over(unit));
    let proceeds: Binary64 = vwap.times(kept).times(shares);
    let fee: Binary64 = proceeds.times(costs.fee_bps.max(Binary64::zero())).over(unit);
    proceeds.minus(fee).minus(half().times(shares))
}

/// What selling five shares at a price leaves of buying them at one half.
pub open spec fn gross_pnl_5_of(vwap: Option<Binary64>) -> Option<Binary64> {
    match vwap {
        Some(vwap) => Some(vwap.minus(half()).times(Binary64::count(5))),
        None => None,
    }
}

/// The same after slippage and fees.
pub open spec fn net_pnl_5_of(vwap: Option<Binary64>, costs: ExitCostAssumptions) -> Option<
    Binary64,
> {
    match vwap {
        Some(vwap) => Some(net_exit_pnl_of(vwap, Binary64::count(5), costs)),
        None => None,
    }
}

fn gross_pnl_5(vwap: Option<Binary64>) -> (r: Option<Binary64>)
    ensures
        r == gross_pnl_5_of(vwap),
{
    match vwap {
        Some(vwap) => Some(vwap.minus(half()).times(Binary64::count(5))),
        None => None,
    }
}

fn net_pnl_5(vwap: Option<Binary64>, costs: ExitCostAssumptions) -> (r: Option<Binary64>)
    ensures
        r == net_pnl_5_of(vwap, costs),
{
    match vwap {
        Some(vwap) => Some(net_exit_pnl(vwap, Binary64::count(5), costs)),
        None => None,
    }
}

/// Whether a quote lets buy below one half at or after a signal.
pub open spec fn fills(quote: QuotePoint, signal_at: i64) -> bool {
    quote.observed_at_unix_ms >= signal_at && (quote.best_ask matches Some(ask) && ask.less(half()))
}

/// The first quote that fills.
pub open spec fn first_filling(quotes: Seq<QuotePoint>, signal_at: i64) -> Option<QuotePoint>
    decreases quotes.len(),
{
    if quotes.len() == 0 {
        None
    } else if fills(quotes[0], signal_at) {
        Some(quotes[0])
    } else {
        first_filling(quotes.drop_first(), signal_at)
    }
}

/// The strict fill after a signal.
pub open spec fn strict_fill_of(quotes: Seq<QuotePoint>, signal_at: i64) -> Option<StrictFill> {
    match first_filling(quotes, signal_at) {
        Some(quote) => Some(
            StrictFill {
                observed_at_unix_ms: quote.observed_at_unix_ms,
                elapsed_from_signal_ms: elapsed_of(signal_at, quote.observed_at_unix_ms) as i64,
                quote,
            },
        ),
        None => None,
    }
}

fn find_filling(quotes: &Vec<QuotePoint>, signal_at: i64) -> (r: Option<QuotePoint>)
    ensures
        r == first_filling(quotes@, signal_at),
{
    let mut i: usize = 0;
    assert(quotes@.skip(0) =~= quotes@);
    while i < quotes.len()
        invariant
            i <= quotes@.len(),
            first_filling(quotes@, signal_at) == first_filling(quotes@.skip(i as int), signal_at),
        decreases quotes@.len() - i,
    {
        let quote: QuotePoint = quotes[i];
        assert(quotes@.skip(i as int)[0] == quote);
        assert(quotes@.skip(i as int).drop_first() =~= quotes@.skip(i + 1));
        let cheap: bool = match quote.best_ask {
            Some(ask) => ask.less(half()),
            None => false,
        };
        if quote.observed_at_unix_ms >= signal_at && cheap {
            return Some(quote);
        }
        i = i + 1;
    }
    assert(quotes@.skip(i as int).len() == 0);
    None
}

fn strict_fill(quotes: &Vec<QuotePoint>, signal_at: i64) -> (r: Option<StrictFill>)
    requires
        first_filling(quotes@, signal_at) matches Some(quote) ==> quote.observed_at_unix_ms
            - signal_at <= i64::MAX,
    ensures
        r == strict_fill_of(quotes@, signal_at),
{
    match find_filling(quotes, signal_at) {
        Some(quote) => Some(
            StrictFill {
                observed_at_unix_ms: quote.observed_at_unix_ms,
                elapsed_from_signal_ms: elapsed(signal_at, quote.observed_at_unix_ms),
                quote,
            },
        ),
        None => None,
    }
}

/// A strict fill is not before its signal, its ask is strictly below one half, and no quote before
/// it would have filled.
pub proof fn law_strict_fill_is_first(quotes: Seq<QuotePoint>, signal_at: i64) -> (k: int)
    ensures
        strict_fill_of(quotes, signal_at) matches Some(fill) ==> {
            &&& 0 <= k < quotes.len()
            &&& fill.quote == quotes[k]
            &&& fill.observed_at_unix_ms == quotes[k].observed_at_unix_ms
            &&& fill.observed_at_unix_ms >= signal_at
            &&& fill.quote.best_ask matches Some(ask) && ask.less(half())
            &&& forall|i: int| 0 <= i < k ==> !fills(#[trigger] quotes[i], signal_at)
        },
        strict_fill_of(quotes, signal_at) is None ==> forall|i: int|
            0 <= i < quotes.len() ==> !fills(#[trigger] quotes[i], signal_at),
    decreases quotes.len(),
{
    if quotes.len() == 0 {
        0
    } else if fills(quotes[0], signal_at) {
        0
    } else {
        let rest = quotes.drop_first();
        let j = law_strict_fill_is_first(rest, signal_at);
        if strict_fill_of(quotes, signal_at) is Some {
            assert forall|i: int| 0 <= i < j + 1 implies !fills(
                #[trigger] quotes[i],
                signal_at,
            ) by {
                if i > 0 {
                    assert(rest[i - 1] == quotes[i]);
                }
            }
        } else {
            assert forall|i: int| 0 <= i < quotes.len() implies !fills(
                #[trigger] quotes[i],
                signal_at,
            ) by {
                if i > 0 {
                    assert(rest[i - 1] == quotes[i]);
                }
            }
        }
        j + 1
    }
}

/// The quotes from a fill to the resolution, both included.
pub open spec fn post_fill_of(quotes: Seq<QuotePoint>, fill_at: i64, close_at: i64) -> Seq<
    QuotePoint,
>
    decreases quotes.len(),
{
    if quotes.len() == 0 {
        Seq::empty()
    } else {
        let before = post_fill_of(quotes.drop_last(), fill_at, close_at);
        if fill_at <= quotes.last().observed_at_unix_ms <= close_at {
            before.push(quotes.last())
        } else {
            before
        }
    }
}

/// Whether quotes are in order of time, between a fill and the resolution.
pub open spec fn between(quotes: Seq<QuotePoint>, fill_at: i64, close_at: i64) -> bool {
    &&& in_time(quotes)
    &&& forall|i: int|
        0 <= i < quotes.len() ==> fill_at <= (#[trigger] quotes[i]).observed_at_unix_ms <= close_at
}

fn post_fill(quotes: &Vec<QuotePoint>, fill_at: i64, close_at: i64) -> (r: Vec<QuotePoint>)
    ensures
        r@ == post_fill_of(quotes@, fill_at, close_at),
{
    let mut r: Vec<QuotePoint> = Vec::new();
    let mut i: usize = 0;
    while i < quotes.len()
        invariant
            i <= quotes@.len(),
            r@ == post_fill_of(quotes@.take(i as int), fill_at, close_at),
        decreases quotes@.len() - i,
    {
        let quote: QuotePoint = quotes[i];
        if fill_at <= quote.observed_at_unix_ms && quote.observed_at_unix_ms <= close_at {
            r.push(quote);
        }
        i = i + 1;
        assert(quotes@.take(i as int).drop_last() =~= quotes@.take(i - 1));
    }
    assert(quotes@.take(i as int) =~= quotes@);
    r
}

/// The quotes from a fill to the resolution are those of the row that lie between the two, in its
/// order.
pub proof fn law_post_fill_between(quotes: Seq<QuotePoint>, fill_at: i64, close_at: i64)
    ensures
        ({
            let post = post_fill_of(quotes, fill_at, close_at);
            &&& in_time(quotes) ==> between(post, fill_at, close_at)
            &&& forall|i: int|
                0 <= i < post.len() ==> fill_at <= (#[trigger] post[i]).observed_at_unix_ms
                    <= close_at && quotes.contains(post[i])
            &&& post_fill_of(post, fill_at, close_at) == post
        }),
    decreases quotes.len(),
{
    if quotes.len() > 0 {
        let fewer = quotes.drop_last();
        let before = post_fill_of(fewer, fill_at, close_at);
        let post = post_fill_of(quotes, fill_at, close_at);
        law_post_fill_between(fewer, fill_at, close_at);
        assert(quotes[quotes.len() - 1] == quotes.last());
        assert forall|i: int| 0 <= i < post.len() implies quotes.contains(#[trigger] post[i]) by {
            if i < before.len() {
                assert(fewer.contains(before[i]));
                let j = choose|j: int| 0 <= j < fewer.len() && fewer[j] == before[i];
                assert(quotes[j] == before[i]);
            }
        }
        if post != before {
            assert(post.drop_last() =~= before);
        }
        if in_time(quotes) {
            assert(in_time(fewer)) by {
                assert forall|i: int, j: int| 0 <= i <= j < fewer.len() implies (
                #[trigger] fewer[i]).at() <= (#[trigger] fewer[j]).at() by {
                    assert(quotes[i].at() <= quotes[j].at());
                }
            }
            assert(in_time(post)) by {
                assert forall|i: int, j: int| 0 <= i <= j < post.len() implies (
                #[trigger] post[i]).at() <= (#[trigger] post[j]).at() by {
                    if j == before.len() && i < j {
                        assert(fewer.contains(before[i]));
                        let k = choose|k: int| 0 <= k < fewer.len() && fewer[k] == before[i];
                        assert(quotes[k].at() <= quotes[quotes.len() - 1].at());
                    } else if j < before.len() {
                        assert(before[i].at() <= before[j].at());
                    }
                }
            }
        }
    }
}

/// Whether no quote is too long after a fill for the distance to be counted.
pub open spec fn reachable(quotes: Seq<QuotePoint>, fill_at: i64) -> bool {
    forall|i: int|
        0 <= i < quotes.len() ==> (#[trigger] quotes[i]).observed_at_unix_ms - fill_at <= i64::MAX
}

/// The lowest bid and when it was observed first, in the total order of numbers.
pub open spec fn lowest_bid_of(quotes: Seq<QuotePoint>) -> Option<(i64, Binary64)>
    decreases quotes.len(),
{
    if quotes.len() == 0 {
        None
    } else {
        let last = quotes.last();
        match (lowest_bid_of(quotes.drop_last()), last.best_bid) {
            (Some(low), Some(bid)) => if bid.totally_before(low.1) {
                Some((last.observed_at_unix_ms, bid))
            } else {
                Some(low)
            },
            (None, Some(bid)) => Some((last.observed_at_unix_ms, bid)),
            (low, None) => low,
        }
    }
}

/// The highest bid and when it was observed last, in the total order of numbers.
pub open spec fn highest_bid_of(quotes: Seq<QuotePoint>) -> Option<(i64, Binary64)>
    decreases quotes.len(),
{
    if quotes.len() == 0 {
        None
    } else {
        let last = quotes.last();
        match (highest_bid_of(quotes.drop_last()), last.best_bid) {
            (Some(high), Some(bid)) => if bid.totally_before(high.1) {
                Some(high)
            } else {
                Some((last.observed_at_unix_ms, bid))
            },
            (None, Some(bid)) => Some((last.observed_at_unix_ms, bid)),
            (high, None) => high,
        }
    }
}

/// A bid and its moment as a price after a fill.
pub open spec fn as_timed(bid: Option<(i64, Binary64)>, fill_at: i64) -> Option<TimedPrice> {
    match bid {
        Some((at, value)) => Some(timed_price_of(at, fill_at, value)),
        None => None,
    }
}

fn adverse_and_favorable(quotes: &Vec<QuotePoint>, fill: &StrictFill) -> (r: (
    Option<TimedPrice>,
    Option<TimedPrice>,
))
    requires
        reachable(quotes@, fill.observed_at_unix_ms),
    ensures
        r.0 == as_timed(lowest_bid_of(quotes@), fill.observed_at_unix_ms),
        r.1 == as_timed(highest_bid_of(quotes@), fill.observed_at_unix_ms),
{
    let mut low: Option<(i64, Binary64)> = None;
    let mut high: Option<(i64, Binary64)> = None;
    let mut i: usize = 0;
    while i < quotes.len()
        invariant
            i <= quotes@.len(),
            low == lowest_bid_of(quotes@.take(i as int)),
            high == highest_bid_of(quotes@.take(i as int)),
            low matches Some(p) ==> p.0 - fill.observed_at_unix_ms <= i64::MAX,
            high matches Some(p) ==> p.0 - fill.observed_at_unix_ms <= i64::MAX,
            reachable(quotes@, fill.observed_at_unix_ms),
        decreases quotes@.len() - i,
    {
        let quote: QuotePoint = quotes[i];
        match quote.best_bid {
            Some(bid) => {
                let lower: bool = match low {
                    Some(p) => bid.totally_before(p.1),
                    None => true,
                };
                let higher: bool = match high {
                    Some(p) => !bid.totally_before(p.1),
                    None => true,
                };
                if lower {
                    low = Some((quote.observed_at_unix_ms, bid));
                }
                if higher {
                    high = Some((quote.observed_at_unix_ms, bid));
                }
            },
            None => {},
        }
        i = i + 1;
        assert(quotes@.take(i as int).drop_last() =~= quotes@.take(i - 1));
    }
    assert(quotes@.take(i as int) =~= quotes@);
    let adverse: Option<TimedPrice> = match low {
        Some(p) => Some(timed_price(p.0, fill, p.1)),
        None => None,
    };
    let favorable: Option<TimedPrice> = match high {
        Some(p) => Some(timed_price(p.0, fill, p.1)),
        None => None,
    };
    (adverse, favorable)
}

/// The running peak of the bid: each bid that is above the peak so far.
pub open spec fn peak_of(quotes: Seq<QuotePoint>) -> Option<(i64, Binary64)>
    decreases quotes.len(),
{
    if quotes.len() == 0 {
        None
    } else {
        let last = quotes.last();
        match (peak_of(quotes.drop_last()), last.best_bid) {
            (Some(peak), Some(bid)) => if peak.1.less(bid) {
                Some((last.observed_at_unix_ms, bid))
            } else {
                Some(peak)
            },
            (None, Some(bid)) => Some((last.observed_at_unix_ms, bid)),
            (peak, None) => peak,
        }
    }
}

/// The fall from the running peak to the last bid.
pub open spec fn fall_of(quotes: Seq<QuotePoint>, fill_at: i64) -> Option<DrawdownPoint> {
    match (peak_of(quotes), quotes.last().best_bid) {
        (Some((peak_at, peak)), Some(bid)) => Some(
            DrawdownPoint {
                peak_observed_at_unix_ms: peak_at,
                trough_observed_at_unix_ms: quotes.last().observed_at_unix_ms,
                peak_elapsed_from_fill_ms: elapsed_of(fill_at, peak_at) as i64,
                trough_elapsed_from_fill_ms: elapsed_of(
                    fill_at,
                    quotes.last().observed_at_unix_ms,
                ) as i64,
                peak_best_bid: peak,
                trough_best_bid: bid,
                drawdown: peak.minus(bid).max(Binary64::zero()),
            },
        ),
        _ => None,
    }
}

/// The largest fall of the bid from its running peak, the first of equals.
pub open spec fn maximum_drawdown_of(quotes: Seq<QuotePoint>, fill_at: i64) -> Option<
    DrawdownPoint,
>
    decreases quotes.len(),
{
    if quotes.len() == 0 {
        None
    } else {
        match (maximum_drawdown_of(quotes.drop_last(), fill_at), fall_of(quotes, fill_at)) {
            (Some(most), Some(fall)) => if most.drawdown.less(fall.drawdown) {
                Some(fall)
            } else {
                Some(most)
            },
            (None, fall) => fall,
            (most, None) => most,
        }
    }
}

/// The largest fall of the bid from its running peak, the first of equals.
pub fn maximum_drawdown(quotes: &Vec<QuotePoint>, fill: &StrictFill) -> (r: Option<DrawdownPoint>)
    requires
        reachable(quotes@, fill.observed_at_unix_ms),
    ensures
        r == maximum_drawdown_of(quotes@, fill.observed_at_unix_ms),
{
    let fill_at: i64 = fill.observed_at_unix_ms;
    let mut peak: Option<(i64, Binary64)> = None;
    let mut most: Option<DrawdownPoint> = None;
    let mut i: usize = 0;
    while i < quotes.len()
        invariant
            i <= quotes@.len(),
            fill_at == fill.observed_at_unix_ms,
            peak == peak_of(quotes@.take(i as int)),
            peak matches Some(p) ==> p.0 - fill_at <= i64::MAX,
            most == maximum_drawdown_of(quotes@.take(i as int), fill_at),
            reachable(quotes@, fill_at),
        decreases quotes@.len() - i,
    {
        let quote: QuotePoint = quotes[i];
        i = i + 1;
        assert(quotes@.take(i as int).drop_last() =~= quotes@.take(i - 1));
        assert(quotes@.take(i as int).last() == quote);
        match quote.best_bid {
            Some(bid) => {
                let (peak_at, peak_bid) = match peak {
                    Some(p) => if p.1.less(bid) {
                        (quote.observed_at_unix_ms, bid)
                    } else {
                        p
                    },
                    None => (quote.observed_at_unix_ms, bid),
                };
                peak = Some((peak_at, peak_bid));
                let drawdown: Binary64 = peak_bid.minus(bid).max(Binary64::zero());
                let larger: bool = match most {
                    Some(current) => current.drawdown.less(drawdown),
                    None => true,
                };
                if larger {
                    most = Some(
                        DrawdownPoint {
                            peak_observed_at_unix_ms: peak_at,
                            trough_observed_at_unix_ms: quote.observed_at_unix_ms,
                            peak_elapsed_from_fill_ms: elapsed(fill_at, peak_at),
                            trough_elapsed_from_fill_ms: elapsed(
                                fill_at,
                                quote.observed_at_unix_ms,
                            ),
                            peak_best_bid: peak_bid,
                            trough_best_bid: bid,
                            drawdown,
                        },
                    );
                }
            },
            None => {},
        }
    }
    assert(quotes@.take(i as int) =~= quotes@);
    most
}

/// Which way the underlying has to move for an outcome.
pub open spec fn direction_of(outcome: Seq<char>) -> Binary64 {
    if alike(outcome, "UP"@) {
        Binary64::one()
    } else {
        Binary64::ratio(true, 1, 1)
    }
}

/// How far the underlying has moved since its candle opened, in hundredths of a percent, towards
/// an outcome.
pub open spec fn signed_move_of(point: Option<BinancePoint>, outcome: Seq<char>) -> Option<
    Binary64,
> {
    match point {
        Some(point) => if Binary64::zero().less(point.open) {
            Some(
                point.close.over(point.open).minus(Binary64::one()).times(
                    Binary64::count(10_000),
                ).times(direction_of(outcome)),
            )
        } else {
            None
        },
        None => None,
    }
}

fn signed_move(point: Option<BinancePoint>, outcome: &str) -> (r: Option<Binary64>)
    ensures
        r == signed_move_of(point, outcome@),
{
    let direction: Binary64 = if is_alike(outcome, "UP") {
        Binary64::one()
    } else {
        Binary64::ratio(true, 1, 1)
    };
    match point {
        Some(point) => if Binary64::zero().less(point.open) {
            Some(
                point.close.over(point.open).minus(Binary64::one()).times(
                    Binary64::count(10_000),
                ).times(direction),
            )
        } else {
            None
        },
        None => None,
    }
}

/// How far the ask is above the bid.
pub open spec fn spread_of(quote: QuotePoint) -> Option<Binary64> {
    match (quote.best_ask, quote.best_bid) {
        (Some(ask), Some(bid)) => Some(ask.minus(bid)),
        _ => None,
    }
}

/// A checkpoint with nothing observed.
pub open spec fn blank_checkpoint_of(
    elapsed_ms: i64,
    unavailable_after_resolution: bool,
    binance_signed_move_bps: Option<Binary64>,
    time_remaining_ms: i64,
) -> ExitCheckpoint {
    ExitCheckpoint {
        target_elapsed_from_fill_ms: elapsed_ms,
        observed_at_unix_ms: None,
        unavailable_after_resolution,
        best_bid: None,
        best_bid_size: None,
        bid_shares_available: None,
        best_ask: None,
        spread: None,
        last_trade_price: None,
        sell_vwap_5: None,
        sell_vwap_candidate: None,
        candidate_shares: None,
        gross_pnl_5_usdc: None,
        net_pnl_5_usdc: None,
        binance_signed_move_bps,
        time_remaining_ms,
    }
}

/// What an exit would have brought so long after a fill, by what had been observed then.
pub open spec fn checkpoint_of(
    post_fill: Seq<QuotePoint>,
    binance: Seq<BinancePoint>,
    fill_at: i64,
    outcome: Seq<char>,
    close_at: i64,
    elapsed_ms: i64,
    costs: ExitCostAssumptions,
) -> ExitCheckpoint {
    let target = fill_at + elapsed_ms;
    if target > close_at {
        blank_checkpoint_of(elapsed_ms, true, None, 0)
    } else {
        let moved = signed_move_of(latest_of(binance, target), outcome);
        let remaining = (close_at - target) as i64;
        match latest_of(post_fill, target) {
            None => blank_checkpoint_of(elapsed_ms, false, moved, remaining),
            Some(quote) => ExitCheckpoint {
                target_elapsed_from_fill_ms: elapsed_ms,
                observed_at_unix_ms: Some(quote.observed_at_unix_ms),
                unavailable_after_resolution: false,
                best_bid: quote.best_bid,
                best_bid_size: quote.best_bid_size,
                bid_shares_available: quote.bid_shares_available,
                best_ask: quote.best_ask,
                spread: spread_of(quote),
                last_trade_price: quote.last_trade_price,
                sell_vwap_5: quote.sell_vwap_5,
                sell_vwap_candidate: quote.sell_vwap_candidate,
                candidate_shares: quote.candidate_shares,
                gross_pnl_5_usdc: gross_pnl_5_of(quote.sell_vwap_5),
                net_pnl_5_usdc: net_pnl_5_of(quote.sell_vwap_5, costs),
                binance_signed_move_bps: moved,
                time_remaining_ms: remaining,
            },
        }
    }
}

fn blank_checkpoint(
    elapsed_ms: i64,
    unavailable_after_resolution: bool,
    binance_signed_move_bps: Option<Binary64>,
    time_remaining_ms: i64,
) -> (r: ExitCheckpoint)
    ensures
        r == blank_checkpoint_of(
            elapsed_ms,
            unavailable_after_resolution,
            binance_signed_move_bps,
            time_remaining_ms,
        ),
{
    ExitCheckpoint {
        target_elapsed_from_fill_ms: elapsed_ms,
        observed_at_unix_ms: None,
        unavailable_after_resolution,
        best_bid: None,
        best_bid_size: None,
        bid_shares_available: None,
        best_ask: None,
        spread: None,
        last_trade_price: None,
        sell_vwap_5: None,
        sell_vwap_candidate: None,
        candidate_shares: None,
        gross_pnl_5_usdc: None,
        net_pnl_5_usdc: None,
        binance_signed_move_bps,
        time_remaining_ms,
    }
}

/// What an exit would have brought so long after a fill, by what had been observed then.
pub fn checkpoint(
    post_fill: &Vec<QuotePoint>,
    binance: &Vec<BinancePoint>,
    fill: &StrictFill,
    outcome: &str,
    target_close_time_ms: i64,
    elapsed_ms: i64,
    costs: ExitCostAssumptions,
) -> (r: ExitCheckpoint)
    requires
        i64::MIN <= fill.observed_at_unix_ms + elapsed_ms <= i64::MAX,
        target_close_time_ms - (fill.observed_at_unix_ms + elapsed_ms) <= i64::MAX,
    ensures
        r == checkpoint_of(
            post_fill@,
            binance@,
            fill.observed_at_unix_ms,
            outcome@,
            target_close_time_ms,
            elapsed_ms,
            costs,
        ),
{
    let target_ms: i64 = fill.observed_at_unix_ms + elapsed_ms;
    if target_ms > target_close_time_ms {
        return blank_checkpoint(elapsed_ms, true, None, 0);
    }
    let moved: Option<Binary64> = signed_move(latest(binance, target_ms), outcome);
    let remaining: i64 = target_close_time_ms - target_ms;
    match latest(post_fill, target_ms) {
        None => blank_checkpoint(elapsed_ms, false, moved, remaining),
        Some(quote) => {
            let spread: Option<Binary64> = match (quote.best_ask, quote.best_bid) {
                (Some(ask), Some(bid)) => Some(ask.minus(bid)),
                _ => None,
            };
            ExitCheckpoint {
                target_elapsed_from_fill_ms: elapsed_ms,
                observed_at_unix_ms: Some(quote.observed_at_unix_ms),
                unavailable_after_resolution: false,
                best_bid: quote.best_bid,
                best_bid_size: quote.best_bid_size,
                bid_shares_available: quote.bid_shares_available,
                best_ask: quote.best_ask,
                spread,
                last_trade_price: quote.last_trade_price,
                sell_vwap_5: quote.sell_vwap_5,
                sell_vwap_candidate: quote.sell_vwap_candidate,
                candidate_shares: quote.candidate_shares,
                gross_pnl_5_usdc: gross_pnl_5(quote.sell_vwap_5),
                net_pnl_5_usdc: net_pnl_5(quote.sell_vwap_5, costs),
                binance_signed_move_bps: moved,
                time_remaining_ms: remaining,
            }
        },
    }
}

/// A checkpoint rests on nothing that was observed after it, neither in the book nor of the
/// underlying.
pub proof fn law_checkpoint_never_looks_ahead(
    post_fill: Seq<QuotePoint>,
    binance: Seq<BinancePoint>,
    fill_at: i64,
    outcome: Seq<char>,
    close_at: i64,
    elapsed_ms: i64,
    costs: ExitCostAssumptions,
)
    ensures
        ({
            let target = fill_at + elapsed_ms;
            let r = checkpoint_of(
                post_fill,
                binance,
                fill_at,
                outcome,
                close_at,
                elapsed_ms,
                costs,
            );
            &&& r == checkpoint_of(
                until(post_fill, target),
                until(binance, target),
                fill_at,
                outcome,
                close_at,
                elapsed_ms,
                costs,
            )
            &&& r.observed_at_unix_ms matches Some(at) ==> at <= target
        }),
{
    law_latest_never_looks_ahead(post_fill, fill_at + elapsed_ms);
    law_latest_never_looks_ahead(binance, fill_at + elapsed_ms);
}

/// A checkpoint that would come after the resolution is marked so, and says nothing else.
pub proof fn law_checkpoint_after_resolution(
    post_fill: Seq<QuotePoint>,
    binance: Seq<BinancePoint>,
    fill_at: i64,
    outcome: Seq<char>,
    close_at: i64,
    elapsed_ms: i64,
    costs: ExitCostAssumptions,
)
    ensures
        checkpoint_of(
            post_fill,
            binance,
            fill_at,
            outcome,
            close_at,
            elapsed_ms,
            costs,
        ).unavailable_after_resolution <==> fill_at + elapsed_ms > close_at,
        fill_at + elapsed_ms > close_at ==> checkpoint_of(
            post_fill,
            binance,
            fill_at,
            outcome,
            close_at,
            elapsed_ms,
            costs,
        ) == blank_checkpoint_of(elapsed_ms, true, None, 0),
{
}

/// Whether a price is past a threshold, below it or else above it.
pub open spec fn past(price: Option<Binary64>, threshold: Binary64, below: bool) -> bool {
    price matches Some(p) && if below {
        p.less(threshold)
    } else {
        threshold.less(p)
    }
}

fn is_past(price: Option<Binary64>, threshold: Binary64, below: bool) -> (r: bool)
    ensures
        r == past(price, threshold, below),
{
    match price {
        Some(p) => if below {
            p.less(threshold)
        } else {
            threshold.less(p)
        },
        None => false,
    }
}

/// The first quote whose bid is past a threshold.
pub open spec fn first_past(quotes: Seq<QuotePoint>, threshold: Binary64, below: bool) -> Option<
    QuotePoint,
>
    decreases quotes.len(),
{
    if quotes.len() == 0 {
        None
    } else if past(quotes[0].best_bid, threshold, below) {
        Some(quotes[0])
    } else {
        first_past(quotes.drop_first(), threshold, below)
    }
}

fn find_past(quotes: &Vec<QuotePoint>, threshold: Binary64, below: bool) -> (r: Option<QuotePoint>)
    ensures
        r == first_past(quotes@, threshold, below),
        r matches Some(q) ==> exists|i: int| 0 <= i < quotes@.len() && q == #[trigger] quotes@[i],
{
    let mut i: usize = 0;
    assert(quotes@.skip(0) =~= quotes@);
    while i < quotes.len()
        invariant
            i <= quotes@.len(),
            first_past(quotes@, threshold, below) == first_past(
                quotes@.skip(i as int),
                threshold,
                below,
            ),
        decreases quotes@.len() - i,
    {
        let quote: QuotePoint = quotes[i];
        assert(quotes@.skip(i as int)[0] == quote);
        assert(quotes@.skip(i as int).drop_first() =~= quotes@.skip(i + 1));
        if is_past(quote.best_bid, threshold, below) {
            return Some(quote);
        }
        i = i + 1;
    }
    assert(quotes@.skip(i as int).len() == 0);
    None
}

/// When a quote stops being the last one: at the next one, or at the resolution.
pub open spec fn superseded_at(quotes: Seq<QuotePoint>, i: int, close_at: i64) -> i64 {
    if i + 1 < quotes.len() && quotes[i + 1].observed_at_unix_ms < close_at {
        quotes[i + 1].observed_at_unix_ms
    } else {
        close_at
    }
}

/// For how long the bid was past a threshold during the first `n` quotes.
pub open spec fn duration_of(
    quotes: Seq<QuotePoint>,
    close_at: i64,
    threshold: Binary64,
    below: bool,
    n: int,
) -> int
    decreases n,
{
    if n <= 0 {
        0
    } else {
        duration_of(quotes, close_at, threshold, below, n - 1) + (if past(
            quotes[n - 1].best_bid,
            threshold,
            below,
        ) {
            elapsed_of(
                quotes[n - 1].observed_at_unix_ms,
                superseded_at(quotes, n - 1, close_at),
            )
        } else {
            0
        })
    }
}

/// A bid is past a threshold for no longer during some quotes than during those and more.
proof fn lemma_duration_grows(
    quotes: Seq<QuotePoint>,
    close_at: i64,
    threshold: Binary64,
    below: bool,
    m: int,
    n: int,
)
    requires
        m <= n,
    ensures
        0 <= duration_of(quotes, close_at, threshold, below, m) <= duration_of(
            quotes,
            close_at,
            threshold,
            below,
            n,
        ),
    decreases n,
{
    if n > 0 {
        if m < n {
            lemma_duration_grows(quotes, close_at, threshold, below, m, n - 1);
        } else {
            lemma_duration_grows(quotes, close_at, threshold, below, n - 1, n - 1);
        }
    }
}

fn duration(quotes: &Vec<QuotePoint>, close_at: i64, threshold: Binary64, below: bool) -> (r: i64)
    requires
        duration_of(quotes@, close_at, threshold, below, quotes@.len() as int) <= i64::MAX,
    ensures
        r == duration_of(quotes@, close_at, threshold, below, quotes@.len() as int),
{
    let mut total: i64 = 0;
    let mut i: usize = 0;
    while i < quotes.len()
        invariant
            i <= quotes@.len(),
            duration_of(quotes@, close_at, threshold, below, quotes@.len() as int) <= i64::MAX,
            total == duration_of(quotes@, close_at, threshold, below, i as int),
        decreases quotes@.len() - i,
    {
        let quote: QuotePoint = quotes[i];
        let mut next_at: i64 = close_at;
        if i + 1 < quotes.len() && quotes[i + 1].observed_at_unix_ms < close_at {
            next_at = quotes[i + 1].observed_at_unix_ms;
        }
        assert(next_at == superseded_at(quotes@, i as int, close_at));
        proof {
            let len = quotes@.len() as int;
            lemma_duration_grows(quotes@, close_at, threshold, below, i as int, len);
            lemma_duration_grows(quotes@, close_at, threshold, below, i + 1, len);
        }
        if is_past(quote.best_bid, threshold, below) {
            total = total + elapsed(quote.observed_at_unix_ms, next_at);
        }
        i = i + 1;
    }
    total
}

/// Whether the bid came back to one half after a moment.
pub open spec fn recovers(quotes: Seq<QuotePoint>, after: i64) -> bool {
    exists|i: int|
        0 <= i < quotes.len() && (#[trigger] quotes[i]).observed_at_unix_ms > after && (
        quotes[i].best_bid matches Some(p) && half().at_most(p))
}

fn does_recover(quotes: &Vec<QuotePoint>, after: i64) -> (r: bool)
    ensures
        r == recovers(quotes@, after),
{
    let mut i: usize = 0;
    while i < quotes.len()
        invariant
            i <= quotes@.len(),
            forall|j: int|
                0 <= j < i ==> !((#[trigger] quotes@[j]).observed_at_unix_ms > after && (
                quotes@[j].best_bid matches Some(p) && half().at_most(p))),
        decreases quotes@.len() - i,
    {
        let quote: QuotePoint = quotes[i];
        let back: bool = match quote.best_bid {
            Some(p) => half().at_most(p),
            None => false,
        };
        if quote.observed_at_unix_ms > after && back {
            assert(quotes@[i as int].observed_at_unix_ms > after);
            return true;
        }
        i = i + 1;
    }
    false
}

/// How the bid went past a threshold after a fill.
pub open spec fn threshold_path_of(
    post_fill: Seq<QuotePoint>,
    fill_at: i64,
    close_at: i64,
    threshold: Binary64,
    below: bool,
    costs: ExitCostAssumptions,
) -> ThresholdPath {
    let duration_ms = duration_of(
        post_fill,
        close_at,
        threshold,
        below,
        post_fill.len() as int,
    ) as i64;
    match first_past(post_fill, threshold, below) {
        Some(first) => ThresholdPath {
            first_elapsed_from_fill_ms: Some(
                elapsed_of(fill_at, first.observed_at_unix_ms) as i64,
            ),
            first_best_bid: first.best_bid,
            first_sell_vwap_5: first.sell_vwap_5,
            first_gross_pnl_5_usdc: gross_pnl_5_of(first.sell_vwap_5),
            first_net_pnl_5_usdc: net_pnl_5_of(first.sell_vwap_5, costs),
            duration_ms,
            recovered_to_half: below && recovers(post_fill, first.observed_at_unix_ms),
        },
        None => ThresholdPath {
            first_elapsed_from_fill_ms: None,
            first_best_bid: None,
            first_sell_vwap_5: None,
            first_gross_pnl_5_usdc: None,
            first_net_pnl_5_usdc: None,
            duration_ms,
            recovered_to_half: false,
        },
    }
}

/// How the bid went past a threshold after a fill.
pub fn threshold_path(
    post_fill: &Vec<QuotePoint>,
    fill: &StrictFill,
    target_close_time_ms: i64,
    threshold: Binary64,
    below: bool,
    costs: ExitCostAssumptions,
) -> (r: ThresholdPath)
    requires
        reachable(post_fill@, fill.observed_at_unix_ms),
        duration_of(post_fill@, target_close_time_ms, threshold, below, post_fill@.len() as int)
            <= i64::MAX,
    ensures
        r == threshold_path_of(
            post_fill@,
            fill.observed_at_unix_ms,
            target_close_time_ms,
            threshold,
            below,
            costs,
        ),
{
    let fill_at: i64 = fill.observed_at_unix_ms;
    let duration_ms: i64 = duration(post_fill, target_close_time_ms, threshold, below);
    match find_past(post_fill, threshold, below) {
        Some(first) => ThresholdPath {
            first_elapsed_from_fill_ms: Some(elapsed(fill_at, first.observed_at_unix_ms)),
            first_best_bid: first.best_bid,
            first_sell_vwap_5: first.sell_vwap_5,
            first_gross_pnl_5_usdc: gross_pnl_5(first.sell_vwap_5),
            first_net_pnl_5_usdc: net_pnl_5(first.sell_vwap_5, costs),
            duration_ms,
            recovered_to_half: below && does_recover(post_fill, first.observed_at_unix_ms),
        },
        None => ThresholdPath {
            first_elapsed_from_fill_ms: None,
            first_best_bid: None,
            first_sell_vwap_5: None,
            first_gross_pnl_5_usdc: None,
            first_net_pnl_5_usdc: None,
            duration_ms,
            recovered_to_half: false,
        },
    }
}

/// What an exit would have brought at each horizon, in the order of the names.
pub open spec fn checkpoints_of(
    post: Seq<QuotePoint>,
    binance: Seq<BinancePoint>,
    fill_at: i64,
    outcome: Seq<char>,
    close_at: i64,
    costs: ExitCostAssumptions,
) -> Seq<(&'static str, ExitCheckpoint)> {
    Seq::new(
        6,
        |i: int|
            {
                let horizon = RISK_HORIZONS_MS@[HORIZONS_BY_NAME@[i] as int];
                (
                    horizon.0,
                    checkpoint_of(post, binance, fill_at, outcome, close_at, horizon.1, costs),
                )
            },
    )
}

/// Whether this is what became of a fill.
pub open spec fn is_risk_path(
    risk: RiskPathMetrics,
    quotes: Seq<QuotePoint>,
    binance: Seq<BinancePoint>,
    fill_at: i64,
    outcome: Seq<char>,
    close_at: i64,
    costs: ExitCostAssumptions,
) -> bool {
    let post = post_fill_of(quotes, fill_at, close_at);
    &&& risk.mae_best_bid == as_timed(lowest_bid_of(post), fill_at)
    &&& risk.mfe_best_bid == as_timed(highest_bid_of(post), fill_at)
    &&& risk.maximum_drawdown == maximum_drawdown_of(post, fill_at)
    &&& risk.checkpoints@ == checkpoints_of(post, binance, fill_at, outcome, close_at, costs)
    &&& risk.below_thresholds@ == thresholds_of(
        post,
        fill_at,
        close_at,
        BELOW_THRESHOLDS@,
        BELOW_BY_NAME@,
        true,
        costs,
    )
    &&& risk.above_thresholds@ == thresholds_of(
        post,
        fill_at,
        close_at,
        ABOVE_THRESHOLDS@,
        ABOVE_BY_NAME@,
        false,
        costs,
    )
}

/// Whether the time that the bid was past a threshold can be counted, whatever the threshold. It
/// can where the quotes are in order of time and lie close enough together.
pub open spec fn durations_fit(quotes: Seq<QuotePoint>, close_at: i64) -> bool {
    forall|threshold: Binary64, below: bool|
        #[trigger] duration_of(quotes, close_at, threshold, below, quotes.len() as int) <= i64::MAX
}

/// How the bid went past each threshold of a table, taken in an order of its places.
pub open spec fn thresholds_of(
    post: Seq<QuotePoint>,
    fill_at: i64,
    close_at: i64,
    table: Seq<(&'static str, u64)>,
    order: Seq<usize>,
    below: bool,
    costs: ExitCostAssumptions,
) -> Seq<(&'static str, ThresholdPath)> {
    Seq::new(
        order.len(),
        |i: int|
            {
                let (name, hundredths) = table[order[i] as int];
                let threshold = Binary64::ratio(false, hundredths, 100);
                (name, threshold_path_of(post, fill_at, close_at, threshold, below, costs))
            },
    )
}

fn thresholds(
    post: &Vec<QuotePoint>,
    fill: &StrictFill,
    close_at: i64,
    table: &[(&'static str, u64); 4],
    order: &[usize; 4],
    below: bool,
    costs: ExitCostAssumptions,
) -> (r: Vec<(&'static str, ThresholdPath)>)
    requires
        reachable(post@, fill.observed_at_unix_ms),
        durations_fit(post@, close_at),
        forall|i: int| 0 <= i < 4 ==> #[trigger] order@[i] < 4,
    ensures
        r@ == thresholds_of(
            post@,
            fill.observed_at_unix_ms,
            close_at,
            table@,
            order@,
            below,
            costs,
        ),
{
    let mut r: Vec<(&'static str, ThresholdPath)> = Vec::new();
    let mut i: usize = 0;
    let ghost all = thresholds_of(
        post@,
        fill.observed_at_unix_ms,
        close_at,
        table@,
        order@,
        below,
        costs,
    );
    while i < 4
        invariant
            i <= 4,
            table@.len() == 4,
            order@.len() == 4,
            forall|i: int| 0 <= i < 4 ==> #[trigger] order@[i] < 4,
            reachable(post@, fill.observed_at_unix_ms),
            durations_fit(post@, close_at),
            all == thresholds_of(
                post@,
                fill.observed_at_unix_ms,
                close_at,
                table@,
                order@,
                below,
                costs,
            ),
            r@.len() == i,
            forall|j: int| 0 <= j < i ==> #[trigger] r@[j] == all[j],
        decreases 4 - i,
    {
        assert(order@[i as int] < 4);
        let (name, hundredths) = table[order[i]];
        let threshold: Binary64 = Binary64::ratio(false, hundredths, 100);
        r.push((name, threshold_path(post, fill, close_at, threshold, below, costs)));
        i = i + 1;
    }
    assert(r@ =~= all);
    r
}

/// What became of a fill.
pub fn build_risk_path(
    quotes: &Vec<QuotePoint>,
    binance: &Vec<BinancePoint>,
    fill: &StrictFill,
    outcome: &str,
    target_close_time_ms: i64,
    costs: ExitCostAssumptions,
) -> (r: RiskPathMetrics)
    requires
        durations_fit(
            post_fill_of(quotes@, fill.observed_at_unix_ms, target_close_time_ms),
            target_close_time_ms,
        ),
        fill.observed_at_unix_ms + LAST_HORIZON_MS <= i64::MAX,
        target_close_time_ms - fill.observed_at_unix_ms <= i64::MAX,
    ensures
        is_risk_path(
            r,
            quotes@,
            binance@,
            fill.observed_at_unix_ms,
            outcome@,
            target_close_time_ms,
            costs,
        ),
        r.well_formed(),
{
    let fill_at: i64 = fill.observed_at_unix_ms;
    let post: Vec<QuotePoint> = post_fill(quotes, fill_at, target_close_time_ms);
    proof {
        law_post_fill_between(quotes@, fill_at, target_close_time_ms);
    }
    let (mae_best_bid, mfe_best_bid) = adverse_and_favorable(&post, fill);
    let maximum_drawdown: Option<DrawdownPoint> = maximum_drawdown(&post, fill);
    let mut checkpoints: Vec<(&'static str, ExitCheckpoint)> = Vec::new();
    let mut i: usize = 0;
    while i < 6
        invariant
            i <= 6,
            RISK_HORIZONS_MS@.len() == 6,
            fill_at == fill.observed_at_unix_ms,
            fill.observed_at_unix_ms + LAST_HORIZON_MS <= i64::MAX,
            target_close_time_ms - fill.observed_at_unix_ms <= i64::MAX,
            checkpoints@.len() == i,
            forall|j: int|
                0 <= j < i ==> #[trigger] checkpoints@[j] == checkpoints_of(
                    post@,
                    binance@,
                    fill_at,
                    outcome@,
                    target_close_time_ms,
                    costs,
                )[j],
        decreases 6 - i,
    {
        let (name, elapsed_ms) = RISK_HORIZONS_MS[HORIZONS_BY_NAME[i]];
        assert(0 <= elapsed_ms <= LAST_HORIZON_MS);
        checkpoints.push(
            (
                name,
                checkpoint(&post, binance, fill, outcome, target_close_time_ms, elapsed_ms, costs),
            ),
        );
        i = i + 1;
    }
    assert(checkpoints@ =~= checkpoints_of(
        post@,
        binance@,
        fill_at,
        outcome@,
        target_close_time_ms,
        costs,
    ));
    let below_thresholds: Vec<(&'static str, ThresholdPath)> = thresholds(
        &post,
        fill,
        target_close_time_ms,
        &BELOW_THRESHOLDS,
        &BELOW_BY_NAME,
        true,
        costs,
    );
    let above_thresholds: Vec<(&'static str, ThresholdPath)> = thresholds(
        &post,
        fill,
        target_close_time_ms,
        &ABOVE_THRESHOLDS,
        &ABOVE_BY_NAME,
        false,
        costs,
    );
    let r: RiskPathMetrics = RiskPathMetrics {
        mae_best_bid,
        mfe_best_bid,
        maximum_drawdown,
        checkpoints,
        below_thresholds,
        above_thresholds,
    };
    proof {
        law_risk_path_names(
            r,
            quotes@,
            binance@,
            fill_at,
            outcome@,
            target_close_time_ms,
            costs,
        );
    }
    r
}

/// Whether a filling quote is close enough to its signal, to the end of the calendar and to the
/// resolution for the distances to be counted.
pub open spec fn countable(at: i64, signal_at: i64, close_at: i64) -> bool {
    &&& at - signal_at <= i64::MAX
    &&& at + LAST_HORIZON_MS <= i64::MAX
    &&& close_at - at <= i64::MAX
}

/// Whether the moments of a trajectory can be counted: those of the quote that fills, if one does.
pub open spec fn moments_fit_of(
    events: Seq<TrajectoryEvent>,
    outcome: Seq<char>,
    signal_at: i64,
    close_at: i64,
) -> bool {
    first_filling(by_time(quotes_of(events, outcome)), signal_at) matches Some(quote) ==> countable(
        quote.observed_at_unix_ms,
        signal_at,
        close_at,
    )
}

/// Whether the moments of a trajectory can be counted: those of the quote that fills, if one does.
pub fn moments_fit(
    events: &Vec<TrajectoryEvent>,
    outcome: &str,
    signal_at_unix_ms: i64,
    target_close_time_ms: i64,
) -> (r: bool)
    ensures
        r == moments_fit_of(events@, outcome@, signal_at_unix_ms, target_close_time_ms),
{
    let quotes: Vec<QuotePoint> = sort_by_time(&all_quotes(events, outcome));
    match find_filling(&quotes, signal_at_unix_ms) {
        Some(quote) => {
            let most: i128 = i64::MAX as i128;
            let at: i128 = quote.observed_at_unix_ms as i128;
            at - signal_at_unix_ms as i128 <= most && at + LAST_HORIZON_MS as i128 <= most
                && target_close_time_ms as i128 - at <= most
        },
        None => true,
    }
}

/// Whether this is what a trajectory says of an outcome.
pub open spec fn is_analysis(
    analysis: OutcomeTrajectoryAnalysis,
    events: Seq<TrajectoryEvent>,
    outcome: Seq<char>,
    signal_at: i64,
    close_at: i64,
    costs: ExitCostAssumptions,
) -> bool {
    let quotes = by_time(quotes_of(events, outcome));
    let binance = by_time(binances_of(events));
    &&& analysis.quote_at_signal == latest_of(quotes, signal_at as int)
    &&& analysis.strict_fill == strict_fill_of(quotes, signal_at)
    &&& match (analysis.risk, analysis.strict_fill) {
        (Some(risk), Some(fill)) => is_risk_path(
            risk,
            quotes,
            binance,
            fill.observed_at_unix_ms,
            outcome,
            close_at,
            costs,
        ),
        (None, None) => true,
        _ => false,
    }
}

/// What a trajectory says of one outcome after a signal.
pub fn analyze_outcome(
    events: &Vec<TrajectoryEvent>,
    outcome: &str,
    signal_at_unix_ms: i64,
    target_close_time_ms: i64,
    costs: ExitCostAssumptions,
) -> (r: OutcomeTrajectoryAnalysis)
    requires
        moments_fit_of(events@, outcome@, signal_at_unix_ms, target_close_time_ms),
    ensures
        is_analysis(r, events@, outcome@, signal_at_unix_ms, target_close_time_ms, costs),
{
    let quotes: Vec<QuotePoint> = sort_by_time(&all_quotes(events, outcome));
    let binance: Vec<BinancePoint> = sort_by_time(&all_binances(events));
    let quote_at_signal: Option<QuotePoint> = latest(&quotes, signal_at_unix_ms);
    let strict_fill: Option<StrictFill> = strict_fill(&quotes, signal_at_unix_ms);
    let risk: Option<RiskPathMetrics> = match strict_fill {
        Some(fill) => {
            proof {
                law_post_fill_between(quotes@, fill.observed_at_unix_ms, target_close_time_ms);
                lemma_durations_fit(
                    post_fill_of(quotes@, fill.observed_at_unix_ms, target_close_time_ms),
                    fill.observed_at_unix_ms,
                    target_close_time_ms,
                );
            }
            Some(
                build_risk_path(&quotes, &binance, &fill, outcome, target_close_time_ms, costs),
            )
        },
        None => None,
    };
    OutcomeTrajectoryAnalysis { quote_at_signal, strict_fill, risk }
}

/// The quote at the signal is not later than the signal, is the last one that was observed by then,
/// and rests on nothing that was observed later: two trajectories whose quotes agree up to the
/// signal have the same one.
pub proof fn law_signal_quote_never_looks_ahead(
    first: OutcomeTrajectoryAnalysis,
    second: OutcomeTrajectoryAnalysis,
    events: Seq<TrajectoryEvent>,
    others: Seq<TrajectoryEvent>,
    outcome: Seq<char>,
    signal_at: i64,
    close_at: i64,
    costs: ExitCostAssumptions,
)
    requires
        is_analysis(first, events, outcome, signal_at, close_at, costs),
        is_analysis(second, others, outcome, signal_at, close_at, costs),
        until(by_time(quotes_of(events, outcome)), signal_at as int) == until(
            by_time(quotes_of(others, outcome)),
            signal_at as int,
        ),
    ensures
        first.quote_at_signal == second.quote_at_signal,
        first.quote_at_signal matches Some(quote) ==> quote.observed_at_unix_ms <= signal_at
            && forall|i: int|
            0 <= i < by_time(quotes_of(events, outcome)).len() && (#[trigger] by_time(
                quotes_of(events, outcome),
            )[i]).at() <= signal_at ==> by_time(quotes_of(events, outcome))[i].at()
                <= quote.observed_at_unix_ms,
{
    law_by_time_sorts(quotes_of(events, outcome));
    law_latest_never_looks_ahead(by_time(quotes_of(events, outcome)), signal_at as int);
    law_latest_never_looks_ahead(by_time(quotes_of(others, outcome)), signal_at as int);
}

/// The lowest bid is one of the bids, and none comes before it in the total order of numbers; and
/// likewise the highest.
pub proof fn law_extreme_bids(quotes: Seq<QuotePoint>, i: int)
    requires
        0 <= i < quotes.len(),
        quotes[i].best_bid is Some,
    ensures
        lowest_bid_of(quotes) matches Some(low) && !quotes[i].best_bid.unwrap().totally_before(
            low.1,
        ) && exists|j: int|
            0 <= j < quotes.len() && (#[trigger] quotes[j]).best_bid == Some(low.1)
                && quotes[j].observed_at_unix_ms == low.0,
        highest_bid_of(quotes) matches Some(high) && !high.1.totally_before(
            quotes[i].best_bid.unwrap(),
        ) && exists|j: int|
            0 <= j < quotes.len() && (#[trigger] quotes[j]).best_bid == Some(high.1)
                && quotes[j].observed_at_unix_ms == high.0,
    decreases quotes.len(),
{
    let fewer = quotes.drop_last();
    let last = quotes.len() - 1;
    assert(quotes[last] == quotes.last());
    if i < last {
        assert(fewer[i] == quotes[i]);
        law_extreme_bids(fewer, i);
        let low = lowest_bid_of(fewer).unwrap();
        let high = highest_bid_of(fewer).unwrap();
        let j = choose|j: int|
            0 <= j < fewer.len() && (#[trigger] fewer[j]).best_bid == Some(low.1)
                && fewer[j].observed_at_unix_ms == low.0;
        assert(quotes[j].best_bid == Some(low.1));
        let k = choose|k: int|
            0 <= k < fewer.len() && (#[trigger] fewer[k]).best_bid == Some(high.1)
                && fewer[k].observed_at_unix_ms == high.0;
        assert(quotes[k].best_bid == Some(high.1));
    } else {
        lemma_extremes_come_from_quotes(fewer);
        match lowest_bid_of(fewer) {
            Some(low) => {
                let j = choose|j: int|
                    0 <= j < fewer.len() && (#[trigger] fewer[j]).best_bid == Some(low.1)
                        && fewer[j].observed_at_unix_ms == low.0;
                assert(quotes[j].best_bid == Some(low.1));
            },
            None => {},
        }
        match highest_bid_of(fewer) {
            Some(high) => {
                let k = choose|k: int|
                    0 <= k < fewer.len() && (#[trigger] fewer[k]).best_bid == Some(high.1)
                        && fewer[k].observed_at_unix_ms == high.0;
                assert(quotes[k].best_bid == Some(high.1));
            },
            None => {},
        }
    }
}

proof fn lemma_extremes_come_from_quotes(quotes: Seq<QuotePoint>)
    ensures
        lowest_bid_of(quotes) matches Some(low) ==> exists|j: int|
            0 <= j < quotes.len() && (#[trigger] quotes[j]).best_bid == Some(low.1)
                && quotes[j].observed_at_unix_ms == low.0,
        highest_bid_of(quotes) matches Some(high) ==> exists|j: int|
            0 <= j < quotes.len() && (#[trigger] quotes[j]).best_bid == Some(high.1)
                && quotes[j].observed_at_unix_ms == high.0,
    decreases quotes.len(),
{
    if quotes.len() > 0 {
        let fewer = quotes.drop_last();
        lemma_extremes_come_from_quotes(fewer);
        assert(quotes[quotes.len() - 1] == quotes.last());
        match lowest_bid_of(fewer) {
            Some(low) => {
                let j = choose|j: int|
                    0 <= j < fewer.len() && (#[trigger] fewer[j]).best_bid == Some(low.1)
                        && fewer[j].observed_at_unix_ms == low.0;
                assert(quotes[j].best_bid == Some(low.1));
            },
            None => {},
        }
        match highest_bid_of(fewer) {
            Some(high) => {
                let k = choose|k: int|
                    0 <= k < fewer.len() && (#[trigger] fewer[k]).best_bid == Some(high.1)
                        && fewer[k].observed_at_unix_ms == high.0;
                assert(quotes[k].best_bid == Some(high.1));
            },
            None => {},
        }
    }
}

/// The peak of the largest fall is not after its trough.
pub proof fn law_peak_before_trough(quotes: Seq<QuotePoint>, fill_at: i64)
    requires
        in_time(quotes),
    ensures
        peak_of(quotes) matches Some(peak) ==> quotes.len() > 0 && peak.0
            <= quotes.last().observed_at_unix_ms,
        maximum_drawdown_of(quotes, fill_at) matches Some(fall) ==> fall.peak_observed_at_unix_ms
            <= fall.trough_observed_at_unix_ms,
    decreases quotes.len(),
{
    if quotes.len() > 0 {
        let fewer = quotes.drop_last();
        assert(in_time(fewer)) by {
            assert forall|i: int, j: int| 0 <= i <= j < fewer.len() implies (
            #[trigger] fewer[i]).at() <= (#[trigger] fewer[j]).at() by {
                assert(quotes[i].at() <= quotes[j].at());
            }
        }
        law_peak_before_trough(fewer, fill_at);
        if fewer.len() > 0 {
            assert(quotes[fewer.len() - 1].at() <= quotes[quotes.len() - 1].at());
            assert(fewer.last() == quotes[fewer.len() - 1]);
        }
    }
}

/// The bid is never past a threshold for longer than from the fill to the resolution.
pub proof fn law_duration_bounded(
    quotes: Seq<QuotePoint>,
    fill_at: i64,
    close_at: i64,
    threshold: Binary64,
    below: bool,
    n: int,
)
    requires
        between(quotes, fill_at, close_at),
        0 < n <= quotes.len(),
    ensures
        0 <= duration_of(quotes, close_at, threshold, below, n) <= superseded_at(
            quotes,
            n - 1,
            close_at,
        ) - fill_at,
        superseded_at(quotes, n - 1, close_at) <= close_at,
    decreases n,
{
    assert(fill_at <= quotes[n - 1].observed_at_unix_ms <= close_at);
    if n < quotes.len() {
        assert(quotes[n - 1].at() <= quotes[n].at());
    }
    if n > 1 {
        law_duration_bounded(quotes, fill_at, close_at, threshold, below, n - 1);
        assert(quotes[n - 2].at() <= quotes[n - 1].at());
        assert(superseded_at(quotes, n - 2, close_at) <= quotes[n - 1].observed_at_unix_ms);
    } else {
        assert(duration_of(quotes, close_at, threshold, below, 0) == 0);
    }
}

/// Quotes in order of time, between a fill and a resolution that are not too far apart, can be
/// counted.
proof fn lemma_durations_fit(quotes: Seq<QuotePoint>, fill_at: i64, close_at: i64)
    requires
        between(quotes, fill_at, close_at),
        close_at - fill_at <= i64::MAX,
    ensures
        durations_fit(quotes, close_at),
{
    assert forall|threshold: Binary64, below: bool|
        #[trigger] duration_of(quotes, close_at, threshold, below, quotes.len() as int)
            <= i64::MAX by {
        if quotes.len() > 0 {
            law_duration_bounded(
                quotes,
                fill_at,
                close_at,
                threshold,
                below,
                quotes.len() as int,
            );
        }
    }
}

/// What is the last observation at a moment is not touched by leaving out what came after a later
/// one.
proof fn lemma_latest_until<T: Timed>(points: Seq<T>, moment: int, later: int)
    requires
        moment <= later,
    ensures
        latest_of(until(points, later), moment) == latest_of(points, moment),
    decreases points.len(),
{
    if points.len() > 0 {
        let fewer = points.drop_last();
        lemma_latest_until(fewer, moment, later);
        if points.last().at() <= later {
            assert(until(points, later).drop_last() =~= until(fewer, later));
        }
    }
}

/// What becomes of a fill rests only on the quotes from the fill to the resolution and on the
/// prices of the underlying up to the resolution: leaving all others out changes nothing.
pub proof fn law_risk_path_stays_in_window(
    risk: RiskPathMetrics,
    quotes: Seq<QuotePoint>,
    binance: Seq<BinancePoint>,
    fill_at: i64,
    outcome: Seq<char>,
    close_at: i64,
    costs: ExitCostAssumptions,
)
    ensures
        is_risk_path(risk, quotes, binance, fill_at, outcome, close_at, costs) <==> is_risk_path(
            risk,
            post_fill_of(quotes, fill_at, close_at),
            until(binance, close_at as int),
            fill_at,
            outcome,
            close_at,
            costs,
        ),
{
    law_post_fill_between(quotes, fill_at, close_at);
    let post = post_fill_of(quotes, fill_at, close_at);
    let fewer = until(binance, close_at as int);
    assert forall|elapsed_ms: i64| #[trigger]
        checkpoint_of(post, fewer, fill_at, outcome, close_at, elapsed_ms, costs) == checkpoint_of(
            post,
            binance,
            fill_at,
            outcome,
            close_at,
            elapsed_ms,
            costs,
        ) by {
        if fill_at + elapsed_ms <= close_at {
            lemma_latest_until(binance, fill_at + elapsed_ms, close_at as int);
        }
    }
    assert(checkpoints_of(post, fewer, fill_at, outcome, close_at, costs) =~= checkpoints_of(
        post,
        binance,
        fill_at,
        outcome,
        close_at,
        costs,
    ));
}

/// What became of a fill has one checkpoint to each horizon and one path to each threshold, under
/// these names, in the order of the names.
pub proof fn law_risk_path_names(
    risk: RiskPathMetrics,
    quotes: Seq<QuotePoint>,
    binance: Seq<BinancePoint>,
    fill_at: i64,
    outcome: Seq<char>,
    close_at: i64,
    costs: ExitCostAssumptions,
)
    requires
        is_risk_path(risk, quotes, binance, fill_at, outcome, close_at, costs),
    ensures
        names_of(risk.checkpoints@) == seq![
            "t120s"@,
            "t15s"@,
            "t180s"@,
            "t300s"@,
            "t30s"@,
            "t60s"@,
        ],
        names_of(risk.below_thresholds@) == seq![
            "below_0_30"@,
            "below_0_35"@,
            "below_0_40"@,
            "below_0_45"@,
        ],
        names_of(risk.above_thresholds@) == seq![
            "above_0_55"@,
            "above_0_60"@,
            "above_0_65"@,
            "above_0_70"@,
        ],
        risk.well_formed(),
{
    let checkpoints = names_of(risk.checkpoints@);
    let below = names_of(risk.below_thresholds@);
    let above = names_of(risk.above_thresholds@);
    assert(checkpoints =~= seq!["t120s"@, "t15s"@, "t180s"@, "t300s"@, "t30s"@, "t60s"@]);
    assert(below =~= seq!["below_0_30"@, "below_0_35"@, "below_0_40"@, "below_0_45"@]);
    assert(above =~= seq!["above_0_55"@, "above_0_60"@, "above_0_65"@, "above_0_70"@]);
    reveal_strlit("t120s");
    reveal_strlit("t15s");
    reveal_strlit("t180s");
    reveal_strlit("t300s");
    reveal_strlit("t30s");
    reveal_strlit("t60s");
    reveal_strlit("below_0_30");
    reveal_strlit("below_0_35");
    reveal_strlit("below_0_40");
    reveal_strlit("below_0_45");
    reveal_strlit("above_0_55");
    reveal_strlit("above_0_60");
    reveal_strlit("above_0_65");
    reveal_strlit("above_0_70");
    lemma_precedes_at("t120s"@, "t15s"@, 2);
    lemma_precedes_at("t15s"@, "t180s"@, 2);
    lemma_precedes_at("t180s"@, "t300s"@, 1);
    lemma_precedes_at("t300s"@, "t30s"@, 3);
    lemma_precedes_at("t30s"@, "t60s"@, 1);
    lemma_precedes_at("below_0_30"@, "below_0_35"@, 9);
    lemma_precedes_at("below_0_35"@, "below_0_40"@, 8);
    lemma_precedes_at("below_0_40"@, "below_0_45"@, 9);
    lemma_precedes_at("above_0_55"@, "above_0_60"@, 8);
    lemma_precedes_at("above_0_60"@, "above_0_65"@, 9);
    lemma_precedes_at("above_0_65"@, "above_0_70"@, 8);
    lemma_chain_in_order(checkpoints);
    lemma_chain_in_order(below);
    lemma_chain_in_order(above);
}

/// Where two texts first differ decides which comes first.
proof fn lemma_precedes_at(a: Seq<char>, b: Seq<char>, k: int)
    requires
        0 <= k < a.len(),
        k < b.len(),
        forall|i: int| 0 <= i < k ==> a[i] == b[i],
        (a[k] as int) < (b[k] as int),
    ensures
        precedes(a, b),
    decreases k,
{
    if k > 0 {
        lemma_precedes_at(a.drop_first(), b.drop_first(), k - 1);
    }
}

/// Names of which each comes before the next one are in order.
proof fn lemma_chain_in_order(names: Seq<Seq<char>>)
    requires
        forall|i: int| 0 < i < names.len() ==> precedes(names[i - 1], #[trigger] names[i]),
    ensures
        in_name_order(names),
{
    assert forall|i: int, j: int| 0 <= i < j < names.len() implies precedes(
        #[trigger] names[i],
        #[trigger] names[j],
    ) by {
        lemma_chain(names, i, j);
    }
}

proof fn lemma_chain(names: Seq<Seq<char>>, i: int, j: int)
    requires
        forall|i: int| 0 < i < names.len() ==> precedes(names[i - 1], #[trigger] names[i]),
        0 <= i < j < names.len(),
    ensures
        precedes(names[i], names[j]),
    decreases j - i,
{
    assert(precedes(names[j - 1], names[j]));
    if i < j - 1 {
        lemma_chain(names, i, j - 1);
        law_precedes_transitive(names[i], names[j - 1], names[j]);
    }
}

/// Whether no two points are of the same moment.
pub open spec fn apart_in_time<T: Timed>(points: Seq<T>) -> bool {
    forall|i: int, j: int|
        0 <= i < j < points.len() ==> (#[trigger] points[i]).at() != (#[trigger] points[j]).at()
}

/// The quotes that an event adds to some others.
spec fn with_quote(outcome: Seq<char>) -> spec_fn(
    TrajectoryEvent,
    Multiset<QuotePoint>,
) -> Multiset<QuotePoint> {
    |event: TrajectoryEvent, others: Multiset<QuotePoint>|
        match quote_of(event, outcome) {
            Some(quote) => others.insert(quote),
            None => others,
        }
}

/// The prices that an event adds to some others.
spec fn with_binance() -> spec_fn(
    TrajectoryEvent,
    Multiset<BinancePoint>,
) -> Multiset<BinancePoint> {
    |event: TrajectoryEvent, others: Multiset<BinancePoint>|
        match binance_of(event) {
            Some(point) => others.insert(point),
            None => others,
        }
}

proof fn lemma_quotes_folded(
    events: Seq<TrajectoryEvent>,
    outcome: Seq<char>,
    others: Multiset<QuotePoint>,
)
    ensures
        events.fold_right(with_quote(outcome), others) =~= others.add(
            quotes_of(events, outcome).to_multiset(),
        ),
    decreases events.len(),
{
    if events.len() > 0 {
        let f = with_quote(outcome);
        let before = quotes_of(events.drop_last(), outcome);
        lemma_quotes_folded(events.drop_last(), outcome, f(events.last(), others));
        before.to_multiset_ensures();
        assert(events.fold_right(f, others) == events.drop_last().fold_right(
            f,
            f(events.last(), others),
        ));
    } else {
        quotes_of(events, outcome).to_multiset_ensures();
        assert(quotes_of(events, outcome).to_multiset() =~= Multiset::empty());
    }
}

proof fn lemma_binances_folded(events: Seq<TrajectoryEvent>, others: Multiset<BinancePoint>)
    ensures
        events.fold_right(with_binance(), others) =~= others.add(
            binances_of(events).to_multiset(),
        ),
    decreases events.len(),
{
    if events.len() > 0 {
        let f = with_binance();
        let before = binances_of(events.drop_last());
        lemma_binances_folded(events.drop_last(), f(events.last(), others));
        before.to_multiset_ensures();
        assert(events.fold_right(f, others) == events.drop_last().fold_right(
            f,
            f(events.last(), others),
        ));
    } else {
        binances_of(events).to_multiset_ensures();
        assert(binances_of(events).to_multiset() =~= Multiset::empty());
    }
}

/// Events in another order hold the same quotes and prices.
proof fn lemma_same_points(
    events: Seq<TrajectoryEvent>,
    others: Seq<TrajectoryEvent>,
    outcome: Seq<char>,
)
    requires
        events.to_multiset() == others.to_multiset(),
    ensures
        quotes_of(events, outcome).to_multiset() == quotes_of(others, outcome).to_multiset(),
        binances_of(events).to_multiset() == binances_of(others).to_multiset(),
{
    let f = with_quote(outcome);
    let g = with_binance();
    let no_quotes = Multiset::<QuotePoint>::empty();
    let no_prices = Multiset::<BinancePoint>::empty();
    assert(vstd::seq_lib::commutative_foldr(f)) by {
        assert forall|x: TrajectoryEvent, y: TrajectoryEvent, v: Multiset<QuotePoint>| #[trigger]
            f(x, f(y, v)) == f(y, f(x, v)) by {
            assert(f(x, f(y, v)) =~= f(y, f(x, v)));
        }
    }
    assert(vstd::seq_lib::commutative_foldr(g)) by {
        assert forall|x: TrajectoryEvent, y: TrajectoryEvent, v: Multiset<BinancePoint>| #[trigger]
            g(x, g(y, v)) == g(y, g(x, v)) by {
            assert(g(x, g(y, v)) =~= g(y, g(x, v)));
        }
    }
    vstd::seq_lib::lemma_fold_right_permutation(events, others, f, no_quotes);
    vstd::seq_lib::lemma_fold_right_permutation(events, others, g, no_prices);
    lemma_quotes_folded(events, outcome, no_quotes);
    lemma_quotes_folded(others, outcome, no_quotes);
    lemma_binances_folded(events, no_prices);
    lemma_binances_folded(others, no_prices);
    assert(no_quotes.add(quotes_of(events, outcome).to_multiset()) =~= quotes_of(
        events,
        outcome,
    ).to_multiset());
    assert(no_quotes.add(quotes_of(others, outcome).to_multiset()) =~= quotes_of(
        others,
        outcome,
    ).to_multiset());
    assert(no_prices.add(binances_of(events).to_multiset()) =~= binances_of(events).to_multiset());
    assert(no_prices.add(binances_of(others).to_multiset()) =~= binances_of(others).to_multiset());
}

/// Points of different moments have one order of time.
proof fn lemma_one_order<T: Timed>(a: Seq<T>, b: Seq<T>)
    requires
        in_time(a),
        in_time(b),
        a.to_multiset() == b.to_multiset(),
        apart_in_time(a),
    ensures
        a == b,
    decreases a.len(),
{
    a.to_multiset_ensures();
    b.to_multiset_ensures();
    assert(a.len() == b.len());
    if a.len() > 0 {
        let x = a.last();
        let y = b.last();
        let last = a.len() - 1;
        assert(a[last] == x && b[last] == y);
        assert(a.contains(x) && b.contains(y));
        assert(a.to_multiset().count(x) > 0 && b.to_multiset().count(y) > 0);
        assert(b.contains(x) && a.contains(y));
        let i = choose|i: int| 0 <= i < a.len() && a[i] == y;
        let j = choose|j: int| 0 <= j < b.len() && b[j] == x;
        assert(a[i].at() <= a[last].at());
        assert(b[j].at() <= b[last].at());
        if i < last {
            assert(a[i].at() != a[last].at());
        }
        assert(x == y);
        let (c, d) = (a.drop_last(), b.drop_last());
        assert(a =~= c.push(x));
        assert(b =~= d.push(x));
        c.to_multiset_ensures();
        d.to_multiset_ensures();
        assert(c.to_multiset() =~= d.to_multiset()) by {
            assert(c.to_multiset().insert(x) =~= d.to_multiset().insert(x));
            assert forall|v: T| c.to_multiset().count(v) == d.to_multiset().count(v) by {
                assert(c.to_multiset().insert(x).count(v) == d.to_multiset().insert(x).count(v));
            }
        }
        assert forall|i: int, j: int| 0 <= i <= j < c.len() implies (#[trigger] c[i]).at() <= (
        #[trigger] c[j]).at() by {
            assert(a[i].at() <= a[j].at());
        }
        assert forall|i: int, j: int| 0 <= i <= j < d.len() implies (#[trigger] d[i]).at() <= (
        #[trigger] d[j]).at() by {
            assert(b[i].at() <= b[j].at());
        }
        assert forall|i: int, j: int| 0 <= i < j < c.len() implies (#[trigger] c[i]).at() != (
        #[trigger] c[j]).at() by {
            assert(a[i].at() != a[j].at());
        }
        lemma_one_order(c, d);
    } else {
        assert(a =~= b);
    }
}

/// Points of different moments are of different moments in any order.
proof fn lemma_still_apart<T: Timed>(a: Seq<T>, b: Seq<T>)
    requires
        apart_in_time(a),
        a.to_multiset() == b.to_multiset(),
    ensures
        apart_in_time(b),
    decreases a.len(),
{
    a.to_multiset_ensures();
    b.to_multiset_ensures();
    assert forall|i: int, j: int| 0 <= i < j < b.len() implies (#[trigger] b[i]).at() != (
    #[trigger] b[j]).at() by {
        let (x, y) = (b[i], b[j]);
        assert(b.contains(x) && b.contains(y));
        assert(b.to_multiset().count(x) > 0 && b.to_multiset().count(y) > 0);
        assert(a.contains(x) && a.contains(y));
        let k = choose|k: int| 0 <= k < a.len() && a[k] == x;
        let l = choose|l: int| 0 <= l < a.len() && a[l] == y;
        if k < l {
            assert(a[k].at() != a[l].at());
        } else if l < k {
            assert(a[l].at() != a[k].at());
        } else {
            // One point twice in `b` is twice in `a`.
            assert(x == y);
            lemma_twice(b, i, j);
            if a.to_multiset().count(x) >= 2 {
                let m = lemma_two_places(a, x, k);
                if m < k {
                    assert(a[m].at() != a[k].at());
                } else {
                    assert(a[k].at() != a[m].at());
                }
            }
        }
    }
}

/// What stands at two places of a row is counted twice.
proof fn lemma_twice<T>(row: Seq<T>, i: int, j: int)
    requires
        0 <= i < j < row.len(),
        row[i] == row[j],
    ensures
        row.to_multiset().count(row[i]) >= 2,
{
    let x = row[i];
    let rest = row.remove(j);
    row.to_multiset_ensures();
    rest.to_multiset_ensures();
    assert(rest[i] == x);
    assert(rest.contains(x));
    assert(rest.to_multiset().count(x) >= 1);
    assert(row =~= rest.insert(j, x));
    assert(rest.insert(j, x).to_multiset() =~= rest.to_multiset().insert(x));
}

/// What is counted twice stands at another place too.
proof fn lemma_two_places<T>(row: Seq<T>, x: T, k: int) -> (m: int)
    requires
        0 <= k < row.len(),
        row[k] == x,
        row.to_multiset().count(x) >= 2,
    ensures
        0 <= m < row.len(),
        m != k,
        row[m] == x,
{
    let rest = row.remove(k);
    row.to_multiset_ensures();
    rest.to_multiset_ensures();
    assert(row =~= rest.insert(k, x));
    assert(rest.insert(k, x).to_multiset() =~= rest.to_multiset().insert(x));
    assert(rest.to_multiset().count(x) >= 1);
    assert(rest.contains(x));
    let m = choose|m: int| 0 <= m < rest.len() && rest[m] == x;
    if m < k {
        m
    } else {
        m + 1
    }
}

/// The order in which events are listed does not matter to what a trajectory says of an outcome,
/// where no two quotes of the outcome, and no two prices of the underlying, are of the same moment.
pub proof fn law_order_of_events_does_not_matter(
    analysis: OutcomeTrajectoryAnalysis,
    events: Seq<TrajectoryEvent>,
    others: Seq<TrajectoryEvent>,
    outcome: Seq<char>,
    signal_at: i64,
    close_at: i64,
    costs: ExitCostAssumptions,
)
    requires
        events.to_multiset() == others.to_multiset(),
        apart_in_time(quotes_of(events, outcome)),
        apart_in_time(binances_of(events)),
    ensures
        moments_fit_of(events, outcome, signal_at, close_at) <==> moments_fit_of(
            others,
            outcome,
            signal_at,
            close_at,
        ),
        is_analysis(analysis, events, outcome, signal_at, close_at, costs) <==> is_analysis(
            analysis,
            others,
            outcome,
            signal_at,
            close_at,
            costs,
        ),
{
    let (q, p) = (quotes_of(events, outcome), quotes_of(others, outcome));
    let (b, c) = (binances_of(events), binances_of(others));
    lemma_same_points(events, others, outcome);
    law_by_time_sorts(q);
    law_by_time_sorts(p);
    law_by_time_sorts(b);
    law_by_time_sorts(c);
    lemma_still_apart(q, by_time(q));
    lemma_still_apart(b, by_time(b));
    lemma_one_order(by_time(q), by_time(p));
    lemma_one_order(by_time(b), by_time(c));
}

/// The newest of some points up to a moment, in the order they came: of those of the same moment
/// the one that came last.
pub open spec fn newest_of<T: Timed>(points: Seq<T>, moment: int) -> Option<T>
    decreases points.len(),
{
    if points.len() == 0 {
        None
    } else {
        let last = points.last();
        match newest_of(points.drop_last(), moment) {
            Some(newest) => if newest.at() <= last.at() <= moment {
                Some(last)
            } else {
                Some(newest)
            },
            None => if last.at() <= moment {
                Some(last)
            } else {
                None
            },
        }
    }
}

/// One more point put in order of time.
proof fn lemma_latest_placed<T: Timed>(points: Seq<T>, point: T, moment: int)
    requires
        in_time(points),
    ensures
        latest_of(placed(points, point), moment) == match latest_of(points, moment) {
            Some(latest) => if latest.at() <= point.at() <= moment {
                Some(point)
            } else {
                Some(latest)
            },
            None => if point.at() <= moment {
                Some(point)
            } else {
                None
            },
        },
    decreases points.len(),
{
    law_latest_never_looks_ahead(points, moment);
    if points.len() == 0 || points.last().at() <= point.at() {
        assert(points.push(point).drop_last() =~= points);
        if points.len() > 0 && point.at() <= moment {
            assert(points[points.len() - 1] == points.last());
        }
    } else {
        let fewer = points.drop_last();
        assert(in_time(fewer)) by {
            assert forall|i: int, j: int| 0 <= i <= j < fewer.len() implies (
            #[trigger] fewer[i]).at() <= (#[trigger] fewer[j]).at() by {
                assert(points[i].at() <= points[j].at());
            }
        }
        lemma_latest_placed(fewer, point, moment);
        assert(placed(fewer, point).push(points.last()).drop_last() =~= placed(fewer, point));
    }
}

/// The last observation at a moment among points in order of time is the newest one of them up to
/// it, of those of the same moment the one that came last.
pub proof fn law_latest_is_newest<T: Timed>(points: Seq<T>, moment: int)
    ensures
        latest_of(by_time(points), moment) == newest_of(points, moment),
    decreases points.len(),
{
    if points.len() > 0 {
        let fewer = points.drop_last();
        law_latest_is_newest(fewer, moment);
        law_by_time_sorts(fewer);
        lemma_latest_placed(by_time(fewer), points.last(), moment);
    }
}

/// The newest point up to a moment is one of the points, not after the moment; every other one up
/// to the moment is earlier, or of the same moment and came before it; and there is none only where
/// all points are after the moment.
pub proof fn law_newest_is_newest<T: Timed>(points: Seq<T>, moment: int) -> (k: int)
    ensures
        newest_of(points, moment) matches Some(newest) ==> {
            &&& 0 <= k < points.len()
            &&& points[k] == newest
            &&& newest.at() <= moment
            &&& forall|i: int|
                0 <= i < points.len() && i != k && (#[trigger] points[i]).at() <= moment
                    ==> points[i].at() < newest.at() || points[i].at() == newest.at() && i < k
        },
        newest_of(points, moment) is None <==> forall|i: int|
            0 <= i < points.len() ==> (#[trigger] points[i]).at() > moment,
    decreases points.len(),
{
    if points.len() == 0 {
        0
    } else {
        let fewer = points.drop_last();
        let last = points.len() - 1;
        let j = law_newest_is_newest(fewer, moment);
        assert(points[last] == points.last());
        assert forall|i: int| 0 <= i < fewer.len() implies points[i] == #[trigger] fewer[i] by {}
        let k = if newest_of(points, moment) == newest_of(fewer, moment) && newest_of(
            fewer,
            moment,
        ) is Some && !(fewer[j].at() <= points.last().at() <= moment) {
            j
        } else {
            last
        };
        if newest_of(fewer, moment) is Some {
            assert(fewer[j].at() <= moment);
            assert(points[j].at() <= moment);
        }
        if newest_of(points, moment) is None {
            assert forall|i: int| 0 <= i < points.len() implies (#[trigger] points[i]).at()
                > moment by {
                if i < last {
                    assert(fewer[i].at() > moment);
                }
            }
        } else {
            assert(points[k].at() <= moment);
            assert forall|i: int|
                0 <= i < points.len() && i != k && (#[trigger] points[i]).at()
                    <= moment implies points[i].at() < points[k].at() || points[i].at()
                == points[k].at() && i < k by {
                if i < last {
                    assert(fewer[i].at() <= moment);
                    if newest_of(fewer, moment) is Some && i != j {
                        assert(fewer[i].at() < fewer[j].at() || fewer[i].at() == fewer[j].at() && i
                            < j);
                    }
                }
            }
        }
        k
    }
}

/// Whether an event is a quote, of whatever outcome, that was observed after a moment.
pub open spec fn quotes_later(event: TrajectoryEvent, moment: i64) -> bool {
    (event.event_type@ == "quote"@ || event.event_type@ == "signal_snapshot"@) && quote_time_of(
        event,
    ) > moment
}

/// Events without the quotes, of whatever outcome, that were observed after a moment.
pub open spec fn without_later_quotes(events: Seq<TrajectoryEvent>, moment: i64) -> Seq<
    TrajectoryEvent,
>
    decreases events.len(),
{
    if events.len() == 0 {
        Seq::empty()
    } else {
        let before = without_later_quotes(events.drop_last(), moment);
        if quotes_later(events.last(), moment) {
            before
        } else {
            before.push(events.last())
        }
    }
}

proof fn lemma_later_quotes_do_not_matter(
    events: Seq<TrajectoryEvent>,
    outcome: Seq<char>,
    moment: i64,
)
    ensures
        newest_of(quotes_of(without_later_quotes(events, moment), outcome), moment as int)
            == newest_of(quotes_of(events, outcome), moment as int),
    decreases events.len(),
{
    if events.len() > 0 {
        let fewer = events.drop_last();
        let kept = without_later_quotes(fewer, moment);
        lemma_later_quotes_do_not_matter(fewer, outcome, moment);
        let before = quotes_of(fewer, outcome);
        match quote_of(events.last(), outcome) {
            Some(quote) => {
                assert(before.push(quote).drop_last() =~= before);
                assert(quotes_of(kept, outcome).push(quote).drop_last() =~= quotes_of(
                    kept,
                    outcome,
                ));
            },
            None => {},
        }
        assert(kept.push(events.last()).drop_last() =~= kept);
    }
}

/// No lookahead: the quote at the signal is the same for a trajectory without the quotes that were
/// observed after the signal. It is the newest one of the outcome up to the signal, in the order of
/// the events.
pub proof fn law_later_quotes_do_not_matter(
    first: OutcomeTrajectoryAnalysis,
    second: OutcomeTrajectoryAnalysis,
    events: Seq<TrajectoryEvent>,
    outcome: Seq<char>,
    signal_at: i64,
    close_at: i64,
    costs: ExitCostAssumptions,
)
    requires
        is_analysis(first, events, outcome, signal_at, close_at, costs),
        is_analysis(
            second,
            without_later_quotes(events, signal_at),
            outcome,
            signal_at,
            close_at,
            costs,
        ),
    ensures
        first.quote_at_signal == second.quote_at_signal,
        first.quote_at_signal == newest_of(quotes_of(events, outcome), signal_at as int),
{
    law_latest_is_newest(quotes_of(events, outcome), signal_at as int);
    law_latest_is_newest(
        quotes_of(without_later_quotes(events, signal_at), outcome),
        signal_at as int,
    );
    lemma_later_quotes_do_not_matter(events, outcome, signal_at);
}

/// Whether a number is the negative of another; NaN is that of NaN.
pub open spec fn negative_of(a: Option<Binary64>, b: Option<Binary64>) -> bool {
    match (a, b) {
        (Some(a), Some(b)) => a == b.negated() || a.is_nan() && b.is_nan(),
        (None, None) => true,
        _ => false,
    }
}

/// At a checkpoint the underlying has moved towards any outcome other than up by the negative of
/// what it has moved towards up; all else is the same.
pub proof fn law_moves_are_opposite(
    post_fill: Seq<QuotePoint>,
    binance: Seq<BinancePoint>,
    fill_at: i64,
    up: Seq<char>,
    other: Seq<char>,
    close_at: i64,
    elapsed_ms: i64,
    costs: ExitCostAssumptions,
)
    requires
        alike(up, "UP"@),
        !alike(other, "UP"@),
    ensures
        ({
            let a = checkpoint_of(post_fill, binance, fill_at, up, close_at, elapsed_ms, costs);
            let b = checkpoint_of(post_fill, binance, fill_at, other, close_at, elapsed_ms, costs);
            &&& negative_of(b.binance_signed_move_bps, a.binance_signed_move_bps)
            &&& b == ExitCheckpoint { binance_signed_move_bps: b.binance_signed_move_bps, ..a }
        }),
{
    match latest_of(binance, fill_at + elapsed_ms) {
        Some(point) => {
            law_times_minus_one(
                point.close.over(point.open).minus(Binary64::one()).times(Binary64::count(10_000)),
            );
        },
        None => {},
    }
}

/// A bid below a threshold is below a higher one.
proof fn lemma_lower_thresholds(
    quotes: Seq<QuotePoint>,
    close_at: i64,
    low: Binary64,
    high: Binary64,
    n: int,
)
    requires
        low.at_most(high),
    ensures
        duration_of(quotes, close_at, low, true, n) <= duration_of(quotes, close_at, high, true, n),
    decreases n,
{
    if n > 0 {
        lemma_lower_thresholds(quotes, close_at, low, high, n - 1);
    }
}

/// The first quote below a threshold is not before the first one below a higher threshold.
proof fn lemma_lower_later(quotes: Seq<QuotePoint>, low: Binary64, high: Binary64)
    requires
        in_time(quotes),
        low.at_most(high),
    ensures
        first_past(quotes, low, true) matches Some(late) ==> first_past(quotes, high, true) matches
            Some(early) && early.observed_at_unix_ms <= late.observed_at_unix_ms
            && quotes.contains(late),
    decreases quotes.len(),
{
    if quotes.len() > 0 && first_past(quotes, low, true) is Some {
        let rest = quotes.drop_first();
        let late = first_past(quotes, low, true).unwrap();
        assert forall|i: int, j: int| 0 <= i <= j < rest.len() implies (#[trigger] rest[i]).at()
            <= (#[trigger] rest[j]).at() by {
            assert(quotes[i + 1].at() <= quotes[j + 1].at());
        }
        lemma_lower_later(rest, low, high);
        if past(quotes[0].best_bid, low, true) {
            assert(quotes.contains(quotes[0]));
        } else {
            let i = choose|i: int| 0 <= i < rest.len() && rest[i] == late;
            assert(quotes[i + 1] == late);
            assert(quotes[0].at() <= quotes[i + 1].at());
        }
    }
}

/// Thresholds to fall below are nested: below a lower one the bid is for no longer, for the first
/// time no earlier, and what recovers from there recovers from a higher one too. No bid recovers
/// from above a threshold.
pub proof fn law_thresholds_are_nested(
    post_fill: Seq<QuotePoint>,
    fill_at: i64,
    close_at: i64,
    low: Binary64,
    high: Binary64,
    costs: ExitCostAssumptions,
)
    requires
        between(post_fill, fill_at, close_at),
        post_fill.len() > 0,
        close_at - fill_at <= i64::MAX,
        low.at_most(high),
    ensures
        ({
            let p = threshold_path_of(post_fill, fill_at, close_at, low, true, costs);
            let q = threshold_path_of(post_fill, fill_at, close_at, high, true, costs);
            let above = threshold_path_of(post_fill, fill_at, close_at, low, false, costs);
            &&& 0 <= p.duration_ms <= q.duration_ms <= close_at - post_fill[0].observed_at_unix_ms
            &&& p.first_elapsed_from_fill_ms matches Some(late) ==> (
            q.first_elapsed_from_fill_ms matches Some(early) && early <= late)
            &&& p.recovered_to_half ==> q.recovered_to_half
            &&& !above.recovered_to_half
        }),
{
    let len = post_fill.len() as int;
    let first_at = post_fill[0].observed_at_unix_ms;
    assert(between(post_fill, first_at, close_at)) by {
        assert forall|i: int| 0 <= i < post_fill.len() implies first_at <= (
        #[trigger] post_fill[i]).observed_at_unix_ms <= close_at by {
            assert(post_fill[0].at() <= post_fill[i].at());
        }
    }
    assert(fill_at <= post_fill[0].observed_at_unix_ms);
    law_duration_bounded(post_fill, first_at, close_at, low, true, len);
    law_duration_bounded(post_fill, first_at, close_at, high, true, len);
    lemma_lower_thresholds(post_fill, close_at, low, high, len);
    lemma_lower_later(post_fill, low, high);
    if first_past(post_fill, low, true) is Some {
        let late = first_past(post_fill, low, true).unwrap();
        let early = first_past(post_fill, high, true).unwrap();
        let i = choose|i: int| 0 <= i < post_fill.len() && post_fill[i] == late;
        assert(fill_at <= post_fill[i].observed_at_unix_ms <= close_at);
        if recovers(post_fill, late.observed_at_unix_ms) {
            let j = choose|j: int|
                0 <= j < post_fill.len() && (#[trigger] post_fill[j]).observed_at_unix_ms
                    > late.observed_at_unix_ms && (post_fill[j].best_bid matches Some(p)
                    && half().at_most(p));
            assert(post_fill[j].observed_at_unix_ms > early.observed_at_unix_ms);
        }
    }
}

/// A cost that counts: nothing where it is negative.
pub open spec fn charged(bps: Binary64) -> real {
    if exact(bps) < 0real {
        0real
    } else {
        exact(bps)
    }
}

/// How large the amounts get that an exit's costs are reckoned with.
pub open spec fn exit_span(vwap: Binary64, shares: Binary64, costs: ExitCostAssumptions) -> real {
    (size(exact(vwap)) + 1real) * (size(exact(shares)) + 1real) * (1real + charged(
        costs.slippage_bps,
    ) / 10_000real) * (1real + charged(costs.fee_bps) / 10_000real)
}

/// What the slippage leaves of a price.
proof fn lemma_kept(slippage: Binary64)
    requires
        slippage.is_finite(),
        (1real + charged(slippage) / 10_000real) * 100_000real <= exact::big(),
    ensures
        exact::within(
            Binary64::one().minus(slippage.max(Binary64::zero()).over(Binary64::count(10_000))),
            1real - charged(slippage) / 10_000real,
            2real + charged(slippage) / 10_000real,
            4real,
        ),
{
    exact::lemma_scale();
    exact::law_zero_and_one();
    exact::law_counts_are_exact(10_000);
    exact::law_max(slippage, Binary64::zero());
    let cost = slippage.max(Binary64::zero());
    let unit = Binary64::count(10_000);
    let s = charged(slippage);
    let part = 1real + s / 10_000real;
    assert(exact(cost) == s);
    assert(s <= part * 10_000real && part >= 1real) by (nonlinear_arith)
        requires
            part == 1real + s / 10_000real,
            s >= 0real,
    ;
    exact::lemma_within_itself(cost, part * 10_000real);
    exact::lemma_within_over(cost, s, part * 10_000real, 0real, unit, part);
    exact::lemma_within_itself(Binary64::one(), 1real);
    exact::lemma_within_minus(
        Binary64::one(),
        1real,
        1real,
        0real,
        cost.over(unit),
        s / 10_000real,
        part,
        2real,
    );
}

/// Slippage takes so many ten-thousandths of the price, and then the fee so many ten-thousandths of
/// what is left; the rest, less half a unit for every share, is what the exit leaves, up to a few
/// roundings. A cost below zero counts as none.
pub proof fn law_net_exit_pnl(vwap: Binary64, shares: Binary64, costs: ExitCostAssumptions)
    requires
        vwap.is_finite(),
        shares.is_finite(),
        costs.slippage_bps.is_finite(),
        costs.fee_bps.is_finite(),
        exit_span(vwap, shares, costs) * 100_000real <= exact::big(),
    ensures
        net_exit_pnl_of(vwap, shares, costs).is_finite(),
        size(
            exact(net_exit_pnl_of(vwap, shares, costs)) - (exact(vwap) * exact(shares) * (1real
                - charged(costs.slippage_bps) / 10_000real) * (1real - charged(costs.fee_bps)
                / 10_000real) - exact(shares) / 2real),
        ) * 10_000_000_000_000real <= exit_span(vwap, shares, costs),
{
    exact::lemma_scale();
    exact::law_zero_and_one();
    exact::law_half();
    exact::law_counts_are_exact(10_000);
    let (v, h) = (exact(vwap), exact(shares));
    let (s, f) = (charged(costs.slippage_bps), charged(costs.fee_bps));
    let (a, b) = (size(v) + 1real, size(h) + 1real);
    let (k, g) = (1real + s / 10_000real, 1real + f / 10_000real);
    let span = a * b * k * g;
    let ab = a * b;
    let abk = ab * k;
    assert(k >= 1real && g >= 1real) by (nonlinear_arith)
        requires
            k == 1real + s / 10_000real,
            g == 1real + f / 10_000real,
            s >= 0real,
            f >= 0real,
    ;
    assert(ab >= 1real && ab >= a && ab >= b) by (nonlinear_arith)
        requires
            ab == a * b,
            a >= 1real,
            b >= 1real,
    ;
    assert(abk >= ab && abk >= k && abk >= a * k) by (nonlinear_arith)
        requires
            abk == ab * k,
            ab >= 1real,
            ab >= a,
            k >= 1real,
    ;
    assert(span >= abk && span >= b && span >= k) by (nonlinear_arith)
        requires
            span == abk * g,
            g >= 1real,
            abk >= 1real,
            abk >= k,
            abk >= b,
    ;
    lemma_kept(costs.slippage_bps);
    let unit = Binary64::count(10_000);
    let kept = Binary64::one().minus(costs.slippage_bps.max(Binary64::zero()).over(unit));
    let c = 1real - s / 10_000real;
    exact::lemma_within_more(kept, c, 1real + k, 4real, 2real * k, 4real);
    assert(2real * k * a == 2real * (a * k)) by (nonlinear_arith);
    exact::lemma_within_times(kept, c, 2real * k, 4real, vwap, a);
    let sold = vwap.times(kept);
    assert(2real * k * a * b == 2real * abk) by (nonlinear_arith)
        requires
            abk == a * b * k,
    ;
    exact::lemma_within_times(sold, c * v, 2real * k * a, 6real, shares, b);
    let proceeds = sold.times(shares);
    let m = c * v * h;
    let fee_bps = costs.fee_bps.max(Binary64::zero());
    exact::law_max(costs.fee_bps, Binary64::zero());
    assert(exact(fee_bps) == f);
    let wide = g * 10_000real;
    assert(wide >= 1real && size(f) <= wide) by (nonlinear_arith)
        requires
            wide == g * 10_000real,
            g == 1real + f / 10_000real,
            f >= 0real,
            size(f) == f,
    ;
    assert(2real * abk * wide == 20_000real * span) by (nonlinear_arith)
        requires
            wide == g * 10_000real,
            span == abk * g,
    ;
    exact::lemma_within_times(proceeds, m, 2real * abk, 8real, fee_bps, wide);
    let charge = proceeds.times(fee_bps);
    let part = 2real * span;
    exact::lemma_within_over(charge, m * f, 2real * abk * wide, 10real, unit, part);
    let fee = charge.over(unit);
    exact::lemma_within_minus(proceeds, m, 2real * abk, 8real, fee, m * f / 10_000real, part, 12real);
    let rest = proceeds.minus(fee);
    exact::lemma_within_more(
        rest,
        m - m * f / 10_000real,
        2real * abk + part,
        22real,
        4real * span,
        22real,
    );
    exact::lemma_within_itself(half(), 1real);
    exact::lemma_within_times(half(), 1real / 2real, 1real, 0real, shares, b);
    let paid = half().times(shares);
    exact::lemma_within_minus(
        rest,
        m - m * f / 10_000real,
        4real * span,
        22real,
        paid,
        1real / 2real * h,
        b,
        2real,
    );
    let net = rest.minus(paid);
    assert(net == net_exit_pnl_of(vwap, shares, costs));
    let target = v * h * (1real - s / 10_000real) * (1real - f / 10_000real) - h / 2real;
    assert(m - m * f / 10_000real - 1real / 2real * h == target) by (nonlinear_arith)
        requires
            m == c * v * h,
            c == 1real - s / 10_000real,
            target == v * h * (1real - s / 10_000real) * (1real - f / 10_000real) - h / 2real,
    ;
    let error = size(exact(net) - target);
    let e = exact::eps();
    assert(error <= 26real * (4real * span + b) * e);
    assert(error * 10_000_000_000_000real <= span) by (nonlinear_arith)
        requires
            error <= 26real * (4real * span + b) * e,
            b <= span,
            span >= 1real,
            e == 1real / 9_007_199_254_740_992real,
    ;
    assert(exit_span(vwap, shares, costs) == span);
}

/// Five shares sold at a price leave five times what the price is above one half, before costs; and
/// after slippage and fees, five times the price less both, less two and a half. Without a price
/// neither is known.
pub proof fn law_pnl_of_five(vwap: Binary64, costs: ExitCostAssumptions)
    requires
        vwap.is_finite(),
        size(exact(vwap)) <= 1_000_000_000_000_000real,
        costs.slippage_bps.is_finite(),
        costs.fee_bps.is_finite(),
        charged(costs.slippage_bps) <= 1_000_000real,
        charged(costs.fee_bps) <= 1_000_000real,
    ensures
        gross_pnl_5_of(None) is None,
        net_pnl_5_of(None, costs) is None,
        gross_pnl_5_of(Some(vwap)) matches Some(gross) && gross.is_finite() && size(
            exact(gross) - (exact(vwap) - 1real / 2real) * 5real,
        ) * 10_000_000_000_000real <= size(exact(vwap)) + 1real,
        net_pnl_5_of(Some(vwap), costs) matches Some(net) && net.is_finite() && size(
            exact(net) - (exact(vwap) * 5real * (1real - charged(costs.slippage_bps) / 10_000real)
                * (1real - charged(costs.fee_bps) / 10_000real) - 5real / 2real),
        ) * 10_000_000_000_000real <= (size(exact(vwap)) + 1real) * 6real * (1real + charged(
            costs.slippage_bps,
        ) / 10_000real) * (1real + charged(costs.fee_bps) / 10_000real),
{
    exact::lemma_scale();
    exact::lemma_big_is_big();
    exact::law_half();
    exact::law_counts_are_exact(5);
    let five = Binary64::count(5);
    let v = exact(vwap);
    let a = size(v) + 1real;
    exact::lemma_within_itself(vwap, a);
    exact::lemma_within_itself(half(), 1real);
    exact::lemma_within_minus(vwap, v, a, 0real, half(), 1real / 2real, 1real, 0real);
    let above = vwap.minus(half());
    exact::lemma_within_times(above, v - 1real / 2real, a + 1real, 2real, five, 5real);
    let e = exact::eps();
    let error = size(exact(above.times(five)) - (v - 1real / 2real) * 5real);
    assert(error * 10_000_000_000_000real <= a) by (nonlinear_arith)
        requires
            error <= 4real * ((a + 1real) * 5real) * e,
            a >= 1real,
            e == 1real / 9_007_199_254_740_992real,
    ;
    let (k, g) = (
        1real + charged(costs.slippage_bps) / 10_000real,
        1real + charged(costs.fee_bps) / 10_000real,
    );
    let span = exit_span(vwap, five, costs);
    assert(span == a * 6real * k * g);
    assert(span * 100_000real <= 1_000_000_000_000_000_000_000_000_000_000_000_000_000real)
        by (nonlinear_arith)
        requires
            span == a * 6real * k * g,
            1real <= a <= 1_000_000_000_000_001real,
            1real <= k <= 101real,
            1real <= g <= 101real,
    ;
    law_net_exit_pnl(vwap, five, costs);
}

/// Whether an outcome is up, in whatever case it is written.
pub open spec fn says_up(outcome: Seq<char>) -> bool {
    &&& outcome.len() == 2
    &&& outcome[0] == 'U' || outcome[0] == 'u'
    &&& outcome[1] == 'P' || outcome[1] == 'p'
}

proof fn lemma_says_up(outcome: Seq<char>)
    ensures
        alike(outcome, "UP"@) <==> says_up(outcome),
{
    reveal_strlit("UP");
    let up = "UP"@;
    assert(up[0] == 'U' && up[1] == 'P' && up.len() == 2);
    if alike(outcome, up) {
        assert(caseless(outcome[0]) == caseless(up[0]));
        assert(caseless(outcome[1]) == caseless(up[1]));
    }
}

/// The move of the underlying is its gain over the open in ten-thousandths of the open, for an
/// outcome of up, and the opposite for any other, up to a few roundings. There is none without a
/// price, or where the open is not positive.
pub proof fn law_signed_move(point: BinancePoint, outcome: Seq<char>)
    requires
        point.open.is_finite(),
        point.close.is_finite(),
        exact(point.open) > 0real ==> 0real <= exact(point.close) <= exact(point.open)
            * 1_000_000_000_000_000real,
    ensures
        signed_move_of(None, outcome) is None,
        exact(point.open) <= 0real ==> signed_move_of(Some(point), outcome) is None,
        exact(point.open) > 0real ==> {
            let ratio = exact(point.close) / exact(point.open);
            let gain = (ratio - 1real) * 10_000real;
            &&& signed_move_of(Some(point), outcome) matches Some(moved)
            &&& moved.is_finite()
            &&& says_up(outcome) ==> size(exact(moved) - gain) * 10_000_000_000real <= ratio + 1real
            &&& !says_up(outcome) ==> size(exact(moved) + gain) * 10_000_000_000real <= ratio + 1real
        },
{
    exact::lemma_scale();
    exact::lemma_big_is_big();
    exact::law_zero_and_one();
    exact::law_counts_are_exact(1);
    exact::law_counts_are_exact(10_000);
    lemma_says_up(outcome);
    exact::law_order_is_exact(Binary64::zero(), point.open);
    if exact(point.open) > 0real {
        let (o, c) = (exact(point.open), exact(point.close));
        let r = c / o;
        assert(0real <= r <= 1_000_000_000_000_000real) by (nonlinear_arith)
            requires
                r == c / o,
                o > 0real,
                0real <= c <= o * 1_000_000_000_000_000real,
        ;
        exact::law_over(point.close, point.open);
        let x = point.close.over(point.open);
        exact::lemma_within_rounded(x, r, r + 1real);
        exact::lemma_within_itself(Binary64::one(), 1real);
        exact::lemma_within_minus(x, r, r + 1real, 2real, Binary64::one(), 1real, 1real, 0real);
        let y = x.minus(Binary64::one());
        let unit = Binary64::count(10_000);
        exact::lemma_within_times(y, r - 1real, r + 2real, 4real, unit, 10_000real);
        let z = y.times(unit);
        let d = direction_of(outcome);
        let span = (r + 2real) * 10_000real;
        let gain = (r - 1real) * 10_000real;
        exact::lemma_within_times(z, gain, span, 6real, d, 1real);
        let moved = exact(z.times(d));
        assert(span * 1real == span);
        let sign = if says_up(outcome) {
            1real
        } else {
            -1real
        };
        assert(exact(d) == sign);
        assert(gain * sign == (if says_up(outcome) {
            gain
        } else {
            -gain
        })) by (nonlinear_arith)
            requires
                sign == (if says_up(outcome) {
                    1real
                } else {
                    -1real
                }),
        ;
        let error = size(moved - gain * sign);
        let e = exact::eps();
        assert(error * 10_000_000_000real <= r + 1real) by (nonlinear_arith)
            requires
                error <= 8real * span * e,
                span == (r + 2real) * 10_000real,
                r >= 0real,
                e == 1real / 9_007_199_254_740_992real,
        ;
    }
}

/// The spread is how far the ask is above the bid, up to one rounding, and is known only where both
/// are.
pub proof fn law_spread(quote: QuotePoint)
    ensures
        spread_of(quote) is Some <==> quote.best_ask is Some && quote.best_bid is Some,
        quote.best_ask matches Some(ask) ==> quote.best_bid matches Some(bid) ==> ask.is_finite()
            && bid.is_finite() && size(exact(ask) - exact(bid)) <= exact::big()
            ==> exact::rounds_to(spread_of(quote).unwrap(), exact(ask) - exact(bid)),
{
    if quote.best_ask is Some && quote.best_bid is Some {
        let (ask, bid) = (quote.best_ask.unwrap(), quote.best_bid.unwrap());
        if ask.is_finite() && bid.is_finite() && size(exact(ask) - exact(bid)) <= exact::big() {
            exact::law_minus(ask, bid);
        }
    }
}

/// A price is past a threshold where it is strictly below it, or strictly above it; a missing price
/// is past nothing.
pub proof fn law_past(price: Binary64, threshold: Binary64)
    requires
        price.is_finite(),
        threshold.is_finite(),
    ensures
        past(Some(price), threshold, true) <==> exact(price) < exact(threshold),
        past(Some(price), threshold, false) <==> exact(price) > exact(threshold),
        !past(None, threshold, true),
        !past(None, threshold, false),
{
    exact::law_order_is_exact(price, threshold);
    exact::law_order_is_exact(threshold, price);
}

/// The first quote past a threshold is past it, and none before it is; there is none only where no
/// quote is past it.
pub proof fn law_first_past(quotes: Seq<QuotePoint>, threshold: Binary64, below: bool) -> (k: int)
    ensures
        first_past(quotes, threshold, below) matches Some(first) ==> {
            &&& 0 <= k < quotes.len()
            &&& quotes[k] == first
            &&& past(first.best_bid, threshold, below)
            &&& forall|i: int|
                0 <= i < k ==> !past((#[trigger] quotes[i]).best_bid, threshold, below)
        },
        first_past(quotes, threshold, below) is None ==> forall|i: int|
            0 <= i < quotes.len() ==> !past((#[trigger] quotes[i]).best_bid, threshold, below),
    decreases quotes.len(),
{
    if quotes.len() == 0 || past(quotes[0].best_bid, threshold, below) {
        0
    } else {
        let later = quotes.drop_first();
        let k = law_first_past(later, threshold, below);
        assert forall|i: int| 0 < i < quotes.len() implies #[trigger] quotes[i] == later[i - 1] by {}
        k + 1
    }
}

/// How long one moment is after another is their difference, and nothing where that is negative.
pub proof fn law_elapsed(from: i64, to: i64)
    ensures
        from <= to ==> from + elapsed_of(from, to) == to,
        to <= from ==> elapsed_of(from, to) == 0,
{
}

/// Whether a bid after a moment is at one half or above.
pub open spec fn back_at_half(quotes: Seq<QuotePoint>, after: i64) -> bool {
    exists|i: int|
        0 <= i < quotes.len() && (#[trigger] quotes[i]).observed_at_unix_ms > after
            && quotes[i].best_bid is Some && exact(quotes[i].best_bid.unwrap()) * 2real >= 1real
}

/// Whether every bid is finite.
pub open spec fn bids_are_finite(quotes: Seq<QuotePoint>) -> bool {
    forall|i: int|
        0 <= i < quotes.len() && (#[trigger] quotes[i]).best_bid is Some
            ==> quotes[i].best_bid.unwrap().is_finite()
}

/// What is told of a threshold is told of the first quote past it, and there is nothing to tell
/// where none is; the bid recovers where it comes back to one half later, for a threshold to fall
/// below.
pub proof fn law_threshold_path(
    post: Seq<QuotePoint>,
    fill_at: i64,
    close_at: i64,
    threshold: Binary64,
    below: bool,
    costs: ExitCostAssumptions,
)
    requires
        bids_are_finite(post),
        reachable(post, fill_at),
    ensures
        ({
            let path = threshold_path_of(post, fill_at, close_at, threshold, below, costs);
            &&& first_past(post, threshold, below) matches Some(first) ==> {
                &&& path.first_elapsed_from_fill_ms matches Some(elapsed)
                &&& first.observed_at_unix_ms >= fill_at ==> fill_at + elapsed
                    == first.observed_at_unix_ms
                &&& path.first_best_bid == first.best_bid
                &&& path.first_sell_vwap_5 == first.sell_vwap_5
                &&& path.first_gross_pnl_5_usdc == gross_pnl_5_of(first.sell_vwap_5)
                &&& path.first_net_pnl_5_usdc == net_pnl_5_of(first.sell_vwap_5, costs)
                &&& path.recovered_to_half <==> below && back_at_half(
                    post,
                    first.observed_at_unix_ms,
                )
            }
            &&& first_past(post, threshold, below) is None ==> {
                &&& path.first_elapsed_from_fill_ms is None
                &&& path.first_best_bid is None
                &&& path.first_sell_vwap_5 is None
                &&& path.first_gross_pnl_5_usdc is None
                &&& path.first_net_pnl_5_usdc is None
                &&& !path.recovered_to_half
            }
        }),
{
    let k = law_first_past(post, threshold, below);
    exact::law_half();
    if first_past(post, threshold, below) is Some {
        let first = first_past(post, threshold, below).unwrap();
        let after = first.observed_at_unix_ms;
        assert(post[k].observed_at_unix_ms == after);
        assert forall|i: int|
            0 <= i < post.len() && (#[trigger] post[i]).best_bid is Some implies half().at_most(
            post[i].best_bid.unwrap(),
        ) == (exact(post[i].best_bid.unwrap()) * 2real >= 1real) by {
            exact::law_order_is_exact(half(), post[i].best_bid.unwrap());
        }
        if recovers(post, after) {
            let i = choose|i: int|
                0 <= i < post.len() && (#[trigger] post[i]).observed_at_unix_ms > after && (
                post[i].best_bid matches Some(p) && half().at_most(p));
            assert(post[i].best_bid is Some);
            assert(back_at_half(post, after));
        }
        if back_at_half(post, after) {
            let i = choose|i: int|
                0 <= i < post.len() && (#[trigger] post[i]).observed_at_unix_ms > after
                    && post[i].best_bid is Some && exact(post[i].best_bid.unwrap()) * 2real
                    >= 1real;
            assert(post[i].best_bid is Some);
            assert(recovers(post, after));
        }
    }
}

/// Every horizon and every threshold is what its name says: seconds after the fill, and hundredths
/// that the bid falls below or rises above.
pub proof fn law_names_say_what_they_mean(
    risk: RiskPathMetrics,
    quotes: Seq<QuotePoint>,
    binance: Seq<BinancePoint>,
    fill_at: i64,
    outcome: Seq<char>,
    close_at: i64,
    costs: ExitCostAssumptions,
)
    requires
        is_risk_path(risk, quotes, binance, fill_at, outcome, close_at, costs),
    ensures
        ({
            let post = post_fill_of(quotes, fill_at, close_at);
            let after = |seconds: int|
                checkpoint_of(
                    post,
                    binance,
                    fill_at,
                    outcome,
                    close_at,
                    (seconds * 1_000) as i64,
                    costs,
                );
            let below = |hundredths: u64|
                threshold_path_of(
                    post,
                    fill_at,
                    close_at,
                    Binary64::ratio(false, hundredths, 100),
                    true,
                    costs,
                );
            let above = |hundredths: u64|
                threshold_path_of(
                    post,
                    fill_at,
                    close_at,
                    Binary64::ratio(false, hundredths, 100),
                    false,
                    costs,
                );
            &&& risk.checkpoints@ == seq![
                ("t120s", after(120)),
                ("t15s", after(15)),
                ("t180s", after(180)),
                ("t300s", after(300)),
                ("t30s", after(30)),
                ("t60s", after(60)),
            ]
            &&& risk.below_thresholds@ == seq![
                ("below_0_30", below(30)),
                ("below_0_35", below(35)),
                ("below_0_40", below(40)),
                ("below_0_45", below(45)),
            ]
            &&& risk.above_thresholds@ == seq![
                ("above_0_55", above(55)),
                ("above_0_60", above(60)),
                ("above_0_65", above(65)),
                ("above_0_70", above(70)),
            ]
        }),
{
}

/// How many milliseconds of a span of time the last quote's bid is past a threshold.
pub open spec fn moments_past(
    quotes: Seq<QuotePoint>,
    threshold: Binary64,
    below: bool,
    from: int,
    to: int,
) -> int
    decreases to - from,
{
    if from >= to {
        0
    } else {
        moments_past(quotes, threshold, below, from, to - 1) + (match latest_of(quotes, to - 1) {
            Some(quote) => if past(quote.best_bid, threshold, below) {
                1int
            } else {
                0
            },
            None => 0,
        })
    }
}

/// While a quote is the last one, it decides.
proof fn lemma_latest_between(quotes: Seq<QuotePoint>, i: int, moment: int)
    requires
        in_time(quotes),
        0 <= i < quotes.len(),
        quotes[i].observed_at_unix_ms <= moment,
        i + 1 < quotes.len() ==> moment < quotes[i + 1].observed_at_unix_ms,
    ensures
        latest_of(quotes, moment) == Some(quotes[i]),
    decreases quotes.len(),
{
    let last = quotes.len() - 1;
    assert(quotes.last() == quotes[last]);
    assert(quotes[i].at() == quotes[i].observed_at_unix_ms);
    if i < last {
        assert(quotes[i + 1].at() <= quotes[last].at());
        let fewer = quotes.drop_last();
        assert forall|a: int, b: int| 0 <= a <= b < fewer.len() implies (#[trigger] fewer[a]).at()
            <= (#[trigger] fewer[b]).at() by {
            assert(quotes[a].at() <= quotes[b].at());
        }
        assert(fewer[i] == quotes[i]);
        lemma_latest_between(fewer, i, moment);
    }
}

/// What the milliseconds come to in which one quote is the last.
proof fn lemma_moments_of_one(
    quotes: Seq<QuotePoint>,
    threshold: Binary64,
    below: bool,
    start: int,
    i: int,
    to: int,
)
    requires
        in_time(quotes),
        0 <= i < quotes.len(),
        start <= quotes[i].observed_at_unix_ms <= to,
        i + 1 < quotes.len() ==> to <= quotes[i + 1].observed_at_unix_ms,
    ensures
        moments_past(quotes, threshold, below, start, to) == moments_past(
            quotes,
            threshold,
            below,
            start,
            quotes[i].observed_at_unix_ms as int,
        ) + (if past(quotes[i].best_bid, threshold, below) {
            to - quotes[i].observed_at_unix_ms
        } else {
            0
        }),
    decreases to - quotes[i].observed_at_unix_ms,
{
    if quotes[i].observed_at_unix_ms < to {
        lemma_latest_between(quotes, i, to - 1);
        lemma_moments_of_one(quotes, threshold, below, start, i, to - 1);
    }
}

/// The time past a threshold during the first quotes is the milliseconds that they are the last.
proof fn lemma_duration_is_moments(
    quotes: Seq<QuotePoint>,
    close_at: i64,
    threshold: Binary64,
    below: bool,
    n: int,
)
    requires
        in_time(quotes),
        0 < n <= quotes.len(),
        forall|i: int|
            0 <= i < quotes.len() ==> (#[trigger] quotes[i]).observed_at_unix_ms <= close_at,
    ensures
        duration_of(quotes, close_at, threshold, below, n) == moments_past(
            quotes,
            threshold,
            below,
            quotes[0].observed_at_unix_ms as int,
            superseded_at(quotes, n - 1, close_at) as int,
        ),
    decreases n,
{
    let i = n - 1;
    let start = quotes[0].observed_at_unix_ms as int;
    let to = superseded_at(quotes, i, close_at) as int;
    assert(quotes[0].at() <= quotes[i].at());
    assert(quotes[i].observed_at_unix_ms <= close_at);
    if i + 1 < quotes.len() {
        assert(quotes[i].at() <= quotes[i + 1].at());
        assert(quotes[i + 1].observed_at_unix_ms <= close_at);
    }
    if n == 1 {
        reveal_with_fuel(duration_of, 2);
    } else {
        lemma_duration_is_moments(quotes, close_at, threshold, below, n - 1);
        assert(superseded_at(quotes, i - 1, close_at) == quotes[i].observed_at_unix_ms);
    }
    lemma_moments_of_one(quotes, threshold, below, start, i, to);
}

/// The time that the bid was past a threshold is the number of milliseconds, from the first quote to
/// the resolution, at which the last observed bid is past it; none where nothing was quoted.
pub proof fn law_duration_counts_moments(
    post: Seq<QuotePoint>,
    fill_at: i64,
    close_at: i64,
    threshold: Binary64,
    below: bool,
    costs: ExitCostAssumptions,
)
    requires
        in_time(post),
        durations_fit(post, close_at),
        forall|i: int| 0 <= i < post.len() ==> (#[trigger] post[i]).observed_at_unix_ms <= close_at,
    ensures
        threshold_path_of(post, fill_at, close_at, threshold, below, costs).duration_ms == (
        if post.len() == 0 {
            0
        } else {
            moments_past(
                post,
                threshold,
                below,
                post[0].observed_at_unix_ms as int,
                close_at as int,
            )
        }),
{
    let n = post.len() as int;
    lemma_duration_not_negative(post, close_at, threshold, below, n);
    assert(duration_of(post, close_at, threshold, below, n) <= i64::MAX);
    if n > 0 {
        lemma_duration_is_moments(post, close_at, threshold, below, n);
    }
}

proof fn lemma_duration_not_negative(
    quotes: Seq<QuotePoint>,
    close_at: i64,
    threshold: Binary64,
    below: bool,
    n: int,
)
    ensures
        duration_of(quotes, close_at, threshold, below, n) >= 0,
    decreases n,
{
    if n > 0 {
        lemma_duration_not_negative(quotes, close_at, threshold, below, n - 1);
    }
}

/// Whether every bid is finite and no larger than a quadrillion.
pub open spec fn bids_are_prices(quotes: Seq<QuotePoint>) -> bool {
    forall|i: int|
        0 <= i < quotes.len() && (#[trigger] quotes[i]).best_bid is Some ==> {
            let bid = quotes[i].best_bid.unwrap();
            bid.is_finite() && size(exact(bid)) <= 1_000_000_000_000_000real
        }
}

/// The peak is one of the bids, and none is above it.
proof fn lemma_peak(quotes: Seq<QuotePoint>) -> (k: int)
    requires
        bids_are_prices(quotes),
    ensures
        peak_of(quotes) matches Some(peak) ==> {
            &&& 0 <= k < quotes.len()
            &&& quotes[k].best_bid == Some(peak.1)
            &&& quotes[k].observed_at_unix_ms == peak.0
            &&& forall|i: int|
                0 <= i < quotes.len() && (#[trigger] quotes[i]).best_bid is Some ==> exact(
                    quotes[i].best_bid.unwrap(),
                ) <= exact(peak.1)
        },
        peak_of(quotes) is None ==> forall|i: int|
            0 <= i < quotes.len() ==> (#[trigger] quotes[i]).best_bid is None,
    decreases quotes.len(),
{
    if quotes.len() == 0 {
        0
    } else {
        let fewer = quotes.drop_last();
        let last = quotes.len() - 1;
        assert(quotes[last] == quotes.last());
        assert forall|i: int| 0 <= i < last implies fewer[i] == #[trigger] quotes[i] by {}
        assert forall|i: int|
            0 <= i < fewer.len() && (#[trigger] fewer[i]).best_bid is Some implies ({
            let bid = fewer[i].best_bid.unwrap();
            bid.is_finite() && size(exact(bid)) <= 1_000_000_000_000_000real
        }) by {
            assert(quotes[i].best_bid is Some);
        }
        let j = lemma_peak(fewer);
        if quotes.last().best_bid is Some && peak_of(fewer) is Some {
            assert(quotes[j].best_bid is Some);
            exact::law_order_is_exact(peak_of(fewer).unwrap().1, quotes.last().best_bid.unwrap());
        }
        if quotes.last().best_bid is Some && (peak_of(fewer) is None
            || peak_of(fewer).unwrap().1.less(quotes.last().best_bid.unwrap())) {
            last
        } else {
            j
        }
    }
}

/// What a fall from a peak comes to.
proof fn lemma_fall(peak: Binary64, bid: Binary64)
    requires
        peak.is_finite(),
        bid.is_finite(),
        size(exact(peak)) <= 1_000_000_000_000_000real,
        size(exact(bid)) <= 1_000_000_000_000_000real,
        exact(bid) <= exact(peak),
    ensures
        ({
            let fall = peak.minus(bid).max(Binary64::zero());
            let depth = exact(peak) - exact(bid);
            &&& fall.is_finite()
            &&& exact(fall) >= 0real
            &&& size(exact(fall) - depth) * 1_000_000_000_000_000real <= depth + 1real
                / 1_000_000_000_000_000real
        }),
{
    exact::lemma_scale();
    exact::lemma_big_is_big();
    exact::lemma_speck_is_tiny();
    exact::law_zero_and_one();
    exact::law_minus(peak, bid);
    exact::law_max(peak.minus(bid), Binary64::zero());
    let depth = exact(peak) - exact(bid);
    let e = exact::eps();
    assert(depth * e <= depth / 2_000_000_000_000_000real) by (nonlinear_arith)
        requires
            depth >= 0real,
            e == 1real / 9_007_199_254_740_992real,
    ;
}

/// A fall is as deep as it says, up to a rounding.
proof fn lemma_depth(depth: real, fall: real)
    requires
        depth >= 0real,
        size(fall - depth) * 1_000_000_000_000_000real <= depth + 1real / 1_000_000_000_000_000real,
    ensures
        depth <= fall * (1real + 1real / 100_000_000_000_000real) + 1real
            / 100_000_000_000_000_000_000_000_000_000real,
{
    assert(depth <= fall * (1real + 1real / 100_000_000_000_000real) + 1real
        / 100_000_000_000_000_000_000_000_000_000real) by (nonlinear_arith)
        requires
            depth >= 0real,
            (depth - fall) * 1_000_000_000_000_000real <= depth + 1real / 1_000_000_000_000_000real,
    ;
}

/// What is not deeper than one fall is not deeper than a larger one.
proof fn lemma_deeper(depth: real, fall: real, larger: real)
    requires
        depth <= fall * (1real + 1real / 100_000_000_000_000real) + 1real
            / 100_000_000_000_000_000_000_000_000_000real,
        fall <= larger,
    ensures
        depth <= larger * (1real + 1real / 100_000_000_000_000real) + 1real
            / 100_000_000_000_000_000_000_000_000_000real,
{
    assert(fall * (1real + 1real / 100_000_000_000_000real) <= larger * (1real + 1real
        / 100_000_000_000_000real)) by (nonlinear_arith)
        requires
            fall <= larger,
    ;
}

/// The largest fall is from the bid of one quote to the bid of a quote that is not before it, at
/// their moments, and as deep as it says; and from no bid to a later one has the bid fallen deeper,
/// up to a rounding.
pub proof fn law_deepest_fall(quotes: Seq<QuotePoint>, fill_at: i64) -> (places: (int, int))
    requires
        bids_are_prices(quotes),
        reachable(quotes, fill_at),
    ensures
        maximum_drawdown_of(quotes, fill_at) matches Some(fall) ==> {
            let (a, b) = places;
            let depth = exact(fall.peak_best_bid) - exact(fall.trough_best_bid);
            &&& 0 <= a <= b < quotes.len()
            &&& quotes[a].best_bid == Some(fall.peak_best_bid)
            &&& quotes[b].best_bid == Some(fall.trough_best_bid)
            &&& fall.peak_observed_at_unix_ms == quotes[a].observed_at_unix_ms
            &&& fall.trough_observed_at_unix_ms == quotes[b].observed_at_unix_ms
            &&& fall.peak_elapsed_from_fill_ms == elapsed_of(
                fill_at,
                quotes[a].observed_at_unix_ms,
            )
            &&& fall.trough_elapsed_from_fill_ms == elapsed_of(
                fill_at,
                quotes[b].observed_at_unix_ms,
            )
            &&& fall.drawdown.is_finite()
            &&& size(exact(fall.drawdown) - depth) * 1_000_000_000_000_000real <= depth + 1real
                / 1_000_000_000_000_000real
            &&& forall|i: int, j: int|
                0 <= i <= j < quotes.len() && (#[trigger] quotes[i]).best_bid is Some && (
                #[trigger] quotes[j]).best_bid is Some ==> exact(quotes[i].best_bid.unwrap())
                    - exact(quotes[j].best_bid.unwrap()) <= exact(fall.drawdown) * (1real + 1real
                    / 100_000_000_000_000real) + 1real / 100_000_000_000_000_000_000_000_000_000real
        },
        maximum_drawdown_of(quotes, fill_at) is None ==> forall|i: int|
            0 <= i < quotes.len() ==> (#[trigger] quotes[i]).best_bid is None,
    decreases quotes.len(),
{
    if quotes.len() == 0 {
        (0, 0)
    } else {
        let fewer = quotes.drop_last();
        let last = quotes.len() - 1;
        assert(quotes[last] == quotes.last());
        assert forall|i: int| 0 <= i < last implies fewer[i] == #[trigger] quotes[i] by {}
        assert forall|i: int|
            0 <= i < fewer.len() && (#[trigger] fewer[i]).best_bid is Some implies ({
            let bid = fewer[i].best_bid.unwrap();
            bid.is_finite() && size(exact(bid)) <= 1_000_000_000_000_000real
        }) by {
            assert(quotes[i].best_bid is Some);
        }
        assert forall|i: int| 0 <= i < fewer.len() implies (
        #[trigger] fewer[i]).observed_at_unix_ms - fill_at <= i64::MAX by {
            assert(quotes[i].observed_at_unix_ms - fill_at <= i64::MAX);
        }
        let (a, b) = law_deepest_fall(fewer, fill_at);
        let k = lemma_peak(quotes);
        assert(quotes[last].observed_at_unix_ms - fill_at <= i64::MAX);
        if quotes[last].best_bid is Some {
            let bid = quotes[last].best_bid.unwrap();
            let peak = peak_of(quotes).unwrap().1;
            assert(quotes[k].best_bid == Some(peak));
            assert(quotes[k].observed_at_unix_ms - fill_at <= i64::MAX);
            lemma_fall(peak, bid);
            let fall = fall_of(quotes, fill_at).unwrap();
            let deepest = maximum_drawdown_of(quotes, fill_at).unwrap();
            if maximum_drawdown_of(fewer, fill_at) is Some {
                exact::law_order_is_exact(
                    maximum_drawdown_of(fewer, fill_at).unwrap().drawdown,
                    fall.drawdown,
                );
                assert(quotes[a] == fewer[a] && quotes[b] == fewer[b]);
            }
            let d = exact(deepest.drawdown);
            assert(d >= exact(fall.drawdown));
            assert forall|i: int, j: int|
                0 <= i <= j < quotes.len() && (#[trigger] quotes[i]).best_bid is Some && (
                #[trigger] quotes[j]).best_bid is Some implies exact(quotes[i].best_bid.unwrap())
                - exact(quotes[j].best_bid.unwrap()) <= d * (1real + 1real
                / 100_000_000_000_000real) + 1real / 100_000_000_000_000_000_000_000_000_000real by {
                if j < last {
                    assert(fewer[i].best_bid is Some && fewer[j].best_bid is Some);
                    let before = exact(maximum_drawdown_of(fewer, fill_at).unwrap().drawdown);
                    assert(d >= before);
                    lemma_deeper(
                        exact(quotes[i].best_bid.unwrap()) - exact(quotes[j].best_bid.unwrap()),
                        before,
                        d,
                    );
                } else {
                    assert(exact(quotes[i].best_bid.unwrap()) <= exact(peak));
                    lemma_depth(exact(peak) - exact(bid), exact(fall.drawdown));
                    lemma_deeper(exact(peak) - exact(bid), exact(fall.drawdown), d);
                }
            }
            if maximum_drawdown_of(fewer, fill_at) is None || maximum_drawdown_of(
                fewer,
                fill_at,
            ).unwrap().drawdown.less(fall.drawdown) {
                (k, last)
            } else {
                (a, b)
            }
        } else {
            if maximum_drawdown_of(fewer, fill_at) is Some {
                assert(quotes[a] == fewer[a] && quotes[b] == fewer[b]);
                let d = exact(maximum_drawdown_of(fewer, fill_at).unwrap().drawdown);
                assert forall|i: int, j: int|
                    0 <= i <= j < quotes.len() && (#[trigger] quotes[i]).best_bid is Some && (
                    #[trigger] quotes[j]).best_bid is Some implies exact(
                    quotes[i].best_bid.unwrap(),
                ) - exact(quotes[j].best_bid.unwrap()) <= d * (1real + 1real
                    / 100_000_000_000_000real) + 1real
                    / 100_000_000_000_000_000_000_000_000_000real by {
                    assert(fewer[i].best_bid is Some && fewer[j].best_bid is Some);
                }
            } else {
                assert forall|i: int| 0 <= i < quotes.len() implies (
                #[trigger] quotes[i]).best_bid is None by {
                    if i < last {
                        assert(fewer[i].best_bid is None);
                    }
                }
            }
            (a, b)
        }
    }
}

/// The most adverse bid is the lowest, where it was observed first: none is below it, and each
/// earlier one is after it in the total order. The time since the fill is that of its quote.
pub proof fn law_most_adverse_bid(quotes: Seq<QuotePoint>, fill_at: i64) -> (k: int)
    requires
        bids_are_finite(quotes),
        reachable(quotes, fill_at),
    ensures
        as_timed(lowest_bid_of(quotes), fill_at) matches Some(low) ==> {
            &&& 0 <= k < quotes.len()
            &&& quotes[k].best_bid == Some(low.value)
            &&& low.observed_at_unix_ms == quotes[k].observed_at_unix_ms
            &&& quotes[k].observed_at_unix_ms >= fill_at ==> fill_at + low.elapsed_from_fill_ms
                == quotes[k].observed_at_unix_ms
            &&& forall|i: int|
                0 <= i < quotes.len() && (#[trigger] quotes[i]).best_bid is Some ==> exact(low.value)
                    <= exact(quotes[i].best_bid.unwrap()) && (i < k ==> low.value.totally_before(
                    quotes[i].best_bid.unwrap(),
                ))
        },
        as_timed(lowest_bid_of(quotes), fill_at) is None ==> forall|i: int|
            0 <= i < quotes.len() ==> (#[trigger] quotes[i]).best_bid is None,
    decreases quotes.len(),
{
    if quotes.len() == 0 {
        0
    } else {
        let fewer = quotes.drop_last();
        let last = quotes.len() - 1;
        assert(quotes[last] == quotes.last());
        assert(quotes[last].observed_at_unix_ms - fill_at <= i64::MAX);
        assert forall|i: int| 0 <= i < last implies fewer[i] == #[trigger] quotes[i] by {}
        assert(bids_are_finite(fewer)) by {
            assert forall|i: int|
                0 <= i < fewer.len() && (#[trigger] fewer[i]).best_bid is Some implies
                fewer[i].best_bid.unwrap().is_finite() by {
                assert(quotes[i].best_bid is Some);
            }
        }
        assert(reachable(fewer, fill_at)) by {
            assert forall|i: int| 0 <= i < fewer.len() implies (
            #[trigger] fewer[i]).observed_at_unix_ms - fill_at <= i64::MAX by {
                assert(quotes[i].observed_at_unix_ms - fill_at <= i64::MAX);
            }
        }
        let j = law_most_adverse_bid(fewer, fill_at);
        if quotes.last().best_bid is None {
            j
        } else if lowest_bid_of(fewer) is None {
            last
        } else {
            let (low, bid) = (lowest_bid_of(fewer).unwrap().1, quotes.last().best_bid.unwrap());
            assert(quotes[j].best_bid == Some(low));
            exact::law_total_order_is_exact(low, bid);
            exact::law_total_order_is_exact(bid, low);
            if bid.totally_before(low) {
                assert forall|i: int|
                    0 <= i < quotes.len() && (#[trigger] quotes[i]).best_bid is Some implies exact(
                    bid,
                ) <= exact(quotes[i].best_bid.unwrap()) && (i < last ==> bid.totally_before(
                    quotes[i].best_bid.unwrap(),
                )) by {
                    if i < last {
                        assert(fewer[i].best_bid is Some);
                        exact::law_total_order_is_exact(low, quotes[i].best_bid.unwrap());
                        exact::law_total_order_is_exact(quotes[i].best_bid.unwrap(), low);
                        lemma_low_not_after(fewer, i);
                    }
                }
                last
            } else {
                j
            }
        }
    }
}

/// No bid is before the lowest in the total order.
proof fn lemma_low_not_after(quotes: Seq<QuotePoint>, i: int)
    requires
        0 <= i < quotes.len(),
        quotes[i].best_bid is Some,
    ensures
        !quotes[i].best_bid.unwrap().totally_before(lowest_bid_of(quotes).unwrap().1),
{
    law_extreme_bids(quotes, i);
}

/// The most favorable bid is the highest: none is above it. The time since the fill is that of its
/// quote.
pub proof fn law_most_favorable_bid(quotes: Seq<QuotePoint>, fill_at: i64) -> (k: int)
    requires
        bids_are_finite(quotes),
        reachable(quotes, fill_at),
    ensures
        as_timed(highest_bid_of(quotes), fill_at) matches Some(high) ==> {
            &&& 0 <= k < quotes.len()
            &&& quotes[k].best_bid == Some(high.value)
            &&& high.observed_at_unix_ms == quotes[k].observed_at_unix_ms
            &&& quotes[k].observed_at_unix_ms >= fill_at ==> fill_at + high.elapsed_from_fill_ms
                == quotes[k].observed_at_unix_ms
            &&& forall|i: int|
                0 <= i < quotes.len() && (#[trigger] quotes[i]).best_bid is Some ==> exact(
                    quotes[i].best_bid.unwrap(),
                ) <= exact(high.value) && (i > k ==> quotes[i].best_bid.unwrap().totally_before(
                    high.value,
                ))
        },
        as_timed(highest_bid_of(quotes), fill_at) is None ==> forall|i: int|
            0 <= i < quotes.len() ==> (#[trigger] quotes[i]).best_bid is None,
    decreases quotes.len(),
{
    if quotes.len() == 0 {
        0
    } else {
        let fewer = quotes.drop_last();
        let last = quotes.len() - 1;
        assert(quotes[last] == quotes.last());
        assert(quotes[last].observed_at_unix_ms - fill_at <= i64::MAX);
        assert forall|i: int| 0 <= i < last implies fewer[i] == #[trigger] quotes[i] by {}
        assert(bids_are_finite(fewer)) by {
            assert forall|i: int|
                0 <= i < fewer.len() && (#[trigger] fewer[i]).best_bid is Some implies
                fewer[i].best_bid.unwrap().is_finite() by {
                assert(quotes[i].best_bid is Some);
            }
        }
        assert(reachable(fewer, fill_at)) by {
            assert forall|i: int| 0 <= i < fewer.len() implies (
            #[trigger] fewer[i]).observed_at_unix_ms - fill_at <= i64::MAX by {
                assert(quotes[i].observed_at_unix_ms - fill_at <= i64::MAX);
            }
        }
        let j = law_most_favorable_bid(fewer, fill_at);
        if quotes.last().best_bid is None {
            j
        } else if highest_bid_of(fewer) is None {
            last
        } else {
            let (high, bid) = (highest_bid_of(fewer).unwrap().1, quotes.last().best_bid.unwrap());
            assert(quotes[j].best_bid == Some(high));
            exact::law_total_order_is_exact(high, bid);
            exact::law_total_order_is_exact(bid, high);
            if bid.totally_before(high) {
                j
            } else {
                last
            }
        }
    }
}

/// A quote fills where it is not before the signal and its ask is below one half.
pub proof fn law_fills(quote: QuotePoint, signal_at: i64)
    requires
        quote.best_ask matches Some(ask) ==> ask.is_finite(),
    ensures
        fills(quote, signal_at) <==> quote.observed_at_unix_ms >= signal_at
            && quote.best_ask is Some && exact(quote.best_ask.unwrap()) * 2real < 1real,
{
    exact::law_half();
    if quote.best_ask is Some {
        exact::law_order_is_exact(quote.best_ask.unwrap(), half());
    }
}

/// A strict fill says how long after the signal it came.
pub proof fn law_fill_time(quotes: Seq<QuotePoint>, signal_at: i64)
    ensures
        strict_fill_of(quotes, signal_at) matches Some(fill) ==> fill.observed_at_unix_ms - signal_at
            <= i64::MAX ==> signal_at + fill.elapsed_from_signal_ms == fill.observed_at_unix_ms,
{
    let _ = law_strict_fill_is_first(quotes, signal_at);
}

/// Every quote from the fill to the resolution is kept.
pub proof fn law_post_fill_keeps(quotes: Seq<QuotePoint>, fill_at: i64, close_at: i64, k: int)
    requires
        0 <= k < quotes.len(),
        fill_at <= quotes[k].observed_at_unix_ms <= close_at,
    ensures
        post_fill_of(quotes, fill_at, close_at).contains(quotes[k]),
    decreases quotes.len(),
{
    let post = post_fill_of(quotes, fill_at, close_at);
    if k == quotes.len() - 1 {
        assert(post[post.len() - 1] == quotes[k]);
    } else {
        let fewer = quotes.drop_last();
        let before = post_fill_of(fewer, fill_at, close_at);
        assert(fewer[k] == quotes[k]);
        law_post_fill_keeps(fewer, fill_at, close_at, k);
        let i = choose|i: int| 0 <= i < before.len() && before[i] == quotes[k];
        assert(post[i] == quotes[k]);
    }
}

/// Of several values under one name the last one counts; there is none only where the name does not
/// occur.
pub proof fn law_last_value_counts(payload: Seq<(String, Value)>, key: Seq<char>)
    ensures
        place_of(payload, key) matches Some(i) ==> 0 <= i < payload.len() && payload[i].0@ == key
            && forall|j: int| i < j < payload.len() ==> (#[trigger] payload[j]).0@ != key,
        place_of(payload, key) is None ==> forall|j: int|
            0 <= j < payload.len() ==> (#[trigger] payload[j]).0@ != key,
    decreases payload.len(),
{
    if payload.len() > 0 && payload.last().0@ != key {
        let fewer = payload.drop_last();
        law_last_value_counts(fewer, key);
        assert forall|j: int| 0 <= j < fewer.len() implies #[trigger] payload[j] == fewer[j] by {}
    }
}

/// Whether a payload gives a value under a name, the last one under it.
pub open spec fn gives(payload: Seq<(String, Value)>, key: Seq<char>, value: Value) -> bool {
    exists|i: int|
        0 <= i < payload.len() && (#[trigger] payload[i]).0@ == key && payload[i].1 == value
            && forall|j: int| i < j < payload.len() ==> (#[trigger] payload[j]).0@ != key
}

proof fn lemma_gives(payload: Seq<(String, Value)>, key: Seq<char>, value: Value)
    requires
        gives(payload, key, value),
    ensures
        place_of(payload, key) matches Some(i) && 0 <= i < payload.len() && payload[i].1 == value,
{
    law_last_value_counts(payload, key);
    let k = choose|i: int|
        0 <= i < payload.len() && (#[trigger] payload[i]).0@ == key && payload[i].1 == value
            && forall|j: int| i < j < payload.len() ==> (#[trigger] payload[j]).0@ != key;
    assert(payload[k].0@ == key);
    match place_of(payload, key) {
        Some(i) => {
            assert(payload[i].0@ == key);
        },
        None => {},
    }
}

/// A number under a name is read as it is; a text as the number that it spells, if it spells one;
/// and nothing else is a number.
pub proof fn law_numbers_are_read(payload: Seq<(String, Value)>, key: Seq<char>, value: Value)
    requires
        gives(payload, key, value),
    ensures
        value matches Value::Number { number, .. } ==> number_of(payload, key) == Some(number),
        value matches Value::Text { spells, .. } ==> number_of(payload, key) == spells,
        value is Other ==> number_of(payload, key) is None,
{
    lemma_gives(payload, key, value);
}

/// An event quotes an outcome where it is a quote or the snapshot of a signal, and its payload names
/// the outcome, in whatever case; every number of the quote stands under its own name, and its
/// moment is the one that the payload gives in a whole number, or else the one it came at.
pub proof fn law_quotes_are_read(event: TrajectoryEvent, outcome: Seq<char>)
    ensures
        quote_of(event, outcome) is Some ==> event.event_type@ == "quote"@ || event.event_type@
            == "signal_snapshot"@,
        quote_of(event, outcome) matches Some(quote) ==> {
            let payload = event.payload@;
            &&& quote.best_bid == number_of(payload, "best_bid"@)
            &&& quote.best_bid_size == number_of(payload, "best_bid_size"@)
            &&& quote.bid_shares_available == number_of(payload, "bid_shares_available"@)
            &&& quote.sell_vwap_5 == number_of(payload, "sell_vwap_5"@)
            &&& quote.sell_vwap_candidate == number_of(payload, "sell_vwap_candidate"@)
            &&& quote.candidate_shares == number_of(payload, "candidate_shares"@)
            &&& quote.best_ask == number_of(payload, "best_ask"@)
            &&& quote.best_ask_size == number_of(payload, "best_ask_size"@)
            &&& quote.ask_shares_at_or_below_limit == number_of(
                payload,
                "ask_shares_at_or_below_limit"@,
            )
            &&& quote.last_trade_price == number_of(payload, "last_trade_price"@)
        },
        forall|text: String, spells: Option<Binary64>|
            (event.event_type@ == "quote"@ || event.event_type@ == "signal_snapshot"@)
                && #[trigger] gives(
                event.payload@,
                "outcome"@,
                Value::Text { text, spells },
            ) ==> (quote_of(event, outcome) is Some <==> alike(text@, outcome)),
        forall|number: Binary64, ms: i64|
            #[trigger] gives(
                event.payload@,
                "observed_at_unix_ms"@,
                Value::Number { number, whole: Some(ms) },
            ) && quote_of(event, outcome) is Some ==> quote_of(
                event,
                outcome,
            ).unwrap().observed_at_unix_ms == ms,
        quote_of(event, outcome) is Some && (forall|i: int|
            0 <= i < event.payload@.len() ==> (#[trigger] event.payload@[i]).0@
                != "observed_at_unix_ms"@) ==> quote_of(event, outcome).unwrap().observed_at_unix_ms
            == event.received_at_unix_ms,
{
    let payload = event.payload@;
    assert forall|text: String, spells: Option<Binary64>|
        (event.event_type@ == "quote"@ || event.event_type@ == "signal_snapshot"@)
            && #[trigger] gives(payload, "outcome"@, Value::Text { text, spells }) implies (
    quote_of(event, outcome) is Some <==> alike(text@, outcome)) by {
        lemma_gives(payload, "outcome"@, Value::Text { text, spells });
    }
    assert forall|number: Binary64, ms: i64|
        #[trigger] gives(
            payload,
            "observed_at_unix_ms"@,
            Value::Number { number, whole: Some(ms) },
        ) && quote_of(event, outcome) is Some implies quote_of(
        event,
        outcome,
    ).unwrap().observed_at_unix_ms == ms by {
        lemma_gives(
            payload,
            "observed_at_unix_ms"@,
            Value::Number { number, whole: Some(ms) },
        );
    }
    law_last_value_counts(payload, "observed_at_unix_ms"@);
}

/// An event prices the underlying exactly where it is a quote of it with an open and a close, at the
/// moment it came.
pub proof fn law_underlying_is_read(event: TrajectoryEvent)
    ensures
        binance_of(event) is Some <==> event.event_type@ == "binance_quote"@ && number_of(
            event.payload@,
            "open"@,
        ) is Some && number_of(event.payload@, "close"@) is Some,
        binance_of(event) matches Some(point) ==> Some(point.open) == number_of(
            event.payload@,
            "open"@,
        ) && Some(point.close) == number_of(event.payload@, "close"@) && point.observed_at_unix_ms
            == event.received_at_unix_ms,
{
}

/// A checkpoint up to the resolution shows the book as it was last observed by then, and the time
/// that remains; one past the resolution shows nothing.
pub proof fn law_checkpoint_shows_the_last_quote(
    post: Seq<QuotePoint>,
    binance: Seq<BinancePoint>,
    fill_at: i64,
    outcome: Seq<char>,
    close_at: i64,
    elapsed_ms: i64,
    costs: ExitCostAssumptions,
    k: int,
)
    requires
        in_time(post),
        fill_at + elapsed_ms <= close_at,
        close_at - (fill_at + elapsed_ms) <= i64::MAX,
        0 <= k < post.len(),
        post[k].observed_at_unix_ms <= fill_at + elapsed_ms,
        k + 1 < post.len() ==> fill_at + elapsed_ms < post[k + 1].observed_at_unix_ms,
    ensures
        ({
            let shown = checkpoint_of(
                post,
                binance,
                fill_at,
                outcome,
                close_at,
                elapsed_ms,
                costs,
            );
            &&& shown.target_elapsed_from_fill_ms == elapsed_ms
            &&& shown.observed_at_unix_ms == Some(post[k].observed_at_unix_ms)
            &&& !shown.unavailable_after_resolution
            &&& shown.best_bid == post[k].best_bid
            &&& shown.best_bid_size == post[k].best_bid_size
            &&& shown.bid_shares_available == post[k].bid_shares_available
            &&& shown.best_ask == post[k].best_ask
            &&& shown.spread == spread_of(post[k])
            &&& shown.last_trade_price == post[k].last_trade_price
            &&& shown.sell_vwap_5 == post[k].sell_vwap_5
            &&& shown.sell_vwap_candidate == post[k].sell_vwap_candidate
            &&& shown.candidate_shares == post[k].candidate_shares
            &&& shown.gross_pnl_5_usdc == gross_pnl_5_of(post[k].sell_vwap_5)
            &&& shown.net_pnl_5_usdc == net_pnl_5_of(post[k].sell_vwap_5, costs)
            &&& shown.binance_signed_move_bps == signed_move_of(
                latest_of(binance, fill_at + elapsed_ms),
                outcome,
            )
            &&& fill_at + elapsed_ms + shown.time_remaining_ms == close_at
        }),
{
    lemma_latest_between(post, k, fill_at + elapsed_ms);
}

/// Every event that quotes an outcome gives its quote, and there are no more quotes than events; and
/// likewise for the underlying.
pub proof fn law_all_events_are_read(events: Seq<TrajectoryEvent>, outcome: Seq<char>, k: int)
    requires
        0 <= k < events.len(),
    ensures
        quote_of(events[k], outcome) matches Some(quote) ==> quotes_of(events, outcome).contains(
            quote,
        ),
        binance_of(events[k]) matches Some(point) ==> binances_of(events).contains(point),
        quotes_of(events, outcome).len() <= events.len(),
        binances_of(events).len() <= events.len(),
    decreases events.len(),
{
    let fewer = events.drop_last();
    let last = events.len() - 1;
    let (quotes, points) = (quotes_of(events, outcome), binances_of(events));
    if k < last {
        assert(fewer[k] == events[k]);
        law_all_events_are_read(fewer, outcome, k);
        let (before, behind) = (quotes_of(fewer, outcome), binances_of(fewer));
        if quote_of(events[k], outcome) is Some {
            let i = choose|i: int|
                0 <= i < before.len() && before[i] == quote_of(events[k], outcome).unwrap();
            assert(quotes[i] == before[i]);
        }
        if binance_of(events[k]) is Some {
            let i = choose|i: int|
                0 <= i < behind.len() && behind[i] == binance_of(events[k]).unwrap();
            assert(points[i] == behind[i]);
        }
    } else {
        if last > 0 {
            law_all_events_are_read(fewer, outcome, 0);
        }
        assert(events[k] == events.last());
        if quote_of(events[k], outcome) is Some {
            assert(quotes[quotes.len() - 1] == quote_of(events[k], outcome).unwrap());
        }
        if binance_of(events[k]) is Some {
            assert(points[points.len() - 1] == binance_of(events[k]).unwrap());
        }
    }
}

} // verus!
