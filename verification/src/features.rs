//! The features that the rule ensembles test.

use std::collections::VecDeque;
use vstd::prelude::*;
use crate::binary64::Binary64;
use crate::candle::Candle;
use crate::clock;
use crate::exact;
use crate::exact::exact;
use crate::indicators;
use crate::meters;
use crate::meters::{HaState, PyAtrEwmState, PyMacdState, PyRsiState};

verus! {

/// A number read off the window of candles and the running meters.
#[derive(Clone, Copy, Debug, PartialEq, Eq, Structural)]
pub enum Feature {
    AbsorptionDown,
    AbsorptionUp,
    Atr14Pct,
    Atr72Pct,
    BbPctb,
    Body,
    BodyAbsPct,
    BodyRatio,
    BodySum3,
    BodySum6,
    BodySum12,
    BreakoutEnergy,
    Cci12,
    Cci24,
    Cci72,
    ClosePosition,
    CloseZ12,
    CloseZ24,
    CloseZ48,
    Compression12To72,
    DistSma12,
    DistSma24,
    DistVwap24,
    DistVwap72,
    DonchHigh12,
    DonchHigh24,
    DonchHigh72,
    DonchLow12,
    DonchLow24,
    DonchLow72,
    DonchLow144,
    FailedHigh12,
    FailedHigh24,
    FailedLow12,
    FailedLow24,
    FlipCount6,
    FlipCount12,
    GreenCount3,
    GreenCount6,
    GreenStreak,
    HaBody,
    HaBodyRatio,
    HaClosePosition,
    Hour,
    LowerWick,
    LowerWickBody,
    MacdHistPct,
    MacdPct,
    Mfi8,
    Mfi14,
    Mfi21,
    MinuteOfDay,
    RangeAtr14,
    RangePctZ24,
    ReclaimMid12,
    RedCount3,
    RedCount6,
    RedStreak,
    Ret1,
    Ret3,
    Ret6,
    Ret12,
    Ret24,
    Ret72,
    Rsi7,
    Rsi8,
    Rsi14,
    Rsi21,
    SameColorRatio12,
    SessionAsia,
    SessionLondon,
    SessionOverlapLondonUs,
    SessionUs,
    SignedVolumeRatio20,
    StochK12,
    StochK24,
    StochK72,
    UpperWick,
    UpperWickBody,
    VolumeBodyEfficiency,
    VolumeRangeEfficiency,
    VolumeRatio20,
    VolumeZ24,
    VolumeZ96,
    VwapSlope24,
    VwapSlope72,
    Weekday,
    WilliamsR12,
}

/// The running meters of an ensemble.
#[derive(Clone, Copy, Debug)]
pub struct Meters {
    pub rsi7: PyRsiState,
    pub rsi8: PyRsiState,
    pub rsi14: PyRsiState,
    pub rsi21: PyRsiState,
    pub atr14: PyAtrEwmState,
    pub macd: PyMacdState,
    pub ha: HaState,
}

impl Meters {
    pub open spec fn fresh() -> Meters {
        Meters {
            rsi7: PyRsiState::fresh(7),
            rsi8: PyRsiState::fresh(8),
            rsi14: PyRsiState::fresh(14),
            rsi21: PyRsiState::fresh(21),
            atr14: PyAtrEwmState::fresh(14),
            macd: PyMacdState::fresh(),
            ha: HaState::fresh(),
        }
    }

    pub open spec fn updated(self, candle: Candle) -> Meters {
        Meters {
            rsi7: self.rsi7.updated(candle.close),
            rsi8: self.rsi8.updated(candle.close),
            rsi14: self.rsi14.updated(candle.close),
            rsi21: self.rsi21.updated(candle.close),
            atr14: self.atr14.updated(candle),
            macd: self.macd.updated(candle.close),
            ha: self.ha.updated(candle),
        }
    }

    /// The meters after some more candles.
    pub open spec fn after(self, more: Seq<Candle>) -> Meters
        decreases more.len(),
    {
        if more.len() == 0 {
            self
        } else {
            self.updated(more[0]).after(more.drop_first())
        }
    }

    pub fn new() -> (r: Meters)
        ensures
            r == Meters::fresh(),
    {
        Meters {
            rsi7: PyRsiState::new(7),
            rsi8: PyRsiState::new(8),
            rsi14: PyRsiState::new(14),
            rsi21: PyRsiState::new(21),
            atr14: PyAtrEwmState::new(14),
            macd: PyMacdState::new(),
            ha: HaState::new(),
        }
    }

    pub fn update(&mut self, candle: &Candle)
        ensures
            *final(self) == old(self).updated(*candle),
    {
        self.rsi7.update(candle.close);
        self.rsi8.update(candle.close);
        self.rsi14.update(candle.close);
        self.rsi21.update(candle.close);
        self.atr14.update(candle);
        self.macd.update(candle.close);
        self.ha.update(candle);
    }
}

/// Below this a body counts as none: ten to the minus 10.
#[verifier::allow_in_spec]
pub fn no_body() -> Binary64
    returns
        Binary64::ratio(false, 1, 10_000_000_000),
{
    Binary64::ratio(false, 1, 10_000_000_000)
}

/// Signed body as a share of the close.
pub open spec fn body_of(c: Candle) -> Option<Binary64> {
    meters::share_of_close(Some(c.close.minus(c.open)), c.close)
}

fn body(c: &Candle) -> (r: Option<Binary64>)
    ensures
        r == body_of(*c),
{
    if c.close.equals(Binary64::zero()) {
        None
    } else {
        Some(c.close.minus(c.open).over(c.close))
    }
}

/// Length of the body as a share of the close.
pub open spec fn body_abs_pct_of(c: Candle) -> Option<Binary64> {
    meters::share_of_close(Some(indicators::body_length_of(c)), c.close)
}

fn body_abs_pct(c: &Candle) -> (r: Option<Binary64>)
    ensures
        r == body_abs_pct_of(*c),
{
    if c.close.equals(Binary64::zero()) {
        None
    } else {
        Some(c.close.minus(c.open).abs().over(c.close))
    }
}

/// `part` as a share of the candle from low to high.
pub open spec fn share_of_span(part: Binary64, c: Candle) -> Option<Binary64> {
    if c.high.minus(c.low).equals(Binary64::zero()) {
        None
    } else {
        Some(part.over(c.high.minus(c.low)))
    }
}

fn in_spans(part: Binary64, c: &Candle) -> (r: Option<Binary64>)
    ensures
        r == share_of_span(part, *c),
{
    let range: Binary64 = c.high.minus(c.low);
    if range.equals(Binary64::zero()) {
        None
    } else {
        Some(part.over(range))
    }
}

/// A wick as a share of the close.
pub open spec fn wick_pct_of(c: Candle, upper: bool) -> Option<Binary64> {
    meters::share_of_close(Some(indicators::wick_of(c, upper)), c.close)
}

fn wick_pct(c: &Candle, upper: bool) -> (r: Option<Binary64>)
    ensures
        r == wick_pct_of(*c, upper),
{
    if c.close.equals(Binary64::zero()) {
        None
    } else {
        Some(indicators::wick(c, upper).over(c.close))
    }
}

/// A wick in units of the body; `None` where there is no body.
pub open spec fn wick_body_of(c: Candle, upper: bool) -> Option<Binary64> {
    if indicators::body_length_of(c).less(no_body()) {
        None
    } else {
        Some(indicators::wick_of(c, upper).over(indicators::body_length_of(c)))
    }
}

fn wick_body(c: &Candle, upper: bool) -> (r: Option<Binary64>)
    ensures
        r == wick_body_of(*c, upper),
{
    let length: Binary64 = c.close.minus(c.open).abs();
    if length.less(no_body()) {
        None
    } else {
        Some(indicators::wick(c, upper).over(length))
    }
}

/// Hour of the day at which the candle closes.
pub open spec fn hour_number(c: Candle) -> Option<Binary64> {
    if clock::covered(c.close_time_ms) {
        Some(Binary64::count(clock::hour_of(c.close_time_ms) as u64))
    } else {
        None
    }
}

fn hour(c: &Candle) -> (r: Option<Binary64>)
    ensures
        r == hour_number(*c),
{
    match clock::hour(c.close_time_ms) {
        Some(h) => Some(Binary64::count(h as u64)),
        None => None,
    }
}

/// Whole hours of the day at which the candle closes, in minutes.
pub open spec fn hour_minutes(c: Candle) -> Option<Binary64> {
    match hour_number(c) {
        Some(h) => Some(h.times(Binary64::count(60))),
        None => None,
    }
}

fn whole_hours(c: &Candle) -> (r: Option<Binary64>)
    ensures
        r == hour_minutes(*c),
{
    match hour(c) {
        Some(h) => Some(h.times(Binary64::count(60))),
        None => None,
    }
}

/// Minute of the day at which the candle closes.
pub open spec fn minute_of_day(c: Candle) -> Option<Binary64> {
    match hour_minutes(c) {
        Some(m) => Some(m.plus(Binary64::count(clock::minute_of(c.close_time_ms) as u64))),
        None => None,
    }
}

fn minutes(c: &Candle) -> (r: Option<Binary64>)
    ensures
        r == minute_of_day(*c),
{
    match (whole_hours(c), clock::minute(c.close_time_ms)) {
        (Some(hours), Some(rest)) => Some(hours.plus(Binary64::count(rest as u64))),
        _ => None,
    }
}

/// Day of the week on which the candle closes, Monday being 0.
pub open spec fn weekday_number(c: Candle) -> Option<Binary64> {
    if clock::covered(c.close_time_ms) {
        Some(Binary64::count(clock::weekday_of(c.close_time_ms) as u64))
    } else {
        None
    }
}

fn weekday(c: &Candle) -> (r: Option<Binary64>)
    ensures
        r == weekday_number(*c),
{
    match clock::weekday(c.close_time_ms) {
        Some(d) => Some(Binary64::count(d as u64)),
        None => None,
    }
}

/// Whether the candle closes in the given minutes of the day.
pub open spec fn session_number(c: Candle, from: u64, to: u64) -> Option<Binary64> {
    match minute_of_day(c) {
        Some(m) => Some(indicators::session_of(m, from, to)),
        None => None,
    }
}

/// What a feature is worth; `None` where it is not defined yet, or not at all.
pub open spec fn feature_of(feature: Feature, window: Seq<Candle>, meters: Meters) -> Option<
    Binary64,
> {
    if window.len() == 0 {
        None
    } else {
        let c = indicators::newest_candle(window);
        match feature {
            Feature::AbsorptionDown => indicators::absorption_of(window, false),
            Feature::AbsorptionUp => indicators::absorption_of(window, true),
            Feature::Atr14Pct => indicators::atr_pct_sma_of(window, 14, c.close),
            Feature::Atr72Pct => indicators::atr_pct_sma_of(window, 72, c.close),
            Feature::BbPctb => indicators::bb_pctb_of(window),
            Feature::Body => body_of(c),
            Feature::BodyAbsPct => body_abs_pct_of(c),
            Feature::BodyRatio => share_of_span(indicators::body_length_of(c), c),
            Feature::BodySum3 => indicators::body_sum_of(window, 3),
            Feature::BodySum6 => indicators::body_sum_of(window, 6),
            Feature::BodySum12 => indicators::body_sum_of(window, 12),
            Feature::BreakoutEnergy => indicators::breakout_energy_of(window),
            Feature::Cci12 => indicators::cci_n_of(window, 12),
            Feature::Cci24 => indicators::cci_n_of(window, 24),
            Feature::Cci72 => indicators::cci_n_of(window, 72),
            Feature::ClosePosition => share_of_span(c.close.minus(c.low), c),
            Feature::CloseZ12 => indicators::close_z_of(window, 12),
            Feature::CloseZ24 => indicators::close_z_of(window, 24),
            Feature::CloseZ48 => indicators::close_z_of(window, 48),
            Feature::Compression12To72 => indicators::compression_ratio_of(window, 12, 72),
            Feature::DistSma12 => indicators::dist_sma_of(window, 12, c.close),
            Feature::DistSma24 => indicators::dist_sma_of(window, 24, c.close),
            Feature::DistVwap24 => indicators::dist_vwap_of(window, 24, c.close),
            Feature::DistVwap72 => indicators::dist_vwap_of(window, 72, c.close),
            Feature::DonchHigh12 => indicators::donch_high_of(window, 12, c.close),
            Feature::DonchHigh24 => indicators::donch_high_of(window, 24, c.close),
            Feature::DonchHigh72 => indicators::donch_high_of(window, 72, c.close),
            Feature::DonchLow12 => indicators::donch_low_of(window, 12, c.close),
            Feature::DonchLow24 => indicators::donch_low_of(window, 24, c.close),
            Feature::DonchLow72 => indicators::donch_low_of(window, 72, c.close),
            Feature::DonchLow144 => indicators::donch_low_of(window, 144, c.close),
            Feature::FailedHigh12 => indicators::failed_high_of(window, 12),
            Feature::FailedHigh24 => indicators::failed_high_of(window, 24),
            Feature::FailedLow12 => indicators::failed_low_of(window, 12),
            Feature::FailedLow24 => indicators::failed_low_of(window, 24),
            Feature::FlipCount6 => indicators::flip_count_of(window, 6),
            Feature::FlipCount12 => indicators::flip_count_of(window, 12),
            Feature::GreenCount3 => indicators::count_color_of(window, 3, true),
            Feature::GreenCount6 => indicators::count_color_of(window, 6, true),
            Feature::GreenStreak => Some(Binary64::count(indicators::streak_of(window, true) as u64)),
            Feature::HaBody => meters.ha.ha_body,
            Feature::HaBodyRatio => meters.ha.ha_body_ratio,
            Feature::HaClosePosition => meters.ha.ha_close_pos,
            Feature::Hour => hour_number(c),
            Feature::LowerWick => wick_pct_of(c, false),
            Feature::LowerWickBody => wick_body_of(c, false),
            Feature::MacdHistPct => meters::share_of_close(meters.macd.hist, c.close),
            Feature::MacdPct => meters::share_of_close(meters.macd.line, c.close),
            Feature::Mfi8 => indicators::mfi_n_of(window, 8),
            Feature::Mfi14 => indicators::mfi_n_of(window, 14),
            Feature::Mfi21 => indicators::mfi_n_of(window, 21),
            Feature::MinuteOfDay => minute_of_day(c),
            Feature::RangeAtr14 => indicators::range_atr14_of(window, meters.atr14.atr),
            Feature::RangePctZ24 => indicators::range_pct_z_of(window, 24),
            Feature::ReclaimMid12 => indicators::reclaim_mid_of(window, 12),
            Feature::RedCount3 => indicators::count_color_of(window, 3, false),
            Feature::RedCount6 => indicators::count_color_of(window, 6, false),
            Feature::RedStreak => Some(Binary64::count(indicators::streak_of(window, false) as u64)),
            Feature::Ret1 => indicators::ret_n_of(window, 1),
            Feature::Ret3 => indicators::ret_n_of(window, 3),
            Feature::Ret6 => indicators::ret_n_of(window, 6),
            Feature::Ret12 => indicators::ret_n_of(window, 12),
            Feature::Ret24 => indicators::ret_n_of(window, 24),
            Feature::Ret72 => indicators::ret_n_of(window, 72),
            Feature::Rsi7 => meters.rsi7.get(),
            Feature::Rsi8 => meters.rsi8.get(),
            Feature::Rsi14 => meters.rsi14.get(),
            Feature::Rsi21 => meters.rsi21.get(),
            Feature::SameColorRatio12 => indicators::same_color_ratio_of(window, 12),
            Feature::SessionAsia => session_number(c, 0, 480),
            Feature::SessionLondon => session_number(c, 420, 960),
            Feature::SessionOverlapLondonUs => session_number(c, 780, 960),
            Feature::SessionUs => session_number(c, 780, 1260),
            Feature::SignedVolumeRatio20 => indicators::signed_vol_ratio_of(window, 20),
            Feature::StochK12 => indicators::stoch_k_of(window, 12, c.close),
            Feature::StochK24 => indicators::stoch_k_of(window, 24, c.close),
            Feature::StochK72 => indicators::stoch_k_of(window, 72, c.close),
            Feature::UpperWick => wick_pct_of(c, true),
            Feature::UpperWickBody => wick_body_of(c, true),
            Feature::VolumeBodyEfficiency => indicators::vol_body_eff_of(window),
            Feature::VolumeRangeEfficiency => indicators::vol_range_eff_of(window),
            Feature::VolumeRatio20 => indicators::volume_ratio_of(window, 20),
            Feature::VolumeZ24 => indicators::vol_z_of(window, 24),
            Feature::VolumeZ96 => indicators::vol_z_of(window, 96),
            Feature::VwapSlope24 => indicators::vwap_slope_of(window, 24),
            Feature::VwapSlope72 => indicators::vwap_slope_of(window, 72),
            Feature::Weekday => weekday_number(c),
            Feature::WilliamsR12 => indicators::williams_r_of(window, 12),
        }
    }
}

/// Reads one feature.
pub fn feature_value(feature: Feature, window: &VecDeque<Candle>, meters: &Meters) -> (r: Option<
    Binary64,
>)
    ensures
        r == feature_of(feature, window@, *meters),
{
    if window.len() == 0 {
        return None;
    }
    let newest: Candle = window[window.len() - 1];
    let c: &Candle = &newest;
    match feature {
        Feature::AbsorptionDown => indicators::absorption(window, false),
        Feature::AbsorptionUp => indicators::absorption(window, true),
        Feature::Atr14Pct => indicators::atr_pct_sma(window, 14, c.close),
        Feature::Atr72Pct => indicators::atr_pct_sma(window, 72, c.close),
        Feature::BbPctb => indicators::bb_pctb(window),
        Feature::Body => body(c),
        Feature::BodyAbsPct => body_abs_pct(c),
        Feature::BodyRatio => in_spans(c.close.minus(c.open).abs(), c),
        Feature::BodySum3 => indicators::body_sum(window, 3),
        Feature::BodySum6 => indicators::body_sum(window, 6),
        Feature::BodySum12 => indicators::body_sum(window, 12),
        Feature::BreakoutEnergy => indicators::breakout_energy_f(window),
        Feature::Cci12 => indicators::cci_n(window, 12),
        Feature::Cci24 => indicators::cci_n(window, 24),
        Feature::Cci72 => indicators::cci_n(window, 72),
        Feature::ClosePosition => in_spans(c.close.minus(c.low), c),
        Feature::CloseZ12 => indicators::close_z(window, 12),
        Feature::CloseZ24 => indicators::close_z(window, 24),
        Feature::CloseZ48 => indicators::close_z(window, 48),
        Feature::Compression12To72 => indicators::compression_ratio(window, 12, 72),
        Feature::DistSma12 => indicators::dist_sma(window, 12, c.close),
        Feature::DistSma24 => indicators::dist_sma(window, 24, c.close),
        Feature::DistVwap24 => indicators::dist_vwap(window, 24, c.close),
        Feature::DistVwap72 => indicators::dist_vwap(window, 72, c.close),
        Feature::DonchHigh12 => indicators::donch_high(window, 12, c.close),
        Feature::DonchHigh24 => indicators::donch_high(window, 24, c.close),
        Feature::DonchHigh72 => indicators::donch_high(window, 72, c.close),
        Feature::DonchLow12 => indicators::donch_low(window, 12, c.close),
        Feature::DonchLow24 => indicators::donch_low(window, 24, c.close),
        Feature::DonchLow72 => indicators::donch_low(window, 72, c.close),
        Feature::DonchLow144 => indicators::donch_low(window, 144, c.close),
        Feature::FailedHigh12 => indicators::failed_high(window, 12),
        Feature::FailedHigh24 => indicators::failed_high(window, 24),
        Feature::FailedLow12 => indicators::failed_low(window, 12),
        Feature::FailedLow24 => indicators::failed_low(window, 24),
        Feature::FlipCount6 => indicators::flip_count(window, 6),
        Feature::FlipCount12 => indicators::flip_count(window, 12),
        Feature::GreenCount3 => indicators::count_color(window, 3, true),
        Feature::GreenCount6 => indicators::count_color(window, 6, true),
        Feature::GreenStreak => Some(indicators::green_streak(window)),
        Feature::HaBody => meters.ha.ha_body,
        Feature::HaBodyRatio => meters.ha.ha_body_ratio,
        Feature::HaClosePosition => meters.ha.ha_close_pos,
        Feature::Hour => hour(c),
        Feature::LowerWick => wick_pct(c, false),
        Feature::LowerWickBody => wick_body(c, false),
        Feature::MacdHistPct => meters.macd.hist_pct(c.close),
        Feature::MacdPct => meters.macd.line_pct(c.close),
        Feature::Mfi8 => indicators::mfi_n(window, 8),
        Feature::Mfi14 => indicators::mfi_n(window, 14),
        Feature::Mfi21 => indicators::mfi_n(window, 21),
        Feature::MinuteOfDay => minutes(c),
        Feature::RangeAtr14 => indicators::range_atr14(window, meters.atr14.raw()),
        Feature::RangePctZ24 => indicators::range_pct_z(window, 24),
        Feature::ReclaimMid12 => indicators::reclaim_mid(window, 12),
        Feature::RedCount3 => indicators::count_color(window, 3, false),
        Feature::RedCount6 => indicators::count_color(window, 6, false),
        Feature::RedStreak => Some(indicators::red_streak(window)),
        Feature::Ret1 => indicators::ret_n(window, 1),
        Feature::Ret3 => indicators::ret_n(window, 3),
        Feature::Ret6 => indicators::ret_n(window, 6),
        Feature::Ret12 => indicators::ret_n(window, 12),
        Feature::Ret24 => indicators::ret_n(window, 24),
        Feature::Ret72 => indicators::ret_n(window, 72),
        Feature::Rsi7 => meters.rsi7.get(),
        Feature::Rsi8 => meters.rsi8.get(),
        Feature::Rsi14 => meters.rsi14.get(),
        Feature::Rsi21 => meters.rsi21.get(),
        Feature::SameColorRatio12 => indicators::same_color_ratio(window, 12),
        Feature::SessionAsia => match minutes(c) {
            Some(m) => Some(indicators::session_asia(m)),
            None => None,
        },
        Feature::SessionLondon => match minutes(c) {
            Some(m) => Some(indicators::session_london(m)),
            None => None,
        },
        Feature::SessionOverlapLondonUs => match minutes(c) {
            Some(m) => Some(indicators::session_overlap_london_us(m)),
            None => None,
        },
        Feature::SessionUs => match minutes(c) {
            Some(m) => Some(indicators::session_us(m)),
            None => None,
        },
        Feature::SignedVolumeRatio20 => indicators::signed_vol_ratio(window, 20),
        Feature::StochK12 => indicators::stoch_k(window, 12, c.close),
        Feature::StochK24 => indicators::stoch_k(window, 24, c.close),
        Feature::StochK72 => indicators::stoch_k(window, 72, c.close),
        Feature::UpperWick => wick_pct(c, true),
        Feature::UpperWickBody => wick_body(c, true),
        Feature::VolumeBodyEfficiency => indicators::vol_body_eff(window),
        Feature::VolumeRangeEfficiency => indicators::vol_range_eff(window),
        Feature::VolumeRatio20 => indicators::volume_ratio(window, 20),
        Feature::VolumeZ24 => indicators::vol_z(window, 24),
        Feature::VolumeZ96 => indicators::vol_z(window, 96),
        Feature::VwapSlope24 => indicators::vwap_slope(window, 24),
        Feature::VwapSlope72 => indicators::vwap_slope(window, 72),
        Feature::Weekday => weekday(c),
        Feature::WilliamsR12 => indicators::williams_r(window, 12),
    }
}

/// The features of an ensemble, by number.
#[derive(Debug)]
pub struct Feats {
    pub f: Vec<Option<Binary64>>,
}

/// Feature number `id`; `None` also where no feature has that number.
pub open spec fn numbered(feats: Seq<Option<Binary64>>, id: int) -> Option<Binary64> {
    if 0 <= id < feats.len() {
        feats[id]
    } else {
        None
    }
}

impl Feats {
    pub fn get(&self, id: u8) -> (r: Option<Binary64>)
        ensures
            r == numbered(self.f@, id as int),
    {
        if (id as usize) < self.f.len() {
            self.f[id as usize]
        } else {
            None
        }
    }
}

/// Every feature of a list, in its order.
pub open spec fn feats_of(features: Seq<Feature>, window: Seq<Candle>, meters: Meters) -> Seq<
    Option<Binary64>,
> {
    Seq::new(features.len(), |i: int| feature_of(features[i], window, meters))
}

/// Reads every feature of a list.
pub fn compute_feats<const K: usize>(
    features: &[Feature; K],
    window: &VecDeque<Candle>,
    meters: &Meters,
) -> (r: Feats)
    ensures
        r.f@ == feats_of(features@, window@, *meters),
{
    let mut f: Vec<Option<Binary64>> = Vec::new();
    let mut i: usize = 0;
    while i < K
        invariant
            i <= K,
            features@.len() == K,
            f@.len() == i,
            forall|j: int|
                0 <= j < i ==> f@[j] == feature_of(#[trigger] features@[j], window@, *meters),
        decreases K - i,
    {
        f.push(feature_value(features[i], window, meters));
        i = i + 1;
    }
    assert(f@ =~= feats_of(features@, window@, *meters));
    Feats { f }
}

/// The minute of the day is sixty times the hour and the minute of the hour, exactly; both are read
/// wherever the calendar covers the close.
pub proof fn law_minutes_of_the_day(c: Candle)
    ensures
        minute_of_day(c) is Some <==> clock::covered(c.close_time_ms),
        minute_of_day(c) matches Some(minute) ==> minute.is_finite() && exact(minute) == ((
        c.close_time_ms as int / 60_000) % 1_440) as real,
        hour_number(c) matches Some(hour) ==> hour.is_finite() && exact(hour) == ((
        c.close_time_ms as int / 3_600_000) % 24) as real,
{
    if clock::covered(c.close_time_ms) {
        let ms = c.close_time_ms as int;
        let (h, m) = (clock::hour_of(c.close_time_ms), clock::minute_of(c.close_time_ms));
        assert((ms / 60_000) % 1_440 == h * 60 + m) by {
            let k = ms / 60_000;
            assert(ms / 3_600_000 == k / 60);
        }
        exact::law_counts_are_exact(h as u64);
        exact::law_counts_are_exact(m as u64);
        exact::law_counts_are_exact(60);
        exact::law_counts_are_exact((h * 60) as u64);
        exact::law_counts_are_exact((h * 60 + m) as u64);
        let (hours, minutes) = (Binary64::count(h as u64), Binary64::count(m as u64));
        let sixty = Binary64::count(60);
        assert(exact(hours) * exact(sixty) == (h * 60) as real) by (nonlinear_arith)
            requires
                exact(hours) == h as real,
                exact(sixty) == 60real,
        ;
        exact::law_whole_product(hours, sixty, h * 60);
        exact::law_whole_sum(hours.times(sixty), minutes, h * 60 + m);
    }
}

/// A share of a candle's span is there where its high is not its low, and a wick in units of the
/// body where the body is not next to nothing.
pub proof fn law_where_there_are_shares(c: Candle, part: Binary64, upper: bool)
    requires
        c.high.is_finite(),
        c.low.is_finite(),
    ensures
        share_of_span(part, c) is Some <==> exact(c.high) != exact(c.low),
        indicators::body_length_of(c).is_finite() ==> (wick_body_of(c, upper) is Some <==> exact(
            indicators::body_length_of(c),
        ) >= exact(Binary64::ratio(false, 1, 10_000_000_000))),
{
    exact::law_difference_vanishes(c.high, c.low);
    exact::law_ratio(false, 1, 10_000_000_000);
    if indicators::body_length_of(c).is_finite() {
        exact::law_order_is_exact(indicators::body_length_of(c), no_body());
    }
}

} // verus!
