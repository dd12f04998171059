use std::collections::VecDeque;
use updown_trader::binary64::Binary64;
use updown_trader::candle::{push_candle, Candle};
use updown_trader::ensemble::{call, dominance, holds, rule_fires, Cond, Ensemble, Op, ANY};
use updown_trader::features::{compute_feats, feature_value, Feature, Feats, Meters};
use updown_trader::indicators;
use updown_trader::strategies::eth_5m_rules_542_min_votes_1;
use updown_trader::strategies::five_year_70pct_btc_1h_rules_586_min_votes_1;
use updown_trader::strategies::five_year_70pct_btc_5m_rules_71_min_votes_1;
use updown_trader::strategy::Prediction;

fn number(x: f64) -> Binary64 {
    Binary64 { bits: x.to_bits() }
}

fn float(x: Binary64) -> f64 {
    f64::from_bits(x.bits)
}

/// A candle in the machine's own numbers.
#[derive(Clone, Copy)]
struct Bar {
    close_ms: i64,
    o: f64,
    h: f64,
    l: f64,
    c: f64,
    v: f64,
}

impl Bar {
    fn candle(&self) -> Candle {
        Candle {
            open_time_ms: self.close_ms - 299_999,
            close_time_ms: self.close_ms,
            open: number(self.o),
            high: number(self.h),
            low: number(self.l),
            close: number(self.c),
            volume: number(self.v),
            is_closed: true,
        }
    }

    fn typical(&self) -> f64 {
        (self.h + self.l + self.c) / 3.0
    }
}

struct Walk {
    state: u64,
    price: f64,
    at: i64,
}

impl Walk {
    fn draw(&mut self) -> f64 {
        self.state = self.state.wrapping_mul(6364136223846793005).wrapping_add(1442695040888963407);
        (self.state >> 11) as f64 / (1u64 << 53) as f64
    }

    fn next(&mut self) -> Bar {
        let o = self.price;
        let kind = self.draw();
        let c = if kind < 0.05 { o } else { o * (1.0 + (self.draw() - 0.5) * 0.01) };
        let h = if kind > 0.97 { o.max(c) } else { o.max(c) * (1.0 + self.draw() * 0.002) };
        let l = if kind > 0.97 { o.min(c) } else { o.min(c) * (1.0 - self.draw() * 0.002) };
        let v = if kind < 0.02 { 0.0 } else { self.draw() * 1000.0 };
        self.price = c;
        self.at += 300_000 + (self.draw() * 3.0) as i64 * 3_600_000;
        Bar { close_ms: self.at, o, h, l, c, v }
    }
}

fn mean(v: &[f64]) -> f64 {
    v.iter().sum::<f64>() / v.len() as f64
}

fn deviation(v: &[f64]) -> f64 {
    if v.len() < 2 {
        return 0.0;
    }
    let m = mean(v);
    (v.iter().map(|x| (x - m) * (x - m)).sum::<f64>() / (v.len() - 1) as f64).sqrt()
}

fn defined(x: f64, when: bool) -> Option<f64> {
    if when {
        Some(x)
    } else {
        None
    }
}

/// The last `n` of something, the newest first.
fn last(bars: &[Bar], n: usize, pick: fn(&Bar) -> f64) -> Option<Vec<f64>> {
    if bars.len() < n {
        None
    } else {
        Some(bars.iter().rev().take(n).map(pick).collect())
    }
}

fn z(v: Vec<f64>) -> Option<f64> {
    let s = deviation(&v);
    defined((v[0] - mean(&v)) / s, s != 0.0)
}

fn low(v: &[f64]) -> f64 {
    v.iter().copied().fold(f64::INFINITY, f64::min)
}

fn high(v: &[f64]) -> f64 {
    v.iter().copied().fold(f64::NEG_INFINITY, f64::max)
}

fn highs(b: &Bar) -> f64 {
    b.h
}
fn lows(b: &Bar) -> f64 {
    b.l
}
fn closes(b: &Bar) -> f64 {
    b.c
}
fn volumes(b: &Bar) -> f64 {
    b.v
}

fn true_range(bars: &[Bar], i: usize) -> f64 {
    let b = bars[i];
    let p = if i == 0 { b.c } else { bars[i - 1].c };
    (b.h - b.l).max((b.h - p).abs()).max((b.l - p).abs())
}

fn atr_pct(bars: &[Bar], n: usize) -> Option<f64> {
    let c = bars[bars.len() - 1].c;
    if bars.len() < n || c == 0.0 {
        return None;
    }
    let mut sum = 0.0;
    for i in bars.len() - n..bars.len() {
        sum += true_range(bars, i);
    }
    Some(sum / n as f64 / c)
}

fn mfi(bars: &[Bar], n: usize) -> Option<f64> {
    if bars.len() < n {
        return None;
    }
    let (mut up, mut down) = (0.0, 0.0);
    for i in bars.len() - n..bars.len() {
        if i > 0 {
            let (now, before) = (bars[i].typical(), bars[i - 1].typical());
            if now > before {
                up += now * bars[i].v;
            } else if now < before {
                down += now * bars[i].v;
            }
        }
    }
    defined(100.0 - 100.0 / (1.0 + up / down), down != 0.0)
}

fn cci(bars: &[Bar], n: usize) -> Option<f64> {
    if bars.len() < 2 * n - 1 {
        return None;
    }
    let mean_at =
        |end: usize| bars[end + 1 - n..=end].iter().map(|b| b.typical()).sum::<f64>() / n as f64;
    let end = bars.len() - 1;
    let mut sum = 0.0;
    for i in end + 1 - n..=end {
        sum += (bars[i].typical() - mean_at(i)).abs();
    }
    let dev = sum / n as f64;
    defined((bars[end].typical() - mean_at(end)) / (0.015 * dev), dev != 0.0)
}

fn vwap(bars: &[Bar]) -> Option<f64> {
    let (mut t, mut v) = (0.0, 0.0);
    for b in bars {
        t += b.typical() * b.v;
        v += b.v;
    }
    defined(t / v, !(v < 1e-12))
}

fn vwap_n(bars: &[Bar], n: usize) -> Option<f64> {
    if bars.len() < n {
        return None;
    }
    let newest: Vec<Bar> = bars.iter().rev().take(n).copied().collect();
    vwap(&newest)
}

fn vwap_slope(bars: &[Bar], n: usize) -> Option<f64> {
    let shift = (n / 4).max(1);
    if bars.len() < n + shift {
        return None;
    }
    let start = bars.len() - shift - n;
    let then = vwap(&bars[start..start + n]);
    let now = vwap_n(bars, n)?;
    let then = then?;
    defined(now / then - 1.0, then != 0.0)
}

fn range_share(b: &Bar) -> f64 {
    (b.h - b.l) / b.c
}

fn bodies(bars: &[Bar], n: usize) -> Option<f64> {
    Some(last(bars, n, |b| if b.c != 0.0 { (b.c - b.o) / b.c } else { 0.0 })?.iter().sum::<f64>())
}

fn colored(bars: &[Bar], n: usize, green: bool) -> Option<f64> {
    if bars.len() < n {
        return None;
    }
    let one = |b: &&Bar| if green { b.c > b.o } else { b.c < b.o };
    Some(bars.iter().rev().take(n).filter(one).count() as f64)
}

fn flips(bars: &[Bar], n: usize) -> Option<f64> {
    if bars.len() < n {
        return None;
    }
    let side = |b: &Bar| if b.c > b.o { 1 } else if b.c < b.o { -1 } else { 0 };
    let changed = |i: &usize| *i == 0 || side(&bars[*i]) != side(&bars[*i - 1]);
    Some((bars.len() - n..bars.len()).filter(changed).count() as f64)
}

fn ewm(row: &[f64], alpha: f64) -> Option<f64> {
    let mut value: Option<f64> = None;
    for x in row {
        value = Some(match value {
            Some(p) => p + alpha * (x - p),
            None => *x,
        });
    }
    value
}

fn rsi(all: &[Bar], n: usize) -> Option<f64> {
    let deltas: Vec<f64> = all.windows(2).map(|w| w[1].c - w[0].c).collect();
    let gains: Vec<f64> = deltas.iter().map(|d| d.max(0.0)).collect();
    let losses: Vec<f64> = deltas.iter().map(|d| (-d.min(0.0)).max(0.0)).collect();
    let alpha = 1.0 / n as f64;
    let (g, l) = (ewm(&gains, alpha)?, ewm(&losses, alpha)?);
    defined(100.0 - 100.0 / (1.0 + g / l), l != 0.0)
}

fn macd(all: &[Bar], hist: bool) -> Option<f64> {
    let (mut fast, mut slow, mut signal): (Option<f64>, Option<f64>, Option<f64>) =
        (None, None, None);
    let mut shown = 0.0;
    for b in all {
        let step = |p: Option<f64>, a: f64, x: f64| match p {
            Some(p) => p + a * (x - p),
            None => x,
        };
        let f = step(fast, 2.0 / 13.0, b.c);
        let s = step(slow, 2.0 / 27.0, b.c);
        let line = f - s;
        let sig = step(signal, 2.0 / 10.0, line);
        fast = Some(f);
        slow = Some(s);
        signal = Some(sig);
        shown = if hist { line - sig } else { line };
    }
    let c = all[all.len() - 1].c;
    defined(shown / c, c != 0.0)
}

fn heikin_ashi(all: &[Bar]) -> (Option<f64>, Option<f64>, Option<f64>) {
    let mut before: Option<(f64, f64)> = None;
    let mut told = (None, None, None);
    for b in all {
        let c = (b.o + b.h + b.l + b.c) / 4.0;
        let o = match before {
            Some((po, pc)) => (po + pc) / 2.0,
            None => (b.o + b.c) / 2.0,
        };
        let h = b.h.max(o).max(c);
        let l = b.l.min(o).min(c);
        let r = h - l;
        told = (
            defined((c - o) / b.c, b.c != 0.0),
            defined((c - o).abs() / r, !(r < 1e-12)),
            defined((c - l) / r, !(r < 1e-12)),
        );
        before = Some((o, c));
    }
    told
}

fn expected(feature: Feature, all: &[Bar], bars: &[Bar]) -> Option<f64> {
    let b = bars[bars.len() - 1];
    let prior = |n: usize| {
        if bars.len() < n + 1 {
            None
        } else {
            Some(&bars[bars.len() - 1 - n..bars.len() - 1])
        }
    };
    let day = b.close_ms.div_euclid(86_400_000);
    let hour = (b.close_ms.div_euclid(3_600_000).rem_euclid(24)) as f64;
    let minute = hour * 60.0 + (b.close_ms.div_euclid(60_000).rem_euclid(60)) as f64;
    let within = |from: f64, to: f64| Some(if minute >= from && minute < to { 1.0 } else { 0.0 });
    let body = (b.c - b.o).abs();
    let upper = b.h - b.o.max(b.c);
    let lower = b.o.min(b.c) - b.l;
    let range = b.h - b.l;
    let ratio20 = last(bars, 20, volumes).and_then(|v| {
        let m = v.iter().sum::<f64>() / 20.0;
        defined(b.v / m, !(m < 1e-12))
    });
    let volume_z24 = last(bars, 24, volumes).and_then(z);
    let range_z24 = last(bars, 24, range_share).and_then(z);
    let stoch = |n: usize| {
        let (h, l) = (high(&last(bars, n, highs)?), low(&last(bars, n, lows)?));
        defined((b.c - l) / (h - l) * 100.0, h - l != 0.0)
    };
    let donch_high = |n: usize| {
        let h = high(&last(bars, n, highs)?);
        defined(b.c / h - 1.0, !(h <= 0.0))
    };
    let donch_low = |n: usize| {
        let l = low(&last(bars, n, lows)?);
        defined(b.c / l - 1.0, !(l <= 0.0))
    };
    let sma = |n: usize| {
        let m = last(bars, n, closes)?.iter().sum::<f64>() / n as f64;
        defined(b.c / m - 1.0, m != 0.0)
    };
    let dist = |n: usize| {
        let v = vwap_n(bars, n)?;
        defined(b.c / v - 1.0, v != 0.0)
    };
    let ret = |n: usize| {
        if bars.len() < n + 1 {
            return None;
        }
        let past = bars[bars.len() - 1 - n].c;
        defined(b.c / past - 1.0, past != 0.0)
    };
    let failed_low = |n: usize| {
        Some(match prior(n) {
            Some(p) => {
                let edge = p.iter().map(lows).fold(f64::INFINITY, f64::min);
                if b.l < edge && b.c > edge { 1.0 } else { 0.0 }
            }
            None => 0.0,
        })
    };
    let failed_high = |n: usize| {
        Some(match prior(n) {
            Some(p) => {
                let edge = p.iter().map(highs).fold(f64::NEG_INFINITY, f64::max);
                if b.h > edge && b.c < edge { 1.0 } else { 0.0 }
            }
            None => 0.0,
        })
    };
    let streak = |green: bool| {
        let one = |b: &&Bar| if green { b.c > b.o } else { b.c < b.o };
        Some(bars.iter().rev().take_while(one).count() as f64)
    };
    match feature {
        Feature::AbsorptionDown => volume_z24.and_then(|z| defined(z * (lower / body), body != 0.0)),
        Feature::AbsorptionUp => volume_z24.and_then(|z| defined(z * (upper / body), body != 0.0)),
        Feature::Atr14Pct => atr_pct(bars, 14),
        Feature::Atr72Pct => atr_pct(bars, 72),
        Feature::BbPctb => last(bars, 20, closes).and_then(|v| {
            let (m, s) = (mean(&v), deviation(&v));
            defined((v[0] - (m - 2.0 * s)) / (4.0 * s), s != 0.0)
        }),
        Feature::Body => defined((b.c - b.o) / b.c, b.c != 0.0),
        Feature::BodyAbsPct => defined(body / b.c, b.c != 0.0),
        Feature::BodyRatio => defined(body / range, range != 0.0),
        Feature::BodySum3 => bodies(bars, 3),
        Feature::BodySum6 => bodies(bars, 6),
        Feature::BodySum12 => bodies(bars, 12),
        Feature::BreakoutEnergy => Some(range_z24? * volume_z24?),
        Feature::Cci12 => cci(bars, 12),
        Feature::Cci24 => cci(bars, 24),
        Feature::Cci72 => cci(bars, 72),
        Feature::ClosePosition => defined((b.c - b.l) / range, range != 0.0),
        Feature::CloseZ12 => last(bars, 12, closes).and_then(z),
        Feature::CloseZ24 => last(bars, 24, closes).and_then(z),
        Feature::CloseZ48 => last(bars, 48, closes).and_then(z),
        Feature::Compression12To72 => {
            let long = last(bars, 72, range_share)?.iter().sum::<f64>() / 72.0;
            let short = last(bars, 12, range_share)?.iter().sum::<f64>() / 12.0;
            defined(short / long, !(long < 1e-12))
        }
        Feature::DistSma12 => sma(12),
        Feature::DistSma24 => sma(24),
        Feature::DistVwap24 => dist(24),
        Feature::DistVwap72 => dist(72),
        Feature::DonchHigh12 => donch_high(12),
        Feature::DonchHigh24 => donch_high(24),
        Feature::DonchHigh72 => donch_high(72),
        Feature::DonchLow12 => donch_low(12),
        Feature::DonchLow24 => donch_low(24),
        Feature::DonchLow72 => donch_low(72),
        Feature::DonchLow144 => donch_low(144),
        Feature::FailedHigh12 => failed_high(12),
        Feature::FailedHigh24 => failed_high(24),
        Feature::FailedLow12 => failed_low(12),
        Feature::FailedLow24 => failed_low(24),
        Feature::FlipCount6 => flips(bars, 6),
        Feature::FlipCount12 => flips(bars, 12),
        Feature::GreenCount3 => colored(bars, 3, true),
        Feature::GreenCount6 => colored(bars, 6, true),
        Feature::GreenStreak => streak(true),
        Feature::HaBody => heikin_ashi(all).0,
        Feature::HaBodyRatio => heikin_ashi(all).1,
        Feature::HaClosePosition => heikin_ashi(all).2,
        Feature::Hour => Some(hour),
        Feature::LowerWick => defined(lower / b.c, b.c != 0.0),
        Feature::LowerWickBody => defined(lower / body, !(body < 1e-10)),
        Feature::MacdHistPct => macd(all, true),
        Feature::MacdPct => macd(all, false),
        Feature::Mfi8 => mfi(bars, 8),
        Feature::Mfi14 => mfi(bars, 14),
        Feature::Mfi21 => mfi(bars, 21),
        Feature::MinuteOfDay => Some(minute),
        Feature::RangeAtr14 => {
            let ranges: Vec<f64> = (0..all.len()).map(|i| true_range(all, i)).collect();
            let atr = ewm(&ranges, 1.0 / 14.0)?;
            defined(range / atr, atr != 0.0)
        }
        Feature::RangePctZ24 => range_z24,
        Feature::ReclaimMid12 => Some(match prior(12) {
            Some(p) => {
                let h = p.iter().map(highs).fold(f64::NEG_INFINITY, f64::max);
                let l = p.iter().map(lows).fold(f64::INFINITY, f64::min);
                if b.c > (h + l) / 2.0 { 1.0 } else { 0.0 }
            }
            None => 0.0,
        }),
        Feature::RedCount3 => colored(bars, 3, false),
        Feature::RedCount6 => colored(bars, 6, false),
        Feature::RedStreak => streak(false),
        Feature::Ret1 => ret(1),
        Feature::Ret3 => ret(3),
        Feature::Ret6 => ret(6),
        Feature::Ret12 => ret(12),
        Feature::Ret24 => ret(24),
        Feature::Ret72 => ret(72),
        Feature::Rsi7 => rsi(all, 7),
        Feature::Rsi8 => rsi(all, 8),
        Feature::Rsi14 => rsi(all, 14),
        Feature::Rsi21 => rsi(all, 21),
        Feature::SameColorRatio12 => {
            Some(colored(bars, 12, true)?.max(colored(bars, 12, false)?) / 12.0)
        }
        Feature::SessionAsia => within(0.0, 480.0),
        Feature::SessionLondon => within(420.0, 960.0),
        Feature::SessionUs => within(780.0, 1260.0),
        Feature::SessionOverlapLondonUs => within(780.0, 960.0),
        Feature::SignedVolumeRatio20 => {
            let m = last(bars, 20, volumes)?.iter().sum::<f64>() / 20.0;
            let sign = if b.c > b.o { 1.0 } else if b.c < b.o { -1.0 } else { 0.0 };
            defined(b.v * sign / m, !(m < 1e-12))
        }
        Feature::StochK12 => stoch(12),
        Feature::StochK24 => stoch(24),
        Feature::StochK72 => stoch(72),
        Feature::UpperWick => defined(upper / b.c, b.c != 0.0),
        Feature::UpperWickBody => defined(upper / body, !(body < 1e-10)),
        Feature::VolumeBodyEfficiency => {
            let r = ratio20?;
            defined((body / b.c) / r, b.c != 0.0 && r != 0.0)
        }
        Feature::VolumeRangeEfficiency => {
            let r = ratio20?;
            defined((range / b.c) / r, b.c != 0.0 && r != 0.0)
        }
        Feature::VolumeRatio20 => ratio20,
        Feature::VolumeZ24 => volume_z24,
        Feature::VolumeZ96 => last(bars, 96, volumes).and_then(z),
        Feature::VwapSlope24 => vwap_slope(bars, 24),
        Feature::VwapSlope72 => vwap_slope(bars, 72),
        Feature::Weekday => Some((day + 3).rem_euclid(7) as f64),
        Feature::WilliamsR12 => {
            let (h, l) = (high(&last(bars, 12, highs)?), low(&last(bars, 12, lows)?));
            defined((h - b.c) / (h - l) * -100.0, h - l != 0.0)
        }
    }
}

fn compare(features: &[Feature], seed: u64, start: i64, steps: usize) {
    let mut walk = Walk { state: seed, price: 2000.0, at: start };
    let mut window: VecDeque<Candle> = VecDeque::new();
    let mut meters = Meters::new();
    let mut all: Vec<Bar> = Vec::new();
    for step in 0..steps {
        let bar = walk.next();
        all.push(bar);
        meters.update(&bar.candle());
        push_candle(&mut window, &bar.candle(), 160);
        let bars = &all[all.len().saturating_sub(160)..];
        assert_eq!(window.len(), bars.len());
        for feature in features {
            let ours = feature_value(*feature, &window, &meters).map(float);
            let theirs = expected(*feature, &all, bars);
            let same = match (ours, theirs) {
                (Some(a), Some(b)) => a.to_bits() == b.to_bits() || (a.is_nan() && b.is_nan()),
                (None, None) => true,
                _ => false,
            };
            assert!(same, "{feature:?} at {step}: {ours:?} {theirs:?}");
        }
    }
}

#[test]
fn features_agree_with_the_machine() {
    compare(&eth_5m_rules_542_min_votes_1::FEATURES, 11, 1_700_000_000_000, 200);
    compare(&five_year_70pct_btc_5m_rules_71_min_votes_1::FEATURES, 12, -90_000_000_000, 170);
    compare(&five_year_70pct_btc_1h_rules_586_min_votes_1::FEATURES, 13, 951_700_000_000, 30);
    let rest = [Feature::SessionAsia, Feature::WilliamsR12, Feature::Ret6, Feature::Mfi21];
    compare(&rest, 14, 0, 60);
}

#[test]
fn nothing_is_known_of_an_empty_window() {
    let window: VecDeque<Candle> = VecDeque::new();
    let feats =
        compute_feats(&eth_5m_rules_542_min_votes_1::FEATURES, &window, &Meters::new());
    assert_eq!(feats.f.len(), 81);
    assert!(feats.f.iter().all(|f| f.is_none()));
    assert!(feats.get(80).is_none() && feats.get(200).is_none());
}

#[test]
fn moments_past_the_calendar_have_no_hour() {
    let mut window: VecDeque<Candle> = VecDeque::new();
    let meters = Meters::new();
    for (close_ms, known) in [
        (8_210_266_876_799_999, true),
        (8_210_266_876_800_000, false),
        (-8_334_601_228_800_000, true),
        (-8_334_601_228_800_001, false),
    ] {
        let bar = Bar { close_ms: 0, o: 1.0, h: 2.0, l: 0.5, c: 1.5, v: 1.0 };
        let mut candle = bar.candle();
        candle.close_time_ms = close_ms;
        push_candle(&mut window, &candle, 1);
        assert_eq!(window.len(), 1);
        for feature in [
            Feature::Hour, Feature::MinuteOfDay, Feature::Weekday,
            Feature::SessionUs,
        ] {
            assert_eq!(feature_value(feature, &window, &meters).is_some(), known);
        }
    }
}

#[test]
fn sessions_begin_and_end_on_the_minute() {
    let at = |m: f64| number(m);
    assert_eq!(float(indicators::session_asia(at(0.0))), 1.0);
    assert_eq!(float(indicators::session_asia(at(479.0))), 1.0);
    assert_eq!(float(indicators::session_asia(at(480.0))), 0.0);
    assert_eq!(float(indicators::session_london(at(419.0))), 0.0);
    assert_eq!(float(indicators::session_london(at(420.0))), 1.0);
    assert_eq!(float(indicators::session_us(at(1260.0))), 0.0);
    assert_eq!(float(indicators::session_overlap_london_us(at(959.0))), 1.0);
    assert_eq!(float(indicators::session_overlap_london_us(at(f64::NAN))), 0.0);
}

fn feats(values: &[Option<f64>]) -> Feats {
    Feats { f: values.iter().map(|v| v.map(number)).collect() }
}

#[test]
fn conditions_hold_as_they_say() {
    let ge: Cond = (Op::Ge, 0, -25, 0, 1);
    assert!(holds(number(-2.5), &ge) && !holds(number(-2.6), &ge) && !holds(number(f64::NAN), &ge));
    let le: Cond = (Op::Le, 0, 25, 0, 1);
    assert!(holds(number(2.5), &le) && !holds(number(2.6), &le));
    let eq: Cond = (Op::Eq, 0, 1, 0, 0);
    assert!(holds(number(1.0 + 5e-10), &eq) && !holds(number(1.0 + 2e-9), &eq));
    let between: Cond = (Op::Between, 0, 5, 75, 2);
    assert!(holds(number(0.05), &between) && holds(number(0.75), &between));
    assert!(!holds(number(0.76), &between));
    let one_of: Cond = (Op::In, 0, 7, 9, 0);
    assert!(holds(number(7.0), &one_of) && holds(number(9.0), &one_of));
    assert!(!holds(number(10.0), &one_of) && !holds(number(8.5), &one_of));

    let rule = (false, [le, (Op::Ge, 1, 3, 0, 0), ANY]);
    assert_eq!(rule_fires(&feats(&[Some(1.0), Some(3.0)]), &rule), Some(false));
    assert_eq!(rule_fires(&feats(&[Some(1.0), Some(2.0)]), &rule), None);
    assert_eq!(rule_fires(&feats(&[Some(1.0), None]), &rule), None);
    assert_eq!(rule_fires(&feats(&[Some(1.0)]), &rule), None);
}

#[test]
fn the_larger_side_is_called() {
    assert!(call((1, 1), 0).is_none());
    assert!(call((0, 0), 0).is_none());
    assert!(call((2, 0), 3).is_none());
    let up = call((2, 1), 3).unwrap();
    assert_eq!(up.prediction, Prediction::Up);
    assert_eq!(float(up.rsi), 2.0 / 3.0 * 100.0);
    assert_eq!(call((0, 5), 1).unwrap().prediction, Prediction::Down);
    assert_eq!(float(dominance(7, 3)), 7.0 / 10.0 * 100.0);
}

#[test]
fn ensembles_vote_on_what_they_have_seen() {
    let features = [Feature::GreenStreak, Feature::RedStreak];
    let rules: [(bool, [Cond; 2]); 3] = [
        (false, [(Op::Ge, 0, 2, 0, 0), ANY]),
        (false, [(Op::Ge, 0, 3, 0, 0), ANY]),
        (true, [(Op::Ge, 1, 1, 0, 0), ANY]),
    ];
    let mut ensemble = Ensemble::new(1);
    let bar = |o: f64, c: f64| Bar { close_ms: 0, o, h: 3.0, l: 0.5, c, v: 1.0 }.candle();
    assert!(ensemble.decide(&bar(1.0, 2.0), &features, &rules).is_none());
    assert_eq!(ensemble.last_votes, (0, 0));
    let first = ensemble.decide(&bar(1.0, 2.0), &features, &rules).unwrap();
    assert_eq!(first.prediction, Prediction::Down);
    assert_eq!(ensemble.last_votes, (0, 1));
    ensemble.decide(&bar(1.0, 2.0), &features, &rules).unwrap();
    assert_eq!(ensemble.last_votes, (0, 2));
    assert!(ensemble.decide(&bar(2.0, 2.0), &features, &rules).is_none());
    assert_eq!(ensemble.last_votes, (0, 0));
    let turned = ensemble.decide(&bar(2.0, 1.0), &features, &rules).unwrap();
    assert_eq!(turned.prediction, Prediction::Up);
    for _ in 0..200 {
        ensemble.feed(&bar(1.0, 2.0));
    }
    assert_eq!(ensemble.window.len(), 160);
}

fn plain(close: f64, close_time_ms: i64) -> Candle {
    Candle {
        open_time_ms: close_time_ms - 3_599_999,
        close_time_ms,
        open: number(1.0),
        high: number(2.0),
        low: number(1.0),
        close: number(close),
        volume: number(1.0),
        is_closed: true,
    }
}

#[test]
fn minutes_of_the_day_are_counted_in_the_hourly_table() {
    let noon = 1_704_110_400_000;
    let mut window = VecDeque::new();
    push_candle(&mut window, &plain(2.0, noon + 3_599_999), 160);
    let features = five_year_70pct_btc_1h_rules_586_min_votes_1::FEATURES;
    let feats = compute_feats(&features, &window, &Meters::new());
    assert_eq!(feats.get(44).map(float), Some(779.0));
}

#[test]
fn lengths_of_nothing_and_too_much_are_taken() {
    let mut window = VecDeque::new();
    for (i, close) in [2.0, 1.5, 1.25, 1.75].iter().enumerate() {
        push_candle(&mut window, &plain(*close, i as i64 * 3_600_000), 160);
    }
    assert!(indicators::close_z(&window, 0).is_none());
    assert!(indicators::vol_z(&window, 0).is_none());
    assert!(indicators::range_pct_z(&window, 0).is_none());
    assert!(indicators::cci_n(&window, 0).unwrap().is_nan());
    let shares: Vec<f64> = [1.75, 1.25, 1.5, 2.0].iter().map(|close| 1.0 / close).collect();
    let wide = shares.iter().sum::<f64>() / 9.0;
    let narrow = (shares[0] + shares[1]) / 2.0;
    assert_eq!(indicators::compression_ratio(&window, 9, 2).map(float), Some(wide / narrow));
    assert!(indicators::compression_ratio(&window, 2, 9).is_none());
}
