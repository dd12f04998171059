use updown_trader::binary64::Binary64;
use updown_trader::candle::Candle;
use updown_trader::microstructure::{Feature, MicrostructureSnapshot};
use updown_trader::strategies::ethusd_perp_coinm_15m_microstructure_mixed_13::EthUsdPerpMicrostructureMixed13;
use updown_trader::strategy::{Prediction, Strategy};

fn number(x: f64) -> Binary64 {
    Binary64 { bits: x.to_bits() }
}

fn float(x: Binary64) -> f64 {
    f64::from_bits(x.bits)
}

fn candle(open: f64, high: f64, low: f64, close: f64, offset: i64) -> Candle {
    let open_time_ms = 1_700_000_000_000 + offset * 60_000;
    Candle {
        open_time_ms,
        close_time_ms: open_time_ms + 15 * 60_000,
        open: number(open),
        high: number(high),
        low: number(low),
        close: number(close),
        volume: number(1.0),
        is_closed: true,
    }
}

fn snapshot(values: Vec<(Feature, f64)>, gap: Option<&str>) -> MicrostructureSnapshot {
    let mut all: Vec<(Feature, Binary64)> = Vec::new();
    for (feature, value) in values {
        all.push((feature, number(value)));
    }
    MicrostructureSnapshot::new(candle(100.0, 101.0, 99.0, 100.5, 0), all, gap.map(|g| g.to_string()))
}

fn complete_values() -> Vec<(Feature, f64)> {
    [
        Feature::FutBtcusdtM1CloseLocation, Feature::FutBtcusdtM1GreenRatio, Feature::FutBtcusdtM1MinuteReturnLag2,
        Feature::FutBtcusdtM1MinuteReturnLag3, Feature::FutBtcusdtM1MinuteTakerLag2,
        Feature::FutBtcusdtM1SegmentReturn2, Feature::FutBtcusdtM1SegmentReturnAcceleration,
        Feature::FutBtcusdtM1SegmentTakerImbalance2, Feature::FutEthusdtM1BlockReturn,
        Feature::FutEthusdtM1CloseLocation, Feature::FutEthusdtM1MinuteReturnLag1,
        Feature::FutEthusdtM1MinuteReturnLag3, Feature::FutEthusdtM1SegmentReturn2,
        Feature::FutEthusdtM1SegmentReturnAcceleration, Feature::FutEthusdtM1SegmentTakerAcceleration,
        Feature::FutEthusdtM1SegmentTakerImbalance2, Feature::IndexEthusdtReturn1, Feature::MarkBtcusdtCloseLocation,
        Feature::MarkEthusdtReturn1, Feature::MarkEthusdtReturn3, Feature::OiEthusdtValueChange6,
        Feature::OiEthusdtValueChange12, Feature::SignalBreakoutHigh20, Feature::SignalCloseEma8Atr,
        Feature::SignalEma8Ema21Atr, Feature::SignalGreenRatio3, Feature::SignalGreenRatio6, Feature::SignalGreenRatio12,
        Feature::SignalReturn6, Feature::SignalReturn12, Feature::SignalStoch14, Feature::SignalTransitionRatio3,
        Feature::SignalTransitionRatio12, Feature::TargetEthusdPerpM1BlockReturn,
        Feature::TargetEthusdPerpM1GreenCount, Feature::TargetEthusdPerpM1MinuteReturnLag2,
        Feature::TargetEthusdPerpM1SegmentReturn2, Feature::TargetEthusdPerpM1SegmentTakerImbalance1,
        Feature::TargetEthusdPerpM1SegmentTakerImbalance2,
    ]
    .iter()
    .map(|feature| (*feature, 0.0))
    .collect()
}

#[test]
fn emits_up_when_only_green_rules_are_active() {
    let mut values = complete_values();
    values.push((Feature::SignalGreenRatio3, 0.0));
    values.push((Feature::FutEthusdtM1MinuteReturnLag1, -0.002));

    let mut strategy = EthUsdPerpMicrostructureMixed13::new();
    let signal = strategy
        .on_microstructure_snapshot(&snapshot(values, None))
        .unwrap();

    assert_eq!(signal.prediction, Prediction::Up);
    assert!(strategy
        .candle_log_extras()
        .contains("ethusd_perp_coinm_15m_microstructure_mixed_13_rule_3"));
}

#[test]
fn skips_when_green_and_red_rules_are_both_active() {
    let mut values = complete_values();
    values.push((Feature::SignalGreenRatio3, 0.0));
    values.push((Feature::FutEthusdtM1MinuteReturnLag1, -0.002));
    values.push((Feature::SignalTransitionRatio3, 0.0));
    values.push((Feature::SignalGreenRatio6, 0.9));
    values.push((Feature::SignalCloseEma8Atr, 0.6));
    values.push((Feature::TargetEthusdPerpM1SegmentReturn2, 0.001));
    values.push((Feature::FutEthusdtM1SegmentReturn2, 0.001));
    values.push((Feature::FutEthusdtM1SegmentTakerAcceleration, 0.5));

    let mut strategy = EthUsdPerpMicrostructureMixed13::new();

    assert!(strategy
        .on_microstructure_snapshot(&snapshot(values, None))
        .is_none());
    assert!(strategy.candle_log_extras().contains("green=1 | red=1"));
    assert_eq!(
        strategy.candle_log_extras(),
        "green=1 | red=1 | total=2 | pct=50.0% | min_votes=1 | active=\
         ethusd_perp_coinm_15m_microstructure_mixed_13_rule_3,\
         ethusd_perp_coinm_15m_microstructure_mixed_13_rule_12"
    );
    let summary = strategy.last_microstructure_decision_summary().unwrap();
    assert_eq!(summary.prediction, None);
    assert_eq!((summary.green_votes, summary.red_votes), (1, 1));
    assert_eq!(summary.active_rules.len(), 2);
}

#[test]
fn incomplete_snapshots_are_noted_and_skipped() {
    let mut values = complete_values();
    values.push((Feature::FutEthusdtM1MinuteReturnLag1, -0.002));
    let mut strategy = EthUsdPerpMicrostructureMixed13::new();
    assert!(strategy.requires_microstructure());
    assert_eq!(strategy.candle_log_extras(), "green=0 | red=0 | total=0 | min_votes=1");
    assert!(strategy.last_microstructure_decision_summary().is_none());
    assert!(strategy
        .on_microstructure_snapshot(&snapshot(values, Some("no trades")))
        .is_none());
    assert_eq!(
        strategy.candle_log_extras(),
        "green=0 | red=0 | total=0 | min_votes=1 | active=snapshot_incomplet: no trades"
    );
    let summary = strategy.last_microstructure_decision_summary().unwrap();
    assert_eq!(summary.active_rules, vec!["snapshot_incomplet: no trades".to_string()]);
}

#[test]
fn red_rules_alone_call_down() {
    let mut values = complete_values();
    values.push((Feature::SignalGreenRatio3, 1.0));
    values.push((Feature::SignalReturn12, 0.01619062013924122));
    values.push((Feature::FutBtcusdtM1MinuteReturnLag3, 0.0013222055276855826));
    let mut strategy = EthUsdPerpMicrostructureMixed13::default();
    let signal = strategy.on_microstructure_snapshot(&snapshot(values, None)).unwrap();
    assert_eq!(signal.prediction, Prediction::Down);
    assert_eq!(float(signal.rsi), 100.0);
    assert_eq!(
        strategy.candle_log_extras(),
        "green=0 | red=1 | total=1 | pct=100.0% | min_votes=1 | active=\
         ethusd_perp_coinm_15m_microstructure_mixed_13_rule_23"
    );
    assert!(strategy.on_closed_candle(&candle(1.0, 2.0, 0.5, 1.5, 0)).is_none());
}

