use updown_trader::binary64::Binary64;
use updown_trader::candle::Candle;
use updown_trader::ensemble::{ANY, Op};
use updown_trader::features::Feature;
use updown_trader::meters::Meter;
use updown_trader::microstructure::MicrostructureSnapshot;
use updown_trader::strategies::eth_1h_rules_210_min_votes_1::EthH1Rules210;
use updown_trader::strategies::eth_5m_rules_542_min_votes_1::EthRules542;
use updown_trader::strategies::five_year_70pct_btc_1h_rules_586_min_votes_1::FiveYear70PctBtcH1Rules586;
use updown_trader::strategies::five_year_70pct_btc_5m_rules_71_min_votes_1::FiveYear70PctBtcM5Rules71;
use updown_trader::strategies::five_year_70pct_eth_1h_rules_632_min_votes_1::FiveYear70PctEthH1Rules632;
use updown_trader::strategies::meche::{BollFade, DonchZscore, ReversalPro, StreakRsi, TrioVote2};
use updown_trader::strategies::{
    eth_1h_rules_210_min_votes_1, eth_5m_rules_542_min_votes_1,
    five_year_70pct_btc_1h_rules_586_min_votes_1, five_year_70pct_btc_5m_rules_71_min_votes_1,
    five_year_70pct_eth_1h_rules_632_min_votes_1,
};
use updown_trader::strategy::{Prediction, Strategy};
use updown_trader::strategy_factory::{
    create_strategy, CreatedStrategy, StrategyConfig, KNOWN_STRATEGIES,
};

fn number(x: f64) -> Binary64 {
    Binary64 { bits: x.to_bits() }
}

fn float(x: Binary64) -> f64 {
    f64::from_bits(x.bits)
}

fn candle(open: f64, high: f64, low: f64, close: f64, offset: i64) -> Candle {
    let open_time_ms = 1_700_000_000_000 + offset * 60_000;
    Candle {
        open_time_ms,
        close_time_ms: open_time_ms + 5 * 60_000 - 1,
        open: number(open),
        high: number(high),
        low: number(low),
        close: number(close),
        volume: number(1.0),
        is_closed: true,
    }
}

/// A meter that reads what it is told to.
struct Told(Option<Binary64>);

impl Meter for Told {
    fn fed(self, _candle: Candle) -> Told {
        self
    }

    fn reading(&self) -> Option<Binary64> {
        self.0
    }

    fn feed(&mut self, _candle: &Candle) {}

    fn read(&self) -> Option<Binary64> {
        self.0
    }
}

#[test]
fn boll_fade_signals_up_after_red_close_below_lower_band() {
    let mut strategy = BollFade::new();
    for offset in 0..20 {
        strategy.warmup(&candle(100.0, 101.0, 99.0, 100.0, offset));
    }

    let last = candle(100.0, 101.0, 89.0, 90.0, 21);
    let signal = strategy
        .on_closed_candle(&last)
        .expect("capitulation below the band should signal");

    assert_eq!(signal.prediction, Prediction::Up);
    assert_eq!(float(signal.rsi), 50.0);
    assert_eq!(signal.strategy_name, "boll_fade");
    assert_eq!(signal.signal_candle_close_time_ms, last.close_time_ms);
}

#[test]
fn boll_fade_signals_down_after_green_close_above_upper_band() {
    let mut strategy = BollFade::new();
    assert_eq!(strategy.candle_log_extras(), "boll_period=20 | ready=false");
    for offset in 0..20 {
        strategy.warmup(&candle(100.0, 101.0, 99.0, 100.0, offset));
    }
    assert_eq!(strategy.candle_log_extras(), "boll_period=20 | ready=true");
    let signal = strategy.on_closed_candle(&candle(100.0, 111.0, 99.0, 110.0, 21)).unwrap();
    assert_eq!(signal.prediction, Prediction::Down);
    assert_eq!(strategy.current_series(), None);
    assert_eq!(strategy.candles.len(), 20);
}

#[test]
fn boll_fade_keeps_quiet_on_a_narrow_body() {
    let mut strategy = BollFade::new();
    for offset in 0..20 {
        strategy.warmup(&candle(100.0, 101.0, 99.0, 100.0, offset));
    }
    assert!(strategy.on_closed_candle(&candle(100.0, 130.0, 89.0, 90.0, 21)).is_none());
    let mut young = BollFade::new();
    assert!(young.on_closed_candle(&candle(100.0, 101.0, 89.0, 90.0, 21)).is_none());
}

#[test]
fn streak_rsi_signals_up_after_red_capitulation() {
    let mut strategy = StreakRsi::new();
    for offset in 0..16 {
        let close = 120.0 - offset as f64;
        strategy.warmup(&candle(
            close + 1.0,
            close + 1.2,
            close - 0.2,
            close,
            offset,
        ));
    }

    let signal = strategy
        .on_closed_candle(&candle(105.0, 105.5, 100.5, 101.0, 17))
        .expect("three red candles, low RSI and wide body should signal");

    assert_eq!(signal.prediction, Prediction::Up);
}

#[test]
fn streak_rsi_takes_its_bounds_as_given() {
    let mut strategy = StreakRsi::with_meters(Told(None), Told(None));
    assert_eq!(strategy.candle_log_extras(), "rsi7=N/A | atr14=N/A | streak=mixed");
    for offset in 0..2 {
        strategy.warmup(&candle(100.0, 102.0, 99.5, 101.5, offset));
    }
    let last = candle(100.0, 105.0, 100.0, 105.0, 3);
    strategy.rsi = Told(Some(number(64.999)));
    strategy.atr = Told(Some(number(1.0)));
    assert!(strategy.evaluate(&last).is_none());
    assert!(strategy.on_closed_candle(&last).is_none());
    strategy.rsi = Told(Some(number(65.0)));
    strategy.atr = Told(Some(number(5.0)));
    let signal = strategy.on_closed_candle(&last).unwrap();
    assert_eq!(signal.prediction, Prediction::Down);
    assert_eq!(float(signal.rsi), 65.0);
    assert_eq!(strategy.candle_log_extras(), "rsi7=65.00 | atr14=5.0000 | streak=green");
    strategy.atr = Told(Some(number(5.001)));
    assert!(strategy.on_closed_candle(&last).is_none());
    strategy.rsi = Told(None);
    strategy.atr = Told(Some(number(1.0)));
    assert!(strategy.on_closed_candle(&last).is_none());
}

#[test]
fn donch_zscore_signals_up_at_recent_low_with_negative_pressure() {
    let mut strategy = DonchZscore::new();
    for offset in 0..23 {
        strategy.warmup(&candle(100.0, 100.2, 99.8, 100.0, offset));
    }

    let signal = strategy
        .on_closed_candle(&candle(100.0, 100.5, 90.0, 90.0, 24))
        .expect("recent low with strong negative z-score should signal");

    assert_eq!(signal.prediction, Prediction::Up);
    let z = float(strategy.last_z.unwrap());
    assert!(z < -4.0);
    assert_eq!(float(signal.rsi), (z.abs() * 10.0).min(100.0));
    assert_eq!(strategy.candle_log_extras(), format!("z24={z:.3}"));
}

#[test]
fn reversal_pro_requires_all_capitulation_filters() {
    let mut strategy = ReversalPro::new();
    for offset in 0..21 {
        strategy.warmup(&candle(100.0, 100.2, 99.8, 100.0, offset));
    }
    strategy.warmup(&candle(100.0, 100.5, 98.5, 99.0, 22));
    strategy.warmup(&candle(99.0, 99.5, 97.5, 98.0, 23));

    let signal = strategy
        .on_closed_candle(&candle(98.0, 98.5, 88.5, 90.0, 24))
        .expect("full reversal-pro capitulation should signal");

    assert_eq!(signal.prediction, Prediction::Up);
}

#[test]
fn reversal_pro_takes_its_bounds_as_given() {
    let mut strategy = ReversalPro::with_meters(Told(Some(number(25.0))), Told(Some(number(6.0))));
    for offset in 0..21 {
        strategy.warmup(&candle(100.0, 100.2, 99.8, 100.0, offset));
    }
    strategy.warmup(&candle(100.0, 100.5, 98.5, 99.0, 22));
    strategy.warmup(&candle(99.0, 99.5, 97.5, 98.0, 23));
    let last = candle(98.0, 98.5, 88.5, 90.0, 24);
    let signal = strategy.on_closed_candle(&last).unwrap();
    assert_eq!(signal.prediction, Prediction::Up);
    assert_eq!(float(signal.rsi), 25.0);
    strategy.rsi = Told(Some(number(25.5)));
    assert!(strategy.evaluate(&last).is_none());
    strategy.rsi = Told(Some(number(25.0)));
    strategy.atr = Told(Some(number(7.0)));
    assert!(strategy.evaluate(&last).is_none());
}

#[test]
fn trio_vote2_emits_when_multiple_voters_agree() {
    let mut strategy = TrioVote2::new();
    assert_eq!(strategy.candle_log_extras(), "votes=N/A");
    for offset in 0..20 {
        strategy.warmup(&candle(100.0, 100.2, 99.8, 100.0, offset));
    }
    strategy.warmup(&candle(100.0, 100.5, 98.5, 99.0, 21));
    strategy.warmup(&candle(99.0, 99.5, 97.5, 98.0, 22));

    let signal = strategy
        .on_closed_candle(&candle(98.0, 98.5, 88.5, 90.0, 23))
        .expect("at least two contrarian voters should agree");

    assert_eq!(signal.prediction, Prediction::Up);
    assert_eq!(signal.strategy_name, "trio_vote2");
    assert_eq!(strategy.candle_log_extras(), "votes=100.0%");
}

#[test]
fn trio_vote2_needs_a_second_voter() {
    let mut strategy = TrioVote2::with_meters(Told(None), Told(None));
    for offset in 0..20 {
        strategy.warmup(&candle(100.0, 101.0, 99.0, 100.0, offset));
    }
    // Only the bands are crossed: no readings, and too few candles for a score.
    assert!(strategy.on_closed_candle(&candle(100.0, 101.0, 89.0, 90.0, 21)).is_none());
    assert_eq!(float(strategy.last_vote_pct.unwrap()), 100.0);
    assert!(strategy.current_atr().is_none());
}

fn config_with_strategy(strategy: &str) -> StrategyConfig {
    StrategyConfig {
        strategy: strategy.to_string(),
        rsi_overbought: number(65.0),
        rsi_oversold: number(35.0),
        ensemble_min_votes: 1,
    }
}

#[test]
fn creates_all_known_strategies() {
    for strategy_name in KNOWN_STRATEGIES {
        let strategy = create_strategy(&config_with_strategy(strategy_name))
            .expect("strategy should be created");
        assert_eq!(strategy.name(), strategy_name);
    }
}

#[test]
fn rejects_unknown_strategy() {
    assert!(create_strategy(&config_with_strategy("missing")).is_err());
}

#[test]
fn an_unknown_strategy_is_answered_with_the_known_ones() {
    let message = create_strategy(&config_with_strategy("missing")).unwrap_err();
    assert_eq!(
        message,
        format!(
            "Stratégie 'missing' inconnue. Stratégies disponibles: {}",
            KNOWN_STRATEGIES.join(", ")
        )
    );
    assert!(matches!(
        create_strategy(&config_with_strategy("trio_vote2")),
        Ok(CreatedStrategy::TrioVote2(_))
    ));
    assert!(matches!(
        create_strategy(&config_with_strategy("eth_1h_rules_17_min_votes_1")),
        Ok(CreatedStrategy::Elsewhere { name: "eth_1h_rules_17_min_votes_1", min_votes: 1 })
    ));
}

#[test]
fn rule_tables_refer_to_their_features() {
    let sizes = [
        eth_1h_rules_210_min_votes_1::FEATURES.len(),
        eth_5m_rules_542_min_votes_1::FEATURES.len(),
        five_year_70pct_btc_1h_rules_586_min_votes_1::FEATURES.len(),
        five_year_70pct_btc_5m_rules_71_min_votes_1::FEATURES.len(),
        five_year_70pct_eth_1h_rules_632_min_votes_1::FEATURES.len(),
    ];
    assert_eq!(sizes, [74, 81, 69, 72, 72]);
    for rule in &eth_1h_rules_210_min_votes_1::RULES {
        for cond in &rule.1 {
            assert!((cond.1 as usize) < sizes[0] && cond.4 <= 19);
            assert!(cond.0 != Op::Any || *cond == ANY);
        }
    }
    for rule in &eth_5m_rules_542_min_votes_1::RULES {
        for cond in &rule.1 {
            assert!((cond.1 as usize) < sizes[1] && cond.4 <= 19);
            assert!(cond.0 != Op::Any || *cond == ANY);
        }
    }
    for rule in &five_year_70pct_btc_1h_rules_586_min_votes_1::RULES {
        for cond in &rule.1 {
            assert!((cond.1 as usize) < sizes[2] && cond.4 <= 19 && cond.0 != Op::Any);
        }
    }
    for rule in &five_year_70pct_btc_5m_rules_71_min_votes_1::RULES {
        for cond in &rule.1 {
            assert!((cond.1 as usize) < sizes[3] && cond.4 <= 19 && cond.0 != Op::Any);
        }
    }
    for rule in &five_year_70pct_eth_1h_rules_632_min_votes_1::RULES {
        for cond in &rule.1 {
            assert!((cond.1 as usize) < sizes[4] && cond.4 <= 19 && cond.0 != Op::Any);
        }
    }
    assert_eq!(eth_1h_rules_210_min_votes_1::FEATURES[43], Feature::MinuteOfDay);
    assert_eq!(five_year_70pct_btc_1h_rules_586_min_votes_1::FEATURES[44], Feature::MinuteOfDay);
}

fn runs_quietly(strategy: &mut dyn Strategy, name: &str) {
    assert_eq!(strategy.name(), name);
    assert_eq!(strategy.candle_log_extras(), "green=0 | red=0 | total=0 | min_votes=1");
    strategy.warmup(&candle(100.0, 101.0, 99.0, 100.5, 0));
    // A candle that closes where it opens is not voted on.
    assert!(strategy.on_closed_candle(&candle(100.0, 101.0, 99.0, 100.0, 5)).is_none());
    assert_eq!(strategy.candle_log_extras(), "green=0 | red=0 | total=0 | min_votes=1");
    assert!(strategy.current_series().is_none());
    assert!(strategy.current_atr().is_some());
    assert!(!strategy.requires_microstructure());
    assert!(strategy.last_microstructure_decision_summary().is_none());
}

#[test]
fn ensembles_start_out_quiet() {
    runs_quietly(&mut EthH1Rules210::new(1), "eth_1h_rules_210_min_votes_1");
    runs_quietly(&mut EthRules542::new(1), "eth_5m_rules_542_min_votes_1");
    runs_quietly(
        &mut FiveYear70PctBtcH1Rules586::new(1),
        "five_year_70pct_btc_1h_rules_586_min_votes_1",
    );
    runs_quietly(
        &mut FiveYear70PctBtcM5Rules71::new(1),
        "five_year_70pct_btc_5m_rules_71_min_votes_1",
    );
    runs_quietly(
        &mut FiveYear70PctEthH1Rules632::new(1),
        "five_year_70pct_eth_1h_rules_632_min_votes_1",
    );
}

fn series_of(strategy: &mut dyn Strategy) {
    let red = candle(2.0, 2.0, 1.0, 1.0, 0);
    let green = candle(1.0, 2.0, 1.0, 2.0, 5);
    strategy.warmup(&red);
    strategy.warmup(&red);
    assert_eq!(strategy.current_series(), None);
    strategy.warmup(&green);
    assert_eq!(strategy.current_series(), None);
    strategy.warmup(&green);
    strategy.warmup(&green);
    assert_eq!(strategy.current_series(), Some(true));
    for _ in 0..3 {
        strategy.warmup(&red);
    }
    assert_eq!(strategy.current_series(), Some(false));
    strategy.warmup(&candle(1.0, 2.0, 1.0, 1.0, 10));
    assert_eq!(strategy.current_series(), None);
}

#[test]
fn series_are_of_the_last_three_candles() {
    series_of(&mut BollFade::new());
    series_of(&mut StreakRsi::new());
    series_of(&mut DonchZscore::new());
    series_of(&mut ReversalPro::new());
    series_of(&mut TrioVote2::new());
    series_of(&mut EthH1Rules210::new(1));
    series_of(&mut EthRules542::new(1));
    series_of(&mut FiveYear70PctBtcH1Rules586::new(1));
    series_of(&mut FiveYear70PctBtcM5Rules71::new(1));
    series_of(&mut FiveYear70PctEthH1Rules632::new(1));
}

/// Candles that wander up and down.
fn wander(n: i64, seed: u64) -> Vec<Candle> {
    let mut state = seed;
    let mut price = 100.0_f64;
    let mut candles = Vec::new();
    for i in 0..n {
        state = state.wrapping_mul(6364136223846793005).wrapping_add(1442695040888963407);
        let step = ((state >> 33) % 2001) as f64 / 500.0 - 2.0;
        let close = (price + step * step * step / 2.0).max(20.0);
        let mut c = candle(price, price.max(close) + 0.1, price.min(close) - 0.1, close, i);
        c.volume = number(1.0 + ((state >> 20) % 97) as f64);
        candles.push(c);
        price = close;
    }
    candles
}

#[test]
fn flat_candles_warm_an_ensemble() {
    let mut seen = EthH1Rules210::new(1);
    let mut warmed = EthH1Rules210::new(1);
    for c in wander(200, 7) {
        seen.warmup(&c);
        warmed.warmup(&c);
    }
    let flat = candle(100.0, 101.0, 99.0, 100.0, 200);
    assert!(seen.on_closed_candle(&flat).is_none());
    assert_eq!(seen.candle_log_extras(), "green=0 | red=0 | total=0 | min_votes=1");
    warmed.warmup(&flat);
    for c in wander(60, 11) {
        assert_eq!(
            format!("{:?}", seen.on_closed_candle(&c)),
            format!("{:?}", warmed.on_closed_candle(&c))
        );
        assert_eq!(seen.candle_log_extras(), warmed.candle_log_extras());
        assert_eq!(seen.current_rsi(), warmed.current_rsi());
        assert_eq!(seen.current_atr(), warmed.current_atr());
    }
}

#[test]
fn selective_signals_are_streak_signals() {
    let mut signals = 0;
    for seed in 0..40 {
        let mut selective = ReversalPro::new();
        let mut streak = StreakRsi::new();
        for c in wander(400, seed) {
            let some = selective.on_closed_candle(&c);
            let more = streak.on_closed_candle(&c);
            if let Some(signal) = some {
                let other = more.unwrap();
                assert_eq!(signal.prediction, other.prediction);
                assert_eq!(float(signal.rsi), float(other.rsi));
                signals += 1;
            }
        }
    }
    assert!(signals > 0);
}

#[test]
fn strategies_on_candles_ignore_snapshots() {
    let snapshot = MicrostructureSnapshot::new(candle(1.0, 2.0, 1.0, 2.0, 0), Vec::new(), None);
    let mut strategies: Vec<Box<dyn Strategy>> = vec![
        Box::new(BollFade::new()),
        Box::new(StreakRsi::new()),
        Box::new(DonchZscore::new()),
        Box::new(ReversalPro::new()),
        Box::new(TrioVote2::new()),
        Box::new(EthH1Rules210::new(1)),
        Box::new(EthRules542::new(1)),
        Box::new(FiveYear70PctBtcH1Rules586::new(1)),
        Box::new(FiveYear70PctBtcM5Rules71::new(1)),
        Box::new(FiveYear70PctEthH1Rules632::new(1)),
    ];
    for strategy in strategies.iter_mut() {
        assert!(!strategy.requires_microstructure());
        assert!(strategy.on_microstructure_snapshot(&snapshot).is_none());
        assert!(strategy.last_microstructure_decision_summary().is_none());
        assert!(!strategy.requires_microstructure());
        assert!(strategy.current_atr().is_none());
    }
}
