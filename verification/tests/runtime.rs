use updown_trader::binary64::Binary64;
use updown_trader::candle::Candle;
use updown_trader::microstructure::{Feature, MicrostructureSnapshot};
use updown_trader::strategies::ethusd_perp_coinm_15m_microstructure_mixed_13::EthUsdPerpMicrostructureMixed13;
use updown_trader::strategies::meche::BollFade;
use updown_trader::strategy::{Prediction, Strategy};
use updown_trader::trading_runtime::{
    amount_from_balance_pct, audit_start, finish, future_open_ms, new_trade_id, next_open_ms,
    process_closed_candle, process_microstructure_snapshot, process_signal_for_candle, start,
    target_close_time_ms, token_for, ClosedCandleAction, Event, Outcome, Plan, Request, Stage,
    Terms,
};

fn number(x: f64) -> Binary64 {
    Binary64 { bits: x.to_bits() }
}

fn float(x: Binary64) -> f64 {
    f64::from_bits(x.bits)
}

fn plan(signal: bool, filtered: bool, dry_run: bool, pct: f64) -> Plan {
    Plan { signal, terms: Terms { filtered, dry_run, trade_amount_pct: number(pct) } }
}

fn run(plan: &Plan, start: (Stage, Request), events: &[Event]) -> Option<(Stage, Request)> {
    let mut now = start;
    for event in events {
        now = process_signal_for_candle(plan, now.0, *event)?;
    }
    Some(now)
}

fn ends(step: Option<(Stage, Request)>, expected: (Outcome, bool, bool)) {
    match step {
        Some((Stage::Done, Request::Finish { outcome, validate, prefetch })) => {
            assert_eq!((outcome, validate, prefetch), expected)
        }
        other => panic!("{other:?}"),
    }
}

#[test]
fn candles_without_a_wanted_signal_end_at_once() {
    ends(
        Some(start(&plan(false, false, true, 0.0))),
        (Outcome::NoSignal, true, true),
    );
    ends(
        Some(start(&plan(false, true, true, 0.0))),
        (Outcome::NoSignal, true, true),
    );
    ends(
        Some(start(&plan(true, true, true, 0.0))),
        (Outcome::Filtered, true, true),
    );
}

#[test]
fn duplicates_and_lost_markets_end_without_an_order() {
    let wanted = plan(true, false, true, 0.0);
    let start = start(&wanted);
    ends(
        run(&wanted, start, &[Event::Active(true)]),
        (Outcome::DuplicateSignal, true, false),
    );
    ends(
        run(&wanted, start, &[Event::Active(false), Event::History(Some(true))]),
        (Outcome::DuplicateSignal, true, false),
    );
    ends(
        run(&wanted, start, &[Event::Active(false), Event::History(None), Event::Market(false)]),
        (Outcome::MarketResolveFailed, true, false),
    );
    assert!(run(&wanted, start, &[Event::Market(true)]).is_none());
}

#[test]
fn orders_are_sized_and_recorded() {
    let wanted = plan(true, false, false, 10.0);
    let start = start(&wanted);
    let mut events =
        vec![Event::Active(false), Event::History(Some(false)), Event::Market(true)];
    assert!(matches!(run(&wanted, start, &events), Some((Stage::Balance, Request::ReadBalance))));
    events.push(Event::Balance(Some(number(123.456))));
    match run(&wanted, start, &events) {
        Some((Stage::Order, Request::PlaceOrder { base: Some(base) })) => {
            assert_eq!(float(base), 12.34)
        }
        other => panic!("{other:?}"),
    }
    let mut refused = events.clone();
    refused.push(Event::Order(false));
    ends(run(&wanted, start, &refused), (Outcome::OrderFailed, true, true));
    events.push(Event::Order(true));
    assert!(matches!(run(&wanted, start, &events), Some((Stage::Record, Request::RecordOrder))));
    events.push(Event::Recorded);
    ends(run(&wanted, start, &events), (Outcome::OrderPlaced, true, true));
}

#[test]
fn dry_runs_and_missing_shares_keep_the_amount() {
    for wanted in [plan(true, false, true, 10.0), plan(true, false, false, 0.0)] {
        let start = start(&wanted);
        let events = [Event::Active(false), Event::History(None), Event::Market(true)];
        assert!(matches!(
            run(&wanted, start, &events),
            Some((Stage::Order, Request::PlaceOrder { base: None }))
        ));
    }
    let wanted = plan(true, false, false, 5.0);
    let events = [
        Event::Active(false),
        Event::History(None),
        Event::Market(true),
        Event::Balance(None),
    ];
    assert!(matches!(
        run(&wanted, start(&wanted), &events),
        Some((Stage::Order, Request::PlaceOrder { base: None }))
    ));
}

#[test]
fn snapshots_are_audited_first() {
    let wanted = plan(true, false, true, 0.0);
    ends(Some(audit_start(false)), (Outcome::AuditFailed, false, false));
    assert!(run(&wanted, audit_start(false), &[Event::Document(true)]).is_none());
    let start = audit_start(true);
    ends(
        run(&wanted, start, &[Event::Document(false)]),
        (Outcome::AuditFailed, false, false),
    );
    ends(
        run(&wanted, start, &[Event::Document(true), Event::Audit(false)]),
        (Outcome::AuditFailed, false, false),
    );
    let audited = [Event::Document(true), Event::Audit(true)];
    assert!(matches!(run(&wanted, start, &audited), Some((Stage::Active, Request::AskActive))));
    ends(
        run(&plan(false, false, true, 0.0), start, &audited),
        (Outcome::NoSignal, true, true),
    );
}

#[test]
fn amounts_are_whole_cents_and_at_least_one() {
    let cases = [(100.0, 10.0), (3.0, 10.0), (1234.567, 7.5), (0.0, 50.0), (f64::NAN, 1.0), (1e300, 100.0)];
    for (balance, pct) in cases {
        let expected = ((balance * pct / 100.0 * 100.0).floor() / 100.0_f64).max(1.0);
        assert_eq!(float(amount_from_balance_pct(number(balance), number(pct))), expected);
    }
}

#[test]
fn moments_follow_the_candle() {
    assert_eq!(next_open_ms(299_999), 300_000);
    assert_eq!(future_open_ms(299_999, 300_000), 600_000);
    assert_eq!(target_close_time_ms(299_999, 300_000), 599_999);
}

#[test]
fn ends_are_told_in_full() {
    let up = "up".to_string();
    let down = "down".to_string();
    assert_eq!(token_for(Prediction::Up, &up, &down), "up");
    assert_eq!(token_for(Prediction::Down, &up, &down), "down");
    assert_eq!(Prediction::Up.text(), "UP");
    assert_eq!(Prediction::Down.text(), "DOWN");
    let id = new_trade_id();
    assert_eq!(id.len(), 36);
    assert_eq!(id.as_bytes()[14], b'4');
    for (i, c) in id.chars().enumerate() {
        match i {
            8 | 13 | 18 | 23 => assert_eq!(c, '-'),
            19 => assert!("89ab".contains(c)),
            _ => assert!("0123456789abcdef".contains(c)),
        }
    }
    assert_ne!(id, new_trade_id());
    match finish(Outcome::OrderPlaced, id.clone(), "key".to_string()) {
        ClosedCandleAction::OrderPlaced { trade_id, signal_key } => {
            assert_eq!((trade_id, signal_key), (id, "key".to_string()))
        }
        other => panic!("{other:?}"),
    }
    assert!(matches!(
        finish(Outcome::Filtered, String::new(), String::new()),
        ClosedCandleAction::Filtered
    ));
}

fn candle(open: f64, high: f64, low: f64, close: f64, offset: i64) -> Candle {
    let open_time_ms = 1_700_000_000_000 + offset * 300_000;
    Candle {
        open_time_ms,
        close_time_ms: open_time_ms + 299_999,
        open: number(open),
        high: number(high),
        low: number(low),
        close: number(close),
        volume: number(1.0),
        is_closed: true,
    }
}

#[test]
fn strategies_see_the_candle() {
    let terms = Terms { filtered: false, dry_run: true, trade_amount_pct: number(0.0) };
    let mut strategy: Box<dyn Strategy> = Box::new(BollFade::new());
    for offset in 0..20 {
        let (signal, plan, step) =
            process_closed_candle(&mut *strategy, &candle(100.0, 101.0, 99.0, 100.0, offset), terms);
        assert!(signal.is_none() && !plan.signal);
        ends(Some(step), (Outcome::NoSignal, true, true));
    }
    let last = candle(100.0, 101.0, 89.0, 90.0, 20);
    let (signal, plan, step) = process_closed_candle(&mut *strategy, &last, terms);
    let signal = signal.unwrap();
    assert_eq!(signal.prediction, Prediction::Up);
    assert_eq!(signal.signal_candle_close_time_ms, last.close_time_ms);
    assert!(plan.signal && plan.terms.dry_run);
    assert!(matches!(step, (Stage::Active, Request::AskActive)));
}

#[test]
fn strategies_see_the_snapshot() {
    let terms = Terms { filtered: false, dry_run: true, trade_amount_pct: number(0.0) };
    let values = vec![(Feature::SignalGreenRatio3, number(0.0))];
    let snapshot = MicrostructureSnapshot::new(
        candle(100.0, 101.0, 99.0, 100.5, 0),
        values,
        Some("missing".to_string()),
    );
    let mut mixed = EthUsdPerpMicrostructureMixed13::new();
    let (signal, summary, plan, step) =
        process_microstructure_snapshot(&mut mixed, &snapshot, terms);
    assert!(signal.is_none() && !plan.signal);
    assert_eq!(summary.unwrap().prediction, None);
    assert!(matches!(step, (Stage::Document, Request::Document)));

    let mut fade = BollFade::new();
    let (signal, summary, _, step) = process_microstructure_snapshot(&mut fade, &snapshot, terms);
    assert!(signal.is_none() && summary.is_none());
    ends(Some(step), (Outcome::AuditFailed, false, false));
}
