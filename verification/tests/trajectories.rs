use updown_trader::binary64::Binary64;
use updown_trader::trajectory::{
    check_seal, complaint, compress_trajectory, count_non_empty_lines, finalize_trajectory_sync,
    hex, inspect_uncompressed, is_compressed, open_trajectory_reader, record_stream,
    record_trajectory, recover_trajectory_index_record, sha256_file, temporary_path,
    trajectory_path, trajectory_path_or, verify_trajectory, Fault, Moment, TrajectoryError,
    TrajectoryIndexRecord, TrajectoryMetadata,
};
use updown_trader::trajectory_analysis::{
    analyze_outcome, build_risk_path, is_alike, latest, moments_fit, net_exit_pnl, sort_by_time,
    BinancePoint, ExitCostAssumptions, QuotePoint, RiskPathMetrics,
    StrictFill, TrajectoryEvent, Value,
};
use updown_trader::trajectory_index::{comes_before, upsert_trajectory_index};

fn number(x: f64) -> Binary64 {
    Binary64 { bits: x.to_bits() }
}

fn float(x: Binary64) -> f64 {
    f64::from_bits(x.bits)
}

fn metadata() -> TrajectoryMetadata {
    TrajectoryMetadata {
        session_id: "session-1".to_string(),
        market_slot: "btc_5m".to_string(),
        entry_time_ms: 1_700_000_000_000,
        slug: "btc-updown-5m-1700000000".to_string(),
        signal_ids: vec!["signal-1".to_string()],
        completion_status: "RESOLVED_COMPLETE".to_string(),
        gap_count: 0,
    }
}

fn now() -> Moment {
    Moment { seconds: 1_700_000_300, nanos: 5 }
}

#[test]
fn finalized_trajectory_round_trips_and_verifies() {
    let source = b"{\"sequence\":1}\n{\"sequence\":2}\n".to_vec();
    let path = trajectory_path(metadata().entry_time_ms, "session-1");
    let name = temporary_path(&path.file);

    let (record, packed) =
        finalize_trajectory_sync(&source, &name, path.file.clone(), metadata(), now()).unwrap();
    let verification = verify_trajectory(&record, &path.file, &packed).unwrap();

    assert_eq!(verification.observation_count, 2);
    assert_eq!(verification.uncompressed_bytes, source.len() as u64);
    assert_eq!(verification.compressed_bytes, packed.len() as u64);
    assert_ne!(packed, source);
    assert_eq!(open_trajectory_reader(&path.file, &packed).unwrap(), source);
    assert_eq!(record.schema_version, 1);
    assert_eq!(record.session_id, "session-1");
    assert_eq!(record.path, "session-1.jsonl.zst");
    assert_eq!(record.finalized_at, now());
}

#[test]
fn recovered_records_verify_too() {
    let source = b"one\n\n  \t\r\ntwo".to_vec();
    let (first, packed) = finalize_trajectory_sync(
        &source, "t.jsonl.zst.tmp", "t.jsonl.zst".to_string(), metadata(), now(),
    )
    .unwrap();
    let record = recover_trajectory_index_record(
        "t.jsonl.zst", "t.jsonl.zst".to_string(), &packed, metadata(), now(),
    )
    .unwrap();
    assert_eq!(record.observation_count, 2);
    assert_eq!(record.sha256, first.sha256);
    assert!(verify_trajectory(&record, "t.jsonl.zst", &packed).is_ok());
}

fn fault(error: TrajectoryError) -> Fault {
    match error {
        TrajectoryError::Fault(fault) => fault,
        TrajectoryError::Codec(error) => panic!("{error}"),
    }
}

#[test]
fn every_fault_is_found_and_told() {
    let empty = finalize_trajectory_sync(
        &b" \n\t\n".to_vec(), "t.zst", "t.zst".to_string(), metadata(), now(),
    );
    let empty = fault(empty.unwrap_err());
    assert_eq!(empty, Fault::EmptySource);
    assert_eq!(complaint(empty, "a/b"), "stream source vide: a/b");

    let hollow = recover_trajectory_index_record(
        "plain.jsonl", "p".to_string(), &b"\n".to_vec(), metadata(), now(),
    );
    let hollow = fault(hollow.unwrap_err());
    assert_eq!(hollow, Fault::EmptyTrajectory);
    assert_eq!(complaint(hollow, "p"), "trajectoire vide: p");

    let plain = b"one\ntwo\n".to_vec();
    let make = || {
        recover_trajectory_index_record("p.jsonl", "p".to_string(), &plain, metadata(), now())
            .unwrap()
    };
    let mut record = make();
    record.compressed_bytes = 9;
    let size = fault(verify_trajectory(&record, "p.jsonl", &plain).unwrap_err());
    assert_eq!(size, Fault::SizeMismatch { index: 9, disk: 8 });
    assert_eq!(complaint(size, "p"), "taille trajectoire inattendue p: index=9 disque=8");

    let mut record = make();
    record.sha256.push('0');
    let sum = fault(verify_trajectory(&record, "p.jsonl", &plain).unwrap_err());
    assert_eq!(sum, Fault::ChecksumMismatch);
    assert_eq!(complaint(sum, "p"), "checksum trajectoire invalide p");

    let mut record = make();
    record.observation_count = 3;
    let count = fault(verify_trajectory(&record, "p.jsonl", &plain).unwrap_err());
    assert_eq!(count, Fault::CountMismatch { index: 3, stream: 2 });
    assert_eq!(complaint(count, "p"), "nombre d'observations inattendu p: index=3 flux=2");

    let mut record = make();
    record.uncompressed_bytes = 70;
    let length = fault(verify_trajectory(&record, "p.jsonl", &plain).unwrap_err());
    assert_eq!(length, Fault::LengthMismatch { index: 70, stream: 8 });
    assert_eq!(complaint(length, "p"), "taille décompressée inattendue p: index=70 flux=8");

    let broken = Fault::SealBroken { source: 2, compressed: 1 };
    assert_eq!(
        complaint(broken, "p"),
        "validation trajectoire échouée: source=2 compressé=1"
    );
    // Nothing in the name tells that the file is compressed, so it is read back as it is.
    let sealed = finalize_trajectory_sync(
        &b"same again\n".repeat(100), "plain", "plain".to_string(), metadata(), now(),
    );
    assert!(matches!(fault(sealed.unwrap_err()), Fault::SealBroken { source: 100, .. }));

    let record = make();
    assert!(matches!(
        verify_trajectory(&record, "p.zst", &plain),
        Err(TrajectoryError::Codec(_))
    ));
}

#[test]
fn lines_count_when_anything_shows() {
    assert_eq!(inspect_uncompressed(&b"".to_vec()), (0, 0));
    assert_eq!(inspect_uncompressed(&b"a".to_vec()), (1, 1));
    assert_eq!(inspect_uncompressed(&b"\n\n".to_vec()), (0, 2));
    assert_eq!(inspect_uncompressed(&b" a \n\x0b\n\x0c\nb b\n".to_vec()), (3, 12));
    assert_eq!(count_non_empty_lines(&b"x\r\n\r\ny".to_vec()), 2);
}

#[test]
fn checksums_are_the_usual_ones() {
    assert_eq!(
        sha256_file(&b"abc".to_vec()),
        "ba7816bf8f01cfea414140de5dae2223b00361a396177a9cb410ff61f20015ad"
    );
    assert_eq!(
        sha256_file(&Vec::new()),
        "e3b0c44298fc1c149afbf4c8996fb92427ae41e4649b934ca495991b7852b855"
    );
    assert_eq!(hex(&vec![0, 9, 10, 159, 240, 255]), "00090a9ff0ff");
}

#[test]
fn trajectories_are_kept_by_day() {
    let path = trajectory_path(1_700_000_000_000, "session-1");
    assert_eq!(path.directory, "trajectories");
    assert_eq!(path.date, "2023-11-14");
    assert_eq!(path.file, "session-1.jsonl.zst");
    let dates = [
        (0, "1970-01-01"),
        (-1, "1969-12-31"),
        (951_782_400_000, "2000-02-29"),
        (-62_167_219_200_000, "0000-01-01"),
        (-62_167_219_200_001, "-0001-12-31"),
        (253_402_300_799_999, "9999-12-31"),
        (253_402_300_800_000, "+10000-01-01"),
        (8_210_266_876_799_999, "+262142-12-31"),
        (-8_334_601_228_800_000, "-262143-01-01"),
    ];
    for (ms, date) in dates {
        assert_eq!(trajectory_path(ms, "s").date, date);
    }
    // Past the calendar the day is that of the fallback.
    assert_eq!(trajectory_path_or(8_210_266_876_800_000, 0, "s").unwrap().date, "1970-01-01");
    assert_eq!(trajectory_path_or(-8_334_601_228_800_001, 0, "s").unwrap().date, "1970-01-01");
    assert!(trajectory_path_or(i64::MAX, i64::MIN, "s").is_none());
    assert!(trajectory_path(i64::MAX, "s").date.starts_with("20"));
    assert_eq!(temporary_path("a/b.zst"), "a/b.zst.tmp");
    assert!(is_compressed("a.zst.tmp") && !is_compressed("a.zs") && !is_compressed("zst"));
}

fn record(session_id: &str, path: &str) -> TrajectoryIndexRecord {
    TrajectoryIndexRecord {
        schema_version: 1,
        session_id: session_id.to_string(),
        market_slot: "btc_5m".to_string(),
        entry_time_ms: 1,
        slug: "slug".to_string(),
        signal_ids: Vec::new(),
        completion_status: "RESOLVED_COMPLETE".to_string(),
        gap_count: 0,
        path: path.to_string(),
        sha256: "hash".to_string(),
        observation_count: 1,
        uncompressed_bytes: 1,
        compressed_bytes: 1,
        finalized_at: now(),
    }
}

#[test]
fn trajectory_index_upsert_is_idempotent_by_session() {
    let records = upsert_trajectory_index(Vec::new(), record("session-1", "first"));
    let records = upsert_trajectory_index(records, record("session-1", "second"));

    assert_eq!(records[0].path, "second");
    assert_eq!(records.len(), 1);
}

#[test]
fn the_index_is_in_order_of_sessions() {
    let read = vec![record("b", "1"), record("a", "2"), record("b", "3"), record("é", "4")];
    let index = upsert_trajectory_index(read, record("ab", "5"));
    let shown: Vec<(&str, &str)> =
        index.iter().map(|r| (r.session_id.as_str(), r.path.as_str())).collect();
    assert_eq!(shown, vec![("a", "2"), ("ab", "5"), ("b", "3"), ("é", "4")]);
    let words = ["", "a", "ab", "b", "Z", "é", "\u{10000}", "\u{ffff}"];
    for a in words {
        for b in words {
            assert_eq!(comes_before(a, b), a < b);
        }
    }
}

fn field(name: &str, x: f64) -> (String, Value) {
    (name.to_string(), Value::Number { number: number(x), whole: None })
}

fn quote(at_ms: i64, ask: f64, bid: f64) -> TrajectoryEvent {
    TrajectoryEvent {
        received_at_unix_ms: at_ms,
        event_type: "quote".to_string(),
        payload: vec![
            ("outcome".to_string(), Value::Text { text: "UP".to_string(), spells: None }),
            (
                "observed_at_unix_ms".to_string(),
                Value::Number { number: number(at_ms as f64), whole: Some(at_ms) },
            ),
            field("best_ask", ask),
            field("best_bid", bid),
            field("best_bid_size", 10.0),
            field("bid_shares_available", 20.0),
            field("sell_vwap_5", bid),
        ],
    }
}

fn costs() -> ExitCostAssumptions {
    ExitCostAssumptions { fee_bps: number(0.0), slippage_bps: number(0.0) }
}

#[test]
fn strict_fill_rejects_half_and_accepts_price_below_half() {
    let events = vec![quote(1_000, 0.50, 0.49), quote(1_020, 0.49, 0.48)];

    let analysis = analyze_outcome(&events, "UP", 1_000, 10_000, costs());

    assert_eq!(
        analysis.strict_fill.map(|fill| fill.elapsed_from_signal_ms),
        Some(20)
    );
}

#[test]
fn quote_at_signal_never_uses_a_future_observation() {
    let events = vec![quote(1_001, 0.49, 0.48)];

    let analysis = analyze_outcome(&events, "UP", 1_000, 10_000, costs());

    assert!(analysis.quote_at_signal.is_none());
    assert_eq!(
        analysis.strict_fill.map(|fill| fill.elapsed_from_signal_ms),
        Some(1)
    );
}

#[test]
fn risk_checkpoint_is_relative_to_strict_fill() {
    let events = vec![
        quote(1_000, 0.49, 0.48),
        quote(15_000, 0.48, 0.44),
        quote(16_000, 0.47, 0.46),
    ];

    let analysis = analyze_outcome(&events, "UP", 1_000, 40_000, costs());
    let risk = analysis.risk.unwrap();
    let checkpoint = &risk.checkpoints.iter().find(|c| c.0 == "t15s").unwrap().1;

    assert_eq!(checkpoint.best_bid.map(float), Some(0.46));
}

#[test]
fn risk_checkpoint_after_resolution_is_unavailable() {
    let events = vec![quote(1_000, 0.49, 0.48)];

    let analysis = analyze_outcome(&events, "UP", 1_000, 10_000, costs());
    let risk = analysis.risk.unwrap();
    let checkpoint = &risk.checkpoints.iter().find(|c| c.0 == "t15s").unwrap().1;

    assert!(checkpoint.unavailable_after_resolution);
}

#[test]
fn adverse_threshold_records_recovery_to_half() {
    let events = vec![
        quote(1_000, 0.49, 0.48),
        quote(2_000, 0.44, 0.40),
        quote(3_000, 0.55, 0.52),
    ];

    let analysis = analyze_outcome(&events, "UP", 1_000, 4_000, costs());
    let risk = analysis.risk.unwrap();
    let threshold = &risk.below_thresholds.iter().find(|t| t.0 == "below_0_45").unwrap().1;

    assert!(threshold.recovered_to_half);
    assert_eq!(threshold.first_elapsed_from_fill_ms, Some(1_000));
    assert_eq!(threshold.duration_ms, 1_000);
    assert_eq!(threshold.first_gross_pnl_5_usdc.map(float), Some((0.40 - 0.50) * 5.0));
}

#[test]
fn the_whole_risk_path_is_told() {
    let mut underlying = TrajectoryEvent {
        received_at_unix_ms: 15_500,
        event_type: "binance_quote".to_string(),
        payload: vec![field("open", 100.0)],
    };
    underlying.payload.push((
        "close".to_string(),
        Value::Text { text: "101".to_string(), spells: Some(number(101.0)) },
    ));
    let events = vec![
        quote(20_000, 0.60, 0.56),
        quote(1_000, 0.49, 0.48),
        underlying,
        quote(5_000, 0.45, 0.40),
        quote(9_000, 0.45, 0.40),
        quote(50_000, 0.10, 0.01),
    ];
    assert!(moments_fit(&events, "up", 500, 40_000));
    let charged = ExitCostAssumptions { fee_bps: number(10.0), slippage_bps: number(-3.0) };
    let risk = analyze_outcome(&events, "up", 500, 40_000, charged).risk.unwrap();
    let mae = risk.mae_best_bid.unwrap();
    assert_eq!((mae.observed_at_unix_ms, mae.elapsed_from_fill_ms, float(mae.value)), (5_000, 4_000, 0.40));
    let mfe = risk.mfe_best_bid.unwrap();
    assert_eq!((mfe.observed_at_unix_ms, float(mfe.value)), (20_000, 0.56));
    let fall = risk.maximum_drawdown.unwrap();
    assert_eq!((fall.peak_observed_at_unix_ms, fall.trough_observed_at_unix_ms), (1_000, 5_000));
    assert_eq!(float(fall.drawdown), 0.48 - 0.40);
    let first = &risk.checkpoints[1].1;
    assert_eq!(first.target_elapsed_from_fill_ms, 15_000);
    assert_eq!(first.observed_at_unix_ms, Some(9_000));
    assert_eq!(first.time_remaining_ms, 24_000);
    assert_eq!(first.spread.map(float), Some(0.45 - 0.40));
    assert_eq!(
        first.binance_signed_move_bps.map(float),
        Some((101.0 / 100.0 - 1.0) * 10_000.0 * 1.0)
    );
    let proceeds = 0.40 * (1.0 - 0.0 / 10_000.0) * 5.0;
    assert_eq!(
        first.net_pnl_5_usdc.map(float),
        Some(proceeds - proceeds * 10.0 / 10_000.0 - 0.50 * 5.0)
    );
    assert_eq!(float(net_exit_pnl(number(0.40), number(5.0), charged)), proceeds - proceeds * 10.0 / 10_000.0 - 2.5);
    assert_eq!(risk.checkpoints[5].0, "t60s");
    assert!(risk.checkpoints[5].1.unavailable_after_resolution);
    assert_eq!(risk.below_thresholds[3].0, "below_0_45");
    let below = &risk.below_thresholds[3].1;
    assert_eq!(below.duration_ms, 15_000);
    assert!(below.recovered_to_half);
    let above = &risk.above_thresholds[0].1;
    assert_eq!((above.first_elapsed_from_fill_ms, above.duration_ms), (Some(19_000), 20_000));
    assert!(!above.recovered_to_half);
    assert_eq!(risk.above_thresholds[1].1.first_best_bid, None);
    // Seen from the other side, the same events say nothing.
    assert!(analyze_outcome(&events, "DOWN", 500, 40_000, costs()).strict_fill.is_none());
}

#[test]
fn moments_too_far_apart_do_not_fit() {
    assert!(moments_fit(&Vec::new(), "UP", -2, i64::MAX));
    assert!(!moments_fit(&vec![quote(-2, 0.4, 0.4)], "UP", -2, i64::MAX));
    assert!(moments_fit(&vec![quote(-2, 0.5, 0.4)], "UP", -2, i64::MAX));
    assert!(!moments_fit(&vec![quote(i64::MAX - 299_999, 0.4, 0.4)], "UP", 0, 0));
    assert!(moments_fit(&vec![quote(i64::MAX - 299_999, 0.4, 0.4)], "DOWN", 0, 0));
}

fn point(at: i64, ask: f64) -> QuotePoint {
    QuotePoint {
        observed_at_unix_ms: at,
        best_bid: None,
        best_bid_size: None,
        bid_shares_available: None,
        sell_vwap_5: None,
        sell_vwap_candidate: None,
        candidate_shares: None,
        best_ask: Some(number(ask)),
        best_ask_size: None,
        ask_shares_at_or_below_limit: None,
        last_trade_price: None,
    }
}

#[test]
fn points_of_one_moment_keep_their_order() {
    let points = vec![point(3, 0.1), point(1, 0.2), point(3, 0.3), point(2, 0.4), point(1, 0.5)];
    let sorted = sort_by_time(&points);
    let shown: Vec<(i64, f64)> =
        sorted.iter().map(|p| (p.observed_at_unix_ms, float(p.best_ask.unwrap()))).collect();
    assert_eq!(shown, vec![(1, 0.2), (1, 0.5), (2, 0.4), (3, 0.1), (3, 0.3)]);
    assert_eq!(latest(&sorted, 2), Some(point(2, 0.4)));
    assert_eq!(latest(&sorted, 1), Some(point(1, 0.5)));
    assert_eq!(latest(&sorted, 0), None);
    assert!(is_alike("uP", "Up") && !is_alike("É", "é") && !is_alike("UP", "UPS"));
}

#[test]
fn steps_of_finalizing_agree_with_the_whole() {
    let source = b"{\"sequence\":1}\n\n{\"sequence\":2}\n".to_vec();
    let packed = compress_trajectory(&source).unwrap();
    assert!(check_seal(&source, "a.jsonl.zst.tmp", &packed).is_ok());
    let record = record_trajectory(&source, "a".to_string(), &packed, metadata(), now());
    let whole =
        finalize_trajectory_sync(&source, "a.jsonl.zst.tmp", "a".to_string(), metadata(), now())
            .unwrap();
    assert_eq!((record, packed), whole);

    let other = compress_trajectory(&b"one\n".to_vec()).unwrap();
    assert!(matches!(
        check_seal(&source, "a.zst", &other),
        Err(TrajectoryError::Fault(Fault::SealBroken { source: 2, compressed: 1 }))
    ));
    assert!(matches!(
        check_seal(&source, "a.zst", &b"torn".to_vec()),
        Err(TrajectoryError::Codec(_))
    ));
    assert!(matches!(
        compress_trajectory(&b" \n".to_vec()),
        Err(TrajectoryError::Fault(Fault::EmptySource))
    ));
}

#[test]
fn order_of_events_does_not_matter() {
    let make = |order: &[usize]| {
        let all = [(1_000, 0.49, 0.48), (2_000, 0.44, 0.40), (9_000, 0.55, 0.52), (500, 0.6, 0.5)];
        order.iter().map(|i| quote(all[*i].0, all[*i].1, all[*i].2)).collect::<Vec<_>>()
    };
    let first = analyze_outcome(&make(&[0, 1, 2, 3]), "UP", 1_000, 20_000, costs());
    for order in [[3, 2, 1, 0], [1, 3, 0, 2], [2, 0, 3, 1]] {
        let other = analyze_outcome(&make(&order), "UP", 1_000, 20_000, costs());
        assert_eq!(format!("{first:?}"), format!("{other:?}"));
    }
}

#[test]
fn risk_paths_stay_in_their_window() {
    let point = |at: i64, bid: f64| QuotePoint {
        observed_at_unix_ms: at,
        best_bid: Some(number(bid)),
        best_bid_size: None,
        bid_shares_available: None,
        sell_vwap_5: Some(number(bid)),
        sell_vwap_candidate: None,
        candidate_shares: None,
        best_ask: Some(number(0.49)),
        best_ask_size: None,
        ask_shares_at_or_below_limit: None,
        last_trade_price: None,
    };
    let price = |at: i64, close: f64| BinancePoint {
        observed_at_unix_ms: at,
        open: number(100.0),
        close: number(close),
    };
    let fill = StrictFill {
        observed_at_unix_ms: 1_000,
        elapsed_from_signal_ms: 0,
        quote: point(1_000, 0.48),
    };
    // Out of order on purpose: the window is cut by time, not by place.
    let all = vec![
        point(90_000, 0.1), point(20_000, 0.44), point(1_000, 0.48), point(10, 0.9),
    ];
    let kept = vec![point(20_000, 0.44), point(1_000, 0.48)];
    let prices = vec![price(900, 101.0), price(30_000, 102.0), price(90_000, 200.0)];
    let kept_prices = vec![price(900, 101.0), price(30_000, 102.0)];
    let first = build_risk_path(&all, &prices, &fill, "UP", 61_000, costs());
    let second = build_risk_path(&kept, &kept_prices, &fill, "UP", 61_000, costs());
    assert_eq!(format!("{first:?}"), format!("{second:?}"));
    let names: Vec<&str> = first.checkpoints.iter().map(|c| c.0).collect();
    assert_eq!(names, ["t120s", "t15s", "t180s", "t300s", "t30s", "t60s"]);
    let names: Vec<&str> = first.below_thresholds.iter().map(|c| c.0).collect();
    assert_eq!(names, ["below_0_30", "below_0_35", "below_0_40", "below_0_45"]);
    let names: Vec<&str> = first.above_thresholds.iter().map(|c| c.0).collect();
    assert_eq!(names, ["above_0_55", "above_0_60", "above_0_65", "above_0_70"]);
    assert_eq!(first.checkpoints[1].1.target_elapsed_from_fill_ms, 15_000);
    assert_eq!(first, second.clone());

    // Thresholds are nested, and the other outcome sees the opposite move.
    let below = &first.below_thresholds;
    for i in 1..4 {
        assert!(below[i - 1].1.duration_ms <= below[i].1.duration_ms);
    }
    let other = build_risk_path(&all, &prices, &fill, "Down", 61_000, costs());
    let moves = |risk: &RiskPathMetrics| {
        risk.checkpoints.iter().map(|c| c.1.binance_signed_move_bps.map(float)).collect::<Vec<_>>()
    };
    for (a, b) in moves(&first).iter().zip(moves(&other)) {
        assert_eq!(a.map(|x| -x), b);
    }
    assert!(moves(&first).iter().any(|x| x.is_some()));
}

#[test]
fn later_quotes_do_not_matter_at_the_signal() {
    let early = vec![quote(900, 0.6, 0.41), quote(990, 0.6, 0.42), quote(990, 0.6, 0.43)];
    let mut all = vec![quote(1_200, 0.4, 0.3)];
    all.extend(early.clone());
    all.push(quote(1_001, 0.4, 0.2));
    let first = analyze_outcome(&all, "UP", 1_000, 10_000, costs()).quote_at_signal.unwrap();
    let second = analyze_outcome(&early, "UP", 1_000, 10_000, costs()).quote_at_signal.unwrap();
    assert_eq!(first, second);
    assert_eq!(first.best_bid.map(float), Some(0.43));
}

#[test]
fn only_the_filling_quote_has_to_be_countable() {
    let far = vec![quote(i64::MAX, 0.6, 0.5), quote(1_000, 0.49, 0.48), quote(i64::MIN, 0.4, 0.3)];
    assert!(moments_fit(&far, "UP", 1_000, 10_000));
    let analysis = analyze_outcome(&far, "UP", 1_000, 10_000, costs());
    assert_eq!(analysis.strict_fill.unwrap().observed_at_unix_ms, 1_000);
    assert!(moments_fit(&far[..1].to_vec(), "UP", i64::MIN, i64::MAX));
    let late = vec![quote(i64::MAX - 1, 0.4, 0.3)];
    assert!(!moments_fit(&late, "UP", 1_000, 10_000));
}

#[test]
fn finalized_files_recover_their_record() {
    let source = b"{\"sequence\":1}\n{\"sequence\":2}\n".to_vec();
    let path = trajectory_path(metadata().entry_time_ms, "session-1");
    let (record, packed) = finalize_trajectory_sync(
        &source,
        &temporary_path(&path.file),
        path.file.clone(),
        metadata(),
        now(),
    )
    .unwrap();
    let later = Moment { seconds: 1_800_000_000, nanos: 0 };
    let mut again =
        recover_trajectory_index_record(&path.file, path.file.clone(), &packed, metadata(), later)
            .unwrap();
    assert_eq!(again.finalized_at, later);
    again.finalized_at = record.finalized_at;
    assert_eq!(again, record);
    let found = verify_trajectory(&again, &path.file, &packed).unwrap();
    assert_eq!(found.uncompressed_bytes, 30);
    assert!(matches!(
        record_stream(&b" \n".to_vec(), "p".to_string(), &packed, metadata(), now()),
        Err(Fault::EmptyTrajectory)
    ));
}
