use rsi_service::history::PriceHistory;
use rsi_service::ingest::{step, Action, FeedEvent, TradeEvent};

fn trade(token: &str, price: f64, time: &str) -> FeedEvent {
    FeedEvent::Trade(TradeEvent {
        block_time: time.to_string(),
        token_address: token.to_string(),
        price_bits: price.to_bits(),
    })
}

#[test]
fn trade_emits_its_fields_and_window() {
    let mut h = PriceHistory::new();
    match step(&mut h, trade("T1", 2.5, "t0")) {
        Action::Emit(e) => {
            assert_eq!(e.token, "T1");
            assert_eq!(e.price_bits, 2.5f64.to_bits());
            assert_eq!(e.block_time, "t0");
            assert_eq!(e.window, vec![2.5f64.to_bits()]);
        }
        _ => panic!("a trade must be emitted"),
    }
}

#[test]
fn fifteen_rising_trades_keep_the_last_fourteen() {
    let mut h = PriceHistory::new();
    let mut last = None;
    for p in 1..=15 {
        last = Some(step(&mut h, trade("T1", p as f64, "t")));
    }
    match last.unwrap() {
        Action::Emit(e) => {
            let expected: Vec<u64> = (2..=15).map(|p| (p as f64).to_bits()).collect();
            assert_eq!(e.window, expected);
            assert_eq!(e.token, "T1");
        }
        _ => panic!("a trade must be emitted"),
    }
}

#[test]
fn malformed_record_between_trades_changes_nothing() {
    let mut h = PriceHistory::new();
    let mut emitted = 0;
    for ev in [trade("T1", 1.0, "a"), FeedEvent::Malformed, trade("T1", 2.0, "b")] {
        match step(&mut h, ev) {
            Action::Emit(_) => emitted += 1,
            Action::ReportMalformed => {
                assert_eq!(h.prices(&"T1".to_string()), vec![1.0f64.to_bits()]);
            }
            Action::ReportReceiveFailure => panic!("no receive failure was fed"),
        }
    }
    assert_eq!(emitted, 2);
    assert_eq!(h.prices(&"T1".to_string()), vec![1.0f64.to_bits(), 2.0f64.to_bits()]);
}

#[test]
fn receive_failure_is_reported_and_changes_nothing() {
    let mut h = PriceHistory::new();
    step(&mut h, trade("T1", 1.0, "a"));
    assert!(matches!(step(&mut h, FeedEvent::ReceiveFailed), Action::ReportReceiveFailure));
    assert_eq!(h.prices(&"T1".to_string()), vec![1.0f64.to_bits()]);
    assert!(h.prices(&"T2".to_string()).is_empty());
}

#[test]
fn malformed_record_leaves_other_tokens_alone() {
    let mut h = PriceHistory::new();
    step(&mut h, trade("A", 1.0, "a"));
    step(&mut h, trade("B", 2.0, "b"));
    assert!(matches!(step(&mut h, FeedEvent::Malformed), Action::ReportMalformed));
    assert_eq!(h.prices(&"A".to_string()), vec![1.0f64.to_bits()]);
    assert_eq!(h.prices(&"B".to_string()), vec![2.0f64.to_bits()]);
}
