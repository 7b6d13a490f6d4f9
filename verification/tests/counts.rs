use mexc_lag::decimal::Decimal;
use mexc_lag::monitor::{can_count, Seen};
use mexc_lag::quotes::Exchange;
use mexc_lag::stats::{summarize, Direction, LastTradeEstimate, Stats, SymbolStats};

#[test]
fn lags_are_summed_up() {
    assert!(summarize(&vec![]).is_none());
    let s = summarize(&vec![5, -3, 9, 1]).unwrap();
    assert_eq!((s.sum, s.count), (12, 4));
    assert_eq!((s.min, s.p50, s.p95, s.max), (-3, 1, 5, 9));
    let one = summarize(&vec![7]).unwrap();
    assert_eq!((one.min, one.p50, one.p95, one.max), (7, 7, 7, 7));
    let all: Vec<i64> = (1..=101).rev().collect();
    let s = summarize(&all).unwrap();
    assert_eq!((s.min, s.p50, s.p95, s.max), (1, 51, 96, 101));
}

#[test]
fn percentiles_lie_in_order() {
    let s = summarize(&vec![i64::MAX, i64::MIN, 0, 0, 12]).unwrap();
    assert!(s.min <= s.p50 && s.p50 <= s.p95 && s.p95 <= s.max);
    assert_eq!(s.sum, 11);
}

#[test]
fn lags_of_a_symbol_are_bounded() {
    let mut s = SymbolStats::new();
    for i in 0..2_000 {
        s.add_lag(i);
    }
    assert_eq!(s.lags_ms.len(), 2_000);
    s.add_lag(2_000);
    assert_eq!(s.lags_ms.len(), 1_001);
    assert_eq!(s.lags_ms[0], 1_000);
    assert_eq!(s.lags_ms[1_000], 2_000);
    assert_eq!(s.matched, 2_001);
}

#[test]
fn lags_of_all_symbols_are_bounded() {
    let mut s = Stats::new();
    for i in 0..10_001 {
        s.add_lag("A", i);
    }
    assert_eq!(s.lags_ms.len(), 5_001);
    assert_eq!(s.lags_ms[0], 5_000);
    assert!(s.by_symbol.get("A").unwrap().lags_ms.len() <= 2_000);
}

#[test]
fn counts_add_up() {
    let mut s = Stats::new();
    s.record_quote("A", Exchange::Binance);
    s.record_quote("A", Exchange::Mexc);
    s.record_quote("B", Exchange::Mexc);
    s.record_impulse("B");
    s.record_expired("A");
    s.add_lag("B", 40);
    assert_eq!((s.binance_quotes, s.mexc_quotes, s.impulses), (1, 2, 1));
    assert_eq!((s.matched, s.expired), (1, 1));
    let (a, b) = (s.by_symbol.get("A").unwrap(), s.by_symbol.get("B").unwrap());
    assert_eq!(a.binance_quotes + b.binance_quotes, s.binance_quotes);
    assert_eq!(a.mexc_quotes + b.mexc_quotes, s.mexc_quotes);
    assert_eq!(a.impulses + b.impulses, s.impulses);
    assert_eq!(a.matched + b.matched, s.matched);
    assert_eq!(a.expired + b.expired, s.expired);
}

#[test]
fn only_the_counts_that_go_up_need_room() {
    let mut s = Stats::new();
    s.mexc_quotes = u64::MAX;
    s.impulses = u64::MAX;
    let mut own = SymbolStats::new();
    own.expired = u64::MAX;
    s.by_symbol.put("A".to_string(), own);
    s.record_quote("A", Exchange::Binance);
    assert_eq!((s.binance_quotes, s.mexc_quotes), (1, u64::MAX));
    assert_eq!(s.by_symbol.get("A").unwrap().binance_quotes, 1);
    assert!(can_count(&s, "A", Exchange::Binance, &Seen::Nothing));
    assert!(!can_count(&s, "A", Exchange::Mexc, &Seen::Nothing));
    assert!(!can_count(&s, "A", Exchange::Binance, &Seen::Impulse));
    assert!(!can_count(&s, "A", Exchange::Binance, &Seen::Missed));
    assert!(can_count(&s, "B", Exchange::Binance, &Seen::Missed));
}

#[test]
fn estimates_stay_with_their_symbol() {
    let e = LastTradeEstimate {
        direction: Direction::Up,
        lag_ms: 7,
        gross_cross_bps: Decimal::of_int(1),
        net_fee_bps: Decimal::of_int(2),
        net_zero_fee_bps: Decimal::of_int(3),
        pnl_fee_usdt: Decimal::of_int(4),
        pnl_zero_fee_usdt: Decimal::of_int(5),
    };
    let mut s = Stats::new();
    s.set_trade_estimate("A", e);
    s.record_quote("B", Exchange::Mexc);
    assert_eq!(s.by_symbol.get("A").unwrap().last_trade, Some(e));
    assert_eq!(s.by_symbol.get("B").unwrap().last_trade, None);
}

#[test]
fn the_summary_is_one_line() {
    let mut s = Stats::new();
    s.record_quote("A", Exchange::Binance);
    s.record_impulse("A");
    assert_eq!(s.summary("x"), "quotes Binance=1 MEXC=0 impulses=1 matched=0 expired=0");
    s.add_lag("A", 30);
    s.add_lag("A", 10);
    assert_eq!(
        s.summary("20"),
        "quotes Binance=1 MEXC=0 impulses=1 matched=2 expired=0 lag avg=20ms p50=10ms p95=10ms min=10ms max=30ms"
    );
}
