use mexc_lag::alert::{
    check_price_diff_alert, check_price_diff_alert_at, current_gap, estimate_diff_edge, pnl, Notice,
};
use mexc_lag::config::{Config, LiveConfig};
use mexc_lag::decimal::{Decimal, Overflow, MAX_MANTISSA};
use mexc_lag::quotes::{Exchange, QuoteUpdate};
use mexc_lag::state::{Side, SymbolState};

fn d(text: &str) -> Decimal {
    Decimal::parse(text).unwrap()
}

fn config() -> Config {
    Config {
        symbols: vec!["BTC_USDT".to_string(), "X_USDT".to_string()],
        binance_ws: String::new(),
        mexc_ws: String::new(),
        impulse_bps: d("10"),
        confirm_bps: d("5"),
        impulse_window_ms: 1000,
        max_lag_ms: 1500,
        event_cooldown_ms: 300,
        stats_interval_secs: 10,
        csv_path: String::new(),
        stats_csv_path: String::new(),
        slippage_csv_path: String::new(),
        mexc_taker_fee_bps: d("6"),
        trade_notional_usdt: d("300"),
        telegram_bot_token: String::new(),
        telegram_chat_id: String::new(),
        telegram_login_password: String::new(),
        telegram_subscribers_path: String::new(),
        alert_diff_bps: d("50"),
        alert_min_edge_bps: d("1"),
        alert_min_duration_ms: 500,
        max_quote_age_ms: 2000,
        mexc_api_key: String::new(),
        mexc_api_secret: String::new(),
        trade_enabled: false,
        trade_vol: "1".to_string(),
        trade_leverage: 10,
        trade_timeout_ms: 5000,
    }
}

fn live() -> LiveConfig {
    LiveConfig::of(&config())
}

fn quote(exchange: Exchange, bid: &str, ask: &str, ts: i64) -> QuoteUpdate {
    QuoteUpdate { exchange, symbol: "BTC_USDT".to_string(), bid: d(bid), ask: d(ask), recv_ts_ms: ts }
}

/// Quotes with the middles `b` and `m`, each with a spread of 0.2.
fn state(b: i64, m: i64, ts: i64) -> SymbolState {
    let mut s = SymbolState::new();
    let around = |mid: i64, exchange| {
        quote(exchange, &format!("{}.9", mid - 1), &format!("{}.1", mid), ts)
    };
    s.last_binance = Some(around(b, Exchange::Binance));
    s.last_mexc = Some(around(m, Exchange::Mexc));
    s
}

fn moved(s: &mut SymbolState, b: i64, m: i64, ts: i64) {
    let fresh = state(b, m, ts);
    s.last_binance = fresh.last_binance;
    s.last_mexc = fresh.last_mexc;
}

#[test]
fn the_edge_of_a_trade() {
    let b = quote(Exchange::Binance, "99.9", "100.1", 0);
    let m = quote(Exchange::Mexc, "100.9", "101.1", 0);
    let e = estimate_diff_edge(&b, &m, d("100"), d("3000")).unwrap();
    assert_eq!(e.edge_zero_fee_bps.round_dp(4).text().trim_end_matches('0'), "90.");
    assert_eq!(e.pnl_zero_fee_usdt.round_dp(2).text(), "27.00");
    assert_eq!(e.mexc_spread_bps.round_dp(2).text(), "19.80");
    let low = quote(Exchange::Mexc, "98.9", "99.1", 0);
    let e = estimate_diff_edge(&b, &low, d("-100"), d("3000")).unwrap();
    assert_eq!(e.edge_zero_fee_bps.round_dp(0).text(), "90");
    let zero = quote(Exchange::Binance, "-1", "1", 0);
    let e = estimate_diff_edge(&zero, &m, d("1"), d("3000")).unwrap();
    assert_eq!(e.edge_zero_fee_bps.text(), "0");
    assert_eq!(pnl(d("3000"), d("90")).unwrap().text(), "27");
    assert!(pnl(Decimal::new(MAX_MANTISSA, 0).unwrap(), d("9")).is_none());
}

#[test]
fn nothing_is_watched_without_both_quotes() {
    let mut s = state(100, 101, 0);
    s.last_mexc = None;
    assert_eq!(current_gap(&s, &live()), Ok(None));
    let done = check_price_diff_alert_at(&config(), &live(), &mut s, true, 1_000_000).unwrap();
    assert!(s.active_diff_alert.is_none());
    assert!(done.open_trade.is_none() && done.notice.is_none() && !done.close_trade);
    let mut off = live();
    off.alert_diff_bps = d("0");
    assert_eq!(current_gap(&state(100, 101, 0), &off), Ok(None));
}

#[test]
fn too_large_numbers_change_nothing() {
    let mut s = state(100, 101, 0);
    let large = Decimal::new(MAX_MANTISSA, 0).unwrap();
    if let Some(q) = s.last_mexc.as_mut() {
        q.bid = large;
        q.ask = large;
    }
    s.trade_open = true;
    let done = check_price_diff_alert_at(&config(), &live(), &mut s, true, 1_000_000);
    assert_eq!(done, Err(Overflow));
    assert!(s.trade_open && s.active_diff_alert.is_none());
    let mut s = state(100, 101, i64::MIN);
    assert_eq!(check_price_diff_alert_at(&config(), &live(), &mut s, true, 5), Err(Overflow));
}

#[test]
fn a_difference_is_told_when_it_lasts_and_pays() {
    let (c, l) = (config(), live());
    let mut s = state(100, 101, 1_000_000);
    let done = check_price_diff_alert_at(&c, &l, &mut s, true, 1_000_000).unwrap();
    assert!(done.notice.is_none() && done.open_trade.is_none());
    let active = s.active_diff_alert.unwrap();
    assert_eq!(active.started_ms, 1_000_000);
    assert_eq!(active.side, Side::Above);
    assert!(!active.notified);
    let done = check_price_diff_alert_at(&c, &l, &mut s, true, 1_000_499).unwrap();
    assert!(done.notice.is_none());
    let done = check_price_diff_alert_at(&c, &l, &mut s, true, 1_000_500).unwrap();
    let notice = done.notice.unwrap();
    assert!(matches!(notice, Notice::Valuable { .. }));
    assert_eq!(notice.duration_ms(), 500);
    assert!(s.active_diff_alert.unwrap().notified);
    let done = check_price_diff_alert_at(&c, &l, &mut s, true, 1_000_600).unwrap();
    assert!(done.notice.is_none());
}

#[test]
fn a_difference_that_does_not_pay_is_not_told() {
    let (mut c, l) = (config(), live());
    c.alert_min_edge_bps = d("95");
    let mut s = state(100, 101, 1_000_000);
    check_price_diff_alert_at(&c, &l, &mut s, true, 1_000_000).unwrap();
    let done = check_price_diff_alert_at(&c, &l, &mut s, true, 1_001_000).unwrap();
    assert!(done.notice.is_none());
    assert!(!s.active_diff_alert.unwrap().notified);
}

#[test]
fn what_the_subscribers_read() {
    let (c, l) = (config(), live());
    let mut s = state(100, 101, 1_000_000);
    check_price_diff_alert_at(&c, &l, &mut s, true, 1_000_000).unwrap();
    let done = check_price_diff_alert_at(&c, &l, &mut s, true, 1_000_500).unwrap();
    let text = done.notice.unwrap().text("BTC_USDT", "0.50");
    let lines: Vec<&str> = text.lines().collect();
    assert_eq!(lines[0], "💎 Ценная разница BTC_USDT");
    assert_eq!(lines[1], "MEXC выше Binance");
    assert_eq!(lines[2], "Держится: 0.50 сек");
    assert_eq!(lines[3], "Binance mid: 100.0");
    assert_eq!(lines[4], "MEXC mid: 101.0");
    assert_eq!(lines[5], "MEXC bid/ask: 100.9 / 101.1");
    assert!(lines[6].starts_with("Разница сейчас: 1.0 USDT / 1"));
    assert!(lines[6].ends_with(" bps)"));
    assert!(lines[7].starts_with("Порог: 0.5"));
    assert_eq!(lines[8], "Спред MEXC: 19.802 bps");
    assert!(lines[9].starts_with("0 fee edge старт/макс/сейчас: 90"));
    assert!(lines[10].starts_with("PnL 0 fee сейчас: 27"));
    assert_eq!(lines.len(), 11);

    moved(&mut s, 100, 100, 1_000_700);
    let done = check_price_diff_alert_at(&c, &l, &mut s, true, 1_000_700).unwrap();
    let text = done.notice.unwrap().text("BTC_USDT", "0.70");
    let lines: Vec<&str> = text.lines().collect();
    assert_eq!(lines[0], "Разница закрылась BTC_USDT");
    assert_eq!(lines[1], "Направление: MEXC выше Binance");
    assert_eq!(lines[2], "Держалась: 0.70 сек");
    assert!(lines[3].starts_with("Старт: 1.0 USDT / 1"));
    assert!(lines[4].starts_with("Макс: 1"));
    assert!(lines[5].starts_with("Финал: 0"));
    assert_eq!(lines[6], "Спред MEXC сейчас: 20.000 bps");
    assert!(lines[7].starts_with("Оценка 0 fee старт/макс/финал: 90"));
    assert!(lines[8].starts_with("PnL 0 fee финал: -3"));
    assert_eq!(lines.len(), 9);
}

#[test]
fn trades_need_leave_and_keys() {
    for (enabled, keys) in [(false, true), (true, false), (true, true)] {
        let c = config();
        let mut l = live();
        l.trade_enabled = enabled;
        let mut s = state(101, 100, 1_000_000);
        check_price_diff_alert_at(&c, &l, &mut s, keys, 1_000_000).unwrap();
        let done = check_price_diff_alert_at(&c, &l, &mut s, keys, 1_000_500).unwrap();
        assert!(done.notice.is_some());
        assert_eq!(done.open_trade.is_some(), enabled && keys);
        assert_eq!(s.trade_open, enabled && keys);
        if let Some(order) = done.open_trade {
            assert_eq!(order.direction, 1);
            assert_eq!(order.entry_price.text(), "100.0");
            assert_eq!(order.target_price.text(), "101.0");
            assert_eq!(order.leverage, 10);
        }
    }
}

#[test]
fn a_trade_on_a_higher_price_sells() {
    let mut c = config();
    c.alert_min_duration_ms = 0;
    let mut l = live();
    l.trade_enabled = true;
    let mut s = state(100, 101, 1_000_000);
    let done = check_price_diff_alert_at(&c, &l, &mut s, true, 1_000_000).unwrap();
    assert_eq!(done.open_trade.unwrap().direction, -1);
    assert!(done.notice.is_none());
    assert!(s.active_diff_alert.unwrap().notified && s.trade_open);
    let done = check_price_diff_alert_at(&c, &l, &mut s, true, 1_000_001).unwrap();
    assert!(done.open_trade.is_none());
}

#[test]
fn a_trade_closes_with_its_difference() {
    let mut c = config();
    c.alert_min_duration_ms = 0;
    let mut l = live();
    l.trade_enabled = true;
    let mut s = state(100, 101, 1_000_000);
    check_price_diff_alert_at(&c, &l, &mut s, true, 1_000_000).unwrap();
    moved(&mut s, 100, 100, 1_000_100);
    let done = check_price_diff_alert_at(&c, &l, &mut s, true, 1_000_100).unwrap();
    assert!(done.close_trade && !s.trade_open && s.active_diff_alert.is_none());
    assert_eq!(s.last_diff_alert_closed_ms, 1_000_100);
}

#[test]
fn old_quotes_end_the_watch() {
    let (c, mut l) = (config(), live());
    l.trade_enabled = true;
    let mut s = state(100, 101, 1_000_000);
    check_price_diff_alert_at(&c, &l, &mut s, true, 1_000_000).unwrap();
    s.trade_open = true;
    let done = check_price_diff_alert_at(&c, &l, &mut s, true, 1_002_001).unwrap();
    assert_eq!(done.stale_ages, Some((2_001, 2_001)));
    assert!(done.close_trade && done.notice.is_none());
    assert!(!s.trade_open && s.active_diff_alert.is_none());
    assert_eq!(s.last_diff_alert_closed_ms, 1_002_001);
    let done = check_price_diff_alert_at(&c, &l, &mut s, true, 999_999).unwrap();
    assert_eq!(done.stale_ages, None);
    assert_eq!(s.last_diff_alert_closed_ms, 1_002_001);
}

#[test]
fn a_symbol_rests_for_a_minute() {
    let (c, l) = (config(), live());
    let mut s = state(100, 101, 1_000_000);
    s.last_diff_alert_closed_ms = 940_001;
    check_price_diff_alert_at(&c, &l, &mut s, true, 1_000_000).unwrap();
    assert!(s.active_diff_alert.is_none());
    check_price_diff_alert_at(&c, &l, &mut s, true, 1_000_001).unwrap();
    assert!(s.active_diff_alert.is_some());
}

#[test]
fn the_largest_difference_never_falls() {
    let (c, l) = (config(), live());
    let mut s = state(100, 101, 1_000_000);
    let mut last = d("0");
    for (m, ts) in [(101, 1_000_000), (103, 1_000_100), (102, 1_000_200), (104, 1_000_300)] {
        moved(&mut s, 100, m, ts);
        check_price_diff_alert_at(&c, &l, &mut s, true, ts).unwrap();
        let largest = s.active_diff_alert.unwrap().max_abs_diff_bps;
        assert!(!largest.less(&last));
        last = largest;
    }
    assert_eq!(last.round_dp(0).text(), "400");
    assert_eq!(s.active_diff_alert.unwrap().start_diff_usdt.round_dp(0).text(), "1");
}

#[test]
fn a_look_now_uses_the_clock() {
    let now = chrono::Utc::now().timestamp_millis();
    let mut s = state(100, 101, now);
    let mut c = config();
    c.max_quote_age_ms = 60_000;
    check_price_diff_alert(&c, &live(), &mut s, true).unwrap();
    let active = s.active_diff_alert.unwrap();
    assert!(active.started_ms >= now && active.started_ms < now + 60_000);
}
