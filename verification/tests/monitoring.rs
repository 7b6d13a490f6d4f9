use mexc_lag::config::{Config, LiveConfig};
use mexc_lag::csv::{
    open_csv, open_slippage_csv, open_stats_csv, record_line, slippage_line, write_record,
    write_slippage_record,
};
use mexc_lag::decimal::{Decimal, Overflow, MAX_MANTISSA};
use mexc_lag::monitor::{
    expire_old_pending, expire_old_pending_at, handle_quote, handle_quote_at, new_states, slippage,
    take_quote, LagRecord, Seen, Slippage,
};
use mexc_lag::quotes::{Exchange, QuoteUpdate};
use mexc_lag::report::{
    build_dashboard_snapshot, dashboard_at, dashboard_row, print_stats, screen_at, stats_line,
    stats_lines_at, symbol_line, write_stats_snapshot,
};
use mexc_lag::state::{PendingEvent, SymbolState};
use mexc_lag::stats::{Direction, Stats};
use mexc_lag::table::Table;
use mexc_lag::trade_stats::{line_gain, min_lag, trade_rows};

fn d(text: &str) -> Decimal {
    Decimal::parse(text).unwrap()
}

fn config() -> Config {
    Config {
        symbols: vec!["BTC_USDT".to_string(), "X_USDT".to_string()],
        binance_ws: String::new(),
        mexc_ws: String::new(),
        impulse_bps: d("10"),
        confirm_bps: d("5"),
        impulse_window_ms: 1000,
        max_lag_ms: 1500,
        event_cooldown_ms: 300,
        stats_interval_secs: 10,
        csv_path: String::new(),
        stats_csv_path: String::new(),
        slippage_csv_path: String::new(),
        mexc_taker_fee_bps: d("6"),
        trade_notional_usdt: d("300"),
        telegram_bot_token: String::new(),
        telegram_chat_id: String::new(),
        telegram_login_password: String::new(),
        telegram_subscribers_path: String::new(),
        alert_diff_bps: d("50"),
        alert_min_edge_bps: d("1"),
        alert_min_duration_ms: 500,
        max_quote_age_ms: 2000,
        mexc_api_key: String::new(),
        mexc_api_secret: String::new(),
        trade_enabled: false,
        trade_vol: "1".to_string(),
        trade_leverage: 10,
        trade_timeout_ms: 5000,
    }
}

fn live() -> LiveConfig {
    LiveConfig::of(&config())
}

fn quote(exchange: Exchange, bid: &str, ask: &str, ts: i64) -> QuoteUpdate {
    QuoteUpdate { exchange, symbol: "BTC_USDT".to_string(), bid: d(bid), ask: d(ask), recv_ts_ms: ts }
}

fn binance(bid: &str, ask: &str, ts: i64) -> QuoteUpdate {
    quote(Exchange::Binance, bid, ask, ts)
}

fn mexc(bid: &str, ask: &str, ts: i64) -> QuoteUpdate {
    quote(Exchange::Mexc, bid, ask, ts)
}

fn start() -> (Table<SymbolState>, Stats) {
    (new_states(&config().symbols), Stats::new())
}

fn take(states: &mut Table<SymbolState>, stats: &mut Stats, q: &QuoteUpdate) -> Seen {
    let mut live = live();
    live.alert_diff_bps = d("0");
    let done = handle_quote_at(q, &config(), &live, states, stats, false, q.recv_ts_ms).unwrap();
    done.unwrap().seen
}

/// A move up by 100 basis points at 1000500, with MEXC at 100 before.
fn moved_up() -> (Table<SymbolState>, Stats) {
    let (mut states, mut stats) = start();
    assert!(matches!(take(&mut states, &mut stats, &mexc("99", "101", 1_000_000)), Seen::Nothing));
    assert!(matches!(take(&mut states, &mut stats, &binance("99", "101", 1_000_000)), Seen::Nothing));
    assert!(matches!(take(&mut states, &mut stats, &binance("100", "102", 1_000_500)), Seen::Impulse));
    (states, stats)
}

#[test]
fn watched_symbols_start_unknown() {
    let (states, _) = start();
    assert_eq!(states.keys().len(), 2);
    let s = states.get("BTC_USDT").unwrap();
    assert!(s.last_binance.is_none() && s.last_mexc.is_none() && s.pending.is_none());
    assert!(!s.trade_open && s.last_event_ts_ms == 0);
}

#[test]
fn other_symbols_are_passed_over() {
    let (mut states, mut stats) = start();
    let mut q = binance("1", "2", 5);
    q.symbol = "ETH_USDT".to_string();
    let done = handle_quote_at(&q, &config(), &live(), &mut states, &mut stats, true, 5);
    assert!(matches!(done, Ok(None)));
    assert_eq!(stats.binance_quotes, 0);
    assert!(states.get("ETH_USDT").is_none());
}

#[test]
fn a_move_on_binance_is_noted() {
    let (states, stats) = moved_up();
    let s = states.get("BTC_USDT").unwrap();
    let p = s.pending.unwrap();
    assert_eq!(p.direction, Direction::Up);
    assert_eq!(p.binance_start_mid.text(), "100");
    assert_eq!(p.binance_end_mid.text(), "101");
    assert_eq!(p.mexc_start_bid.text(), "99");
    assert_eq!(p.mexc_start_ask.text(), "101");
    assert_eq!((p.binance_event_ts_ms, p.created_recv_ts_ms), (1_000_500, 1_000_500));
    assert_eq!(s.last_event_ts_ms, 1_000_500);
    assert_eq!((stats.binance_quotes, stats.mexc_quotes, stats.impulses), (2, 1, 1));
}

#[test]
fn small_late_and_crowded_moves_are_not_noted() {
    let (mut states, mut stats) = start();
    take(&mut states, &mut stats, &mexc("99", "101", 1_000_000));
    take(&mut states, &mut stats, &binance("99", "101", 1_000_000));
    assert!(matches!(take(&mut states, &mut stats, &binance("99.09", "101.09", 1_000_100)), Seen::Nothing));
    assert!(matches!(take(&mut states, &mut stats, &binance("110", "112", 1_001_101)), Seen::Nothing));
    assert!(matches!(take(&mut states, &mut stats, &binance("99", "101", 1_001_200)), Seen::Impulse));
    assert!(matches!(take(&mut states, &mut stats, &binance("110", "112", 1_001_400)), Seen::Nothing));
    assert!(matches!(take(&mut states, &mut stats, &binance("99", "101", 1_001_500)), Seen::Impulse));
    assert!(matches!(take(&mut states, &mut stats, &binance("110", "112", 1_001_499)), Seen::Nothing));
    let p = states.get("BTC_USDT").unwrap().pending.unwrap();
    assert_eq!(p.direction, Direction::Down);
    assert_eq!(stats.impulses, 2);
}

#[test]
fn mexc_follows_a_move() {
    let (mut states, mut stats) = moved_up();
    assert!(matches!(take(&mut states, &mut stats, &mexc("99.04", "101.04", 1_000_600)), Seen::Nothing));
    match take(&mut states, &mut stats, &mexc("99.1", "101.1", 1_000_700)) {
        Seen::Followed { record, slippage } => {
            assert_eq!(record.symbol, "BTC_USDT");
            assert_eq!(record.direction, Direction::Up);
            assert_eq!(record.lag_ms, 200);
            assert_eq!(record.binance_move_bps.round_dp(2).text(), "100.00");
            assert_eq!(record.mexc_move_bps.round_dp(2).text(), "10.00");
            assert_eq!(record.mexc_confirm_mid.text(), "100.1");
            assert_eq!((record.binance_event_ts_ms, record.mexc_recv_ts_ms), (1_000_500, 1_000_700));
            assert_eq!(slippage.entry_ask.text(), "101");
            assert_eq!(slippage.exit_bid.text(), "99.1");
            assert_eq!(slippage.gross_cross_bps.round_dp(3).text(), "-188.119");
            assert_eq!(slippage.fees_bps.text(), "12");
            assert_eq!(slippage.net_cross_bps.round_dp(3).text(), "-200.119");
            assert_eq!(slippage.entry_spread_bps.round_dp(1).text(), "200.0");
        }
        _ => panic!("not followed"),
    }
    assert!(states.get("BTC_USDT").unwrap().pending.is_none());
    assert_eq!((stats.matched, stats.expired), (1, 0));
    let own = stats.by_symbol.get("BTC_USDT").unwrap();
    assert_eq!(own.lags_ms, vec![200]);
    let e = own.last_trade.unwrap();
    assert_eq!((e.direction, e.lag_ms), (Direction::Up, 200));
    assert_eq!(e.net_fee_bps.round_dp(3).text(), "-200.119");
    assert_eq!(e.net_zero_fee_bps, e.gross_cross_bps);
    assert_eq!(e.pnl_fee_usdt.round_dp(2).text(), "-60.04");
}

#[test]
fn mexc_must_follow_in_the_same_direction() {
    let (mut states, mut stats) = moved_up();
    assert!(matches!(take(&mut states, &mut stats, &mexc("90", "92", 1_000_600)), Seen::Nothing));
    assert!(states.get("BTC_USDT").unwrap().pending.is_some());
}

#[test]
fn a_late_answer_is_missed() {
    let (mut states, mut stats) = moved_up();
    assert!(matches!(take(&mut states, &mut stats, &mexc("110", "112", 1_002_001)), Seen::Missed));
    assert!(states.get("BTC_USDT").unwrap().pending.is_none());
    assert_eq!((stats.matched, stats.expired), (0, 1));
    assert!(stats.matched + stats.expired <= stats.impulses);
}

#[test]
fn an_answer_at_the_limit_counts() {
    let (mut states, mut stats) = moved_up();
    assert!(matches!(
        take(&mut states, &mut stats, &mexc("110", "112", 1_002_000)),
        Seen::Followed { .. }
    ));
}

#[test]
fn short_trades_cross_the_other_way() {
    let p = PendingEvent {
        direction: Direction::Down,
        binance_start_mid: d("100"),
        binance_end_mid: d("99"),
        mexc_start_mid: d("100"),
        mexc_start_bid: d("100"),
        mexc_start_ask: d("102"),
        binance_event_ts_ms: 0,
        created_recv_ts_ms: 0,
    };
    let s = slippage(&config(), &live(), Direction::Down, &p, &mexc("97", "98", 1)).unwrap();
    assert_eq!(s.gross_cross_bps.round_dp(0).text(), "200");
    assert_eq!(s.net_cross_bps.round_dp(0).text(), "188");
    assert_eq!(s.estimated_pnl_usdt.round_dp(1).text(), "56.4");
    assert_eq!(s.pnl_zero_fee_usdt.round_dp(1).text(), "60.0");
    let mut none = p;
    none.mexc_start_bid = d("0");
    let s = slippage(&config(), &live(), Direction::Down, &none, &mexc("97", "98", 1)).unwrap();
    assert_eq!(s.gross_cross_bps.text(), "0");
}

#[test]
fn too_large_quotes_change_nothing() {
    let (mut states, mut stats) = moved_up();
    let mut q = mexc("1", "2", 1_000_600);
    q.ask = Decimal::new(MAX_MANTISSA, 0).unwrap();
    q.bid = q.ask;
    let done = handle_quote_at(&q, &config(), &live(), &mut states, &mut stats, true, 1_000_600);
    assert!(matches!(done, Err(Overflow)));
    assert_eq!(stats.mexc_quotes, 1);
    assert_eq!(states.get("BTC_USDT").unwrap().last_mexc.as_ref().unwrap().recv_ts_ms, 1_000_000);
    let mut s = SymbolState::new();
    assert!(take_quote(&config(), &live(), &mut s, &q).is_ok());
}

#[test]
fn full_counts_stop_a_quote() {
    let (mut states, mut stats) = start();
    stats.binance_quotes = u64::MAX;
    let q = binance("1", "2", 5);
    let done = handle_quote_at(&q, &config(), &live(), &mut states, &mut stats, true, 5);
    assert!(matches!(done, Err(Overflow)));
    assert!(states.get("BTC_USDT").unwrap().last_binance.is_none());
}

#[test]
fn other_full_counts_stop_no_quote() {
    let (mut states, mut stats) = start();
    stats.mexc_quotes = u64::MAX;
    stats.impulses = u64::MAX;
    let q = binance("1", "2", 5);
    let done = handle_quote_at(&q, &config(), &live(), &mut states, &mut stats, true, 5);
    assert!(matches!(done, Ok(Some(_))));
    assert_eq!(stats.binance_quotes, 1);
}

#[test]
fn quotes_and_alerts_go_together() {
    let (mut states, mut stats) = start();
    let now = chrono::Utc::now().timestamp_millis();
    let mut c = config();
    c.max_quote_age_ms = 60_000;
    handle_quote(&binance("99", "101", now), &c, &live(), &mut states, &mut stats, false).unwrap();
    let done = handle_quote(&mexc("109", "111", now), &c, &live(), &mut states, &mut stats, false);
    assert!(done.unwrap().unwrap().alert.notice.is_none());
    assert!(states.get("BTC_USDT").unwrap().active_diff_alert.is_some());
}

#[test]
fn old_moves_are_dropped() {
    let (mut states, mut stats) = moved_up();
    expire_old_pending_at(&live(), &mut states, &mut stats, 1_002_000).unwrap();
    assert!(states.get("BTC_USDT").unwrap().pending.is_some());
    expire_old_pending_at(&live(), &mut states, &mut stats, 1_002_001).unwrap();
    assert!(states.get("BTC_USDT").unwrap().pending.is_none());
    assert_eq!(stats.expired, 1);
    assert_eq!(stats.by_symbol.get("BTC_USDT").unwrap().expired, 1);
    expire_old_pending(&live(), &mut states, &mut stats).unwrap();
    assert_eq!(stats.expired, 1);
    let (mut states, mut stats) = moved_up();
    expire_old_pending(&live(), &mut states, &mut stats).unwrap();
    assert_eq!(stats.expired, 1);
}

#[test]
fn moves_are_not_dropped_where_they_cannot_be_counted() {
    let (mut states, mut stats) = moved_up();
    stats.expired = u64::MAX;
    assert_eq!(expire_old_pending_at(&live(), &mut states, &mut stats, 9_000_000), Err(Overflow));
    assert!(states.get("BTC_USDT").unwrap().pending.is_some());
    let (mut states, mut stats) = moved_up();
    assert_eq!(expire_old_pending_at(&live(), &mut states, &mut stats, i64::MIN), Err(Overflow));
}

fn record(symbol: &str, lag_ms: i64) -> LagRecord {
    LagRecord {
        symbol: symbol.to_string(),
        direction: Direction::Down,
        lag_ms,
        binance_move_bps: d("-12.5"),
        mexc_move_bps: d("-6"),
        binance_start_mid: d("100"),
        binance_end_mid: d("99.875"),
        mexc_start_mid: d("100.1"),
        mexc_confirm_mid: d("100.04"),
        binance_event_ts_ms: 1000,
        mexc_recv_ts_ms: 1000 + lag_ms,
    }
}

fn slip() -> Slippage {
    Slippage {
        entry_bid: d("1"),
        entry_ask: d("2"),
        exit_bid: d("3"),
        exit_ask: d("4"),
        entry_spread_bps: d("5"),
        exit_spread_bps: d("6"),
        gross_cross_bps: d("7.25"),
        fees_bps: d("12"),
        net_cross_bps: d("-4.75"),
        estimated_pnl_usdt: d("-1.425"),
        pnl_zero_fee_usdt: d("2.175"),
    }
}

#[test]
fn lines_of_the_files() {
    assert_eq!(
        record_line(&record("X_USDT", 250), "T"),
        "T,X_USDT,down,250,-12.5,-6,100,99.875,100.1,100.04,1000,1250"
    );
    assert_eq!(
        slippage_line(&record("X_USDT", 250), &slip(), "T"),
        "T,X_USDT,down,250,1,2,3,4,5,6,7.25,12,-4.75,-1.425,-12.5,-6"
    );
}

#[test]
fn lines_have_as_many_values_as_the_first_one_names() {
    assert_eq!(open_csv(true), None);
    assert_eq!(open_slippage_csv(true), None);
    assert_eq!(open_stats_csv(true), None);
    let head = open_csv(false).unwrap();
    assert!(head.starts_with("utc,symbol,direction,lag_ms,binance_move_bps"));
    let line = write_record(&record("X_USDT", 250));
    assert_eq!(line.split(',').count(), head.split(',').count());
    assert!(line.ends_with(",1000,1250") && line.starts_with("20"));
    let head = open_slippage_csv(false).unwrap();
    assert_eq!(head.split(',').nth(10), Some("gross_cross_bps"));
    let line = write_slippage_record(&record("X_USDT", 250), &slip());
    assert_eq!(line.split(',').count(), head.split(',').count());
    assert!(line.split(',').next().unwrap().contains('T'));
    let head = open_stats_csv(false).unwrap();
    let (states, stats) = moved_up();
    let line = stats_line(&states, &stats, "BTC_USDT", "", "T", 2_000_000).unwrap();
    assert_eq!(line.split(',').count(), head.split(',').count());
}

#[test]
fn written_trades_are_read() {
    let mut text = open_slippage_csv(false).unwrap().to_string() + "\n";
    for (symbol, lag) in [("X_USDT", 250), ("BTC_USDT", 900), ("Y_USDT", 199), ("Y_USDT", 200)] {
        text += &write_slippage_record(&record(symbol, lag), &slip());
        text += "\n";
    }
    text += "broken line\nT,Z_USDT,up,soon,1,2,3,4,5,6,9\nT,Z_USDT,up,300\n";
    let rows = trade_rows(&text, min_lag(None));
    assert_eq!(rows.total_detected, 5);
    assert_eq!(rows.gross_bps, vec!["7.25".to_string(), "7.25".to_string()]);
    assert_eq!(trade_rows(&text, min_lag(Some(0))).gross_bps.len(), 3);
    assert_eq!(trade_rows("", 0).total_detected, 0);
    assert_eq!(trade_rows("utc,symbol", 0).total_detected, 0);
    assert_eq!(line_gain("T,ETH_USDT,up,300,1,2,3,4,5,6,9", 0), None);
    assert_eq!(line_gain("T,Z_USDT,up,300,1,2,3,4,5,6,9", 300), Some("9".to_string()));
    assert_eq!(line_gain("T,SOL_USDT,up,300,1,2,3,4,5,6,9", 300), None);
}

#[test]
fn the_dashboard_shows_a_symbol() {
    let (mut states, mut stats) = moved_up();
    let row = dashboard_row(&states, &stats, "BTC_USDT").unwrap();
    assert_eq!(row.pending, Some("UP".to_string()));
    assert_eq!((row.binance_quotes, row.mexc_quotes, row.impulses), (2, 1, 1));
    assert_eq!(row.binance_mid, Some("101".to_string()));
    assert_eq!(row.mexc_mid, Some("100".to_string()));
    assert_eq!(row.price_diff_usdt, Some("-1".to_string()));
    assert_eq!(row.price_diff_bps, Some("-99.010".to_string()));
    assert!(row.lag.is_none() && row.last_direction.is_none() && row.gross_bps.is_none());
    take(&mut states, &mut stats, &mexc("99.1", "101.1", 1_000_700));
    let row = dashboard_row(&states, &stats, "BTC_USDT").unwrap();
    assert_eq!(row.pending, None);
    let lag = row.lag.unwrap();
    assert_eq!((lag.sum, lag.count, lag.p50, lag.p95), (200, 1, 200, 200));
    assert_eq!(row.last_direction, Some("UP".to_string()));
    assert_eq!(row.last_lag_ms, Some(200));
    assert_eq!(row.gross_bps, Some("-188.119".to_string()));
    assert_eq!(row.net_fee_bps, Some("-200.119".to_string()));
    assert_eq!(row.net_zero_fee_bps, Some("-188.119".to_string()));
    assert_eq!(row.pnl_fee_usdt, Some("-60.0356".to_string()));
    assert_eq!(row.pnl_zero_fee_usdt, Some("-56.4356".to_string()));
    let other = dashboard_row(&states, &stats, "X_USDT").unwrap();
    assert!(other.binance_mid.is_none() && other.price_diff_usdt.is_none());
}

#[test]
fn the_dashboard_shows_all_symbols() {
    let (states, stats) = moved_up();
    let s = dashboard_at(&config(), &live(), &states, &stats, "0", "now".to_string()).unwrap();
    assert_eq!(s.updated_at, "now");
    assert_eq!(s.summary, "quotes Binance=2 MEXC=1 impulses=1 matched=0 expired=0");
    assert_eq!((s.impulse_bps.as_str(), s.confirm_bps.as_str(), s.max_lag_ms), ("10", "5", 1500));
    assert_eq!(s.symbols.len(), 2);
    assert_eq!(s.symbols[1].symbol, "X_USDT");
    let s = build_dashboard_snapshot(&config(), &live(), &states, &stats, "0").unwrap();
    assert_eq!(shape(&s.updated_at), "0000-00-00 00:00:00 UTC");
}

fn spoiled() -> (Table<SymbolState>, Stats) {
    let (mut states, stats) = start();
    let mut s = SymbolState::new();
    let mut q = binance("1", "2", 0);
    q.bid = Decimal::new(MAX_MANTISSA, 0).unwrap();
    q.ask = q.bid;
    s.last_binance = Some(q);
    states.put("X_USDT".to_string(), s);
    (states, stats)
}

#[test]
fn reports_stop_at_too_large_numbers() {
    let (states, stats) = spoiled();
    let none = vec![String::new(), String::new()];
    let d = dashboard_at(&config(), &live(), &states, &stats, "", String::new());
    assert!(matches!(d, Err(Overflow)));
    let p = screen_at(&config(), &live(), &states, &stats, "", &none, "");
    assert_eq!(p, Err(Overflow));
    assert_eq!(stats_lines_at(&config(), &states, &stats, &none, "", 0), Err(Overflow));
}

#[test]
fn the_screen_is_a_table() {
    let (mut states, mut stats) = moved_up();
    take(&mut states, &mut stats, &mexc("99.1", "101.1", 1_000_700));
    let avgs = vec!["200".to_string(), "0".to_string()];
    let lines = screen_at(&config(), &live(), &states, &stats, "200", &avgs, "now").unwrap();
    assert_eq!(lines.len(), 6);
    assert_eq!(lines[0], "=== MEXC LAG MONITOR now | symbols=2 ===");
    assert!(lines[1].starts_with("quotes Binance=2 MEXC=2 impulses=1 matched=1 expired=0 lag avg=200ms"));
    assert_eq!(lines[2], "thresholds: impulse>=10bps confirm>=5bps max_lag=1500ms window=1000ms");
    let row = |c: [&str; 12]| {
        format!(
            "{:<12} {:>8} {:>8} {:>7} {:>7} {:>7} {:>8} {:>8} {:>8} {:>12} {:>12} {:>8}",
            c[0], c[1], c[2], c[3], c[4], c[5], c[6], c[7], c[8], c[9], c[10], c[11]
        )
    };
    assert_eq!(
        lines[3],
        row([
            "symbol", "bnc_q", "mexc_q", "imp", "match", "exp", "avg", "p50", "p95", "bnc_mid",
            "mexc_mid", "pending",
        ])
    );
    assert_eq!(
        lines[4],
        row(["BTC_USDT", "2", "2", "1", "1", "0", "200", "200", "200", "101", "100.1", "-"])
    );
    assert_eq!(lines[5], row(["X_USDT", "0", "0", "0", "0", "0", "-", "-", "-", "-", "-", "-"]));
    let lines = print_stats(&config(), &live(), &states, &stats, "200", &avgs).unwrap();
    assert!(lines[0].ends_with(" UTC | symbols=2 ==="));
    let (states, stats) = moved_up();
    assert!(symbol_line(&states, &stats, "BTC_USDT", "").unwrap().ends_with("      UP"));
}

#[test]
fn the_file_of_the_statistics() {
    let (mut states, mut stats) = moved_up();
    let line = stats_line(&states, &stats, "BTC_USDT", "", "T", 1_001_000).unwrap();
    assert_eq!(line, "T,BTC_USDT,2,1,1,0,0,,,,,,101,100,500,1000,true");
    take(&mut states, &mut stats, &mexc("99.1", "101.1", 1_000_700));
    let avgs = vec!["200".to_string(), "0".to_string()];
    let lines = stats_lines_at(&config(), &states, &stats, &avgs, "T", 1_001_000).unwrap();
    assert_eq!(lines[0], "T,BTC_USDT,2,2,1,1,0,200,200,200,200,200,101,100.1,500,300,false");
    assert_eq!(lines[1], "T,X_USDT,0,0,0,0,0,,,,,,,,,,false");
    let lines = write_stats_snapshot(&config(), &states, &stats, &avgs).unwrap();
    assert!(lines[1].ends_with(",X_USDT,0,0,0,0,0,,,,,,,,,,false"));
    assert_eq!(stats_lines_at(&config(), &states, &stats, &avgs, "T", i64::MIN), Err(Overflow));
}

fn shape(text: &str) -> String {
    text.chars().map(|c| if c.is_ascii_digit() { '0' } else { c }).collect()
}

#[test]
fn times_are_written_in_their_forms() {
    let line = write_record(&record("X_USDT", 250));
    let utc = shape(line.split(',').next().unwrap());
    assert!(utc.starts_with("0000-00-00T00:00:00") && utc.ends_with("+00:00"));
    let fraction = &utc[19..utc.len() - 6];
    assert!(["", ".000", ".000000", ".000000000"].contains(&fraction));
}

#[test]
fn longer_lags_add_no_trade_to_the_rows() {
    let mut text = open_slippage_csv(false).unwrap().to_string() + "\n";
    for lag in [5, 250, 90, 400, 250] {
        text += &write_slippage_record(&record("X_USDT", lag), &slip());
        text += "\n";
    }
    let mut last = usize::MAX;
    for (asked, trades) in [(0, 5), (90, 4), (91, 3), (250, 3), (251, 1), (401, 0)] {
        let rows = trade_rows(&text, asked);
        assert_eq!((rows.total_detected, rows.gross_bps.len()), (5, trades));
        assert!(trades <= last);
        last = trades;
    }
}
