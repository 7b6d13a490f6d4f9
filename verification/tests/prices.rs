use mexc_lag::decimal::{Decimal, MAX_MANTISSA};
use mexc_lag::json::parse_json;
use mexc_lag::quotes::{
    best_price, binance_stream_symbol, binance_url, bps, change_bps, depth_quote, mexc_ping,
    mexc_subscription, normalize_binance_symbol, parse_binance_book_ticker_value,
    parse_binance_book_tickers, parse_mexc_depth, spread_bps, ticker_quote, watched_quotes, Exchange,
    MexcDepthData, MexcDepthMsg, QuoteUpdate,
};

fn d(text: &str) -> Decimal {
    Decimal::parse(text).unwrap()
}

fn quote(bid: &str, ask: &str) -> QuoteUpdate {
    QuoteUpdate {
        exchange: Exchange::Mexc,
        symbol: "BTC_USDT".to_string(),
        bid: d(bid),
        ask: d(ask),
        recv_ts_ms: 5,
    }
}

#[test]
fn the_middle_lies_between_bid_and_ask() {
    assert_eq!(quote("100", "102").mid().unwrap().text(), "101");
    assert_eq!(quote("1.1", "1.2").mid().unwrap().round_dp(2).text(), "1.15");
    let large = Decimal::new(MAX_MANTISSA, 0).unwrap();
    let mut q = quote("1", "1");
    q.bid = large;
    q.ask = large;
    assert!(q.mid().is_none());
}

#[test]
fn basis_points() {
    assert_eq!(bps(d("1"), d("100")).unwrap().text(), "100.00");
    assert_eq!(change_bps(d("100"), d("101")).unwrap().text(), "100.00");
    assert_eq!(change_bps(d("100"), d("99.5")).unwrap().text(), "-50.000");
    assert!(bps(d("1"), d("0")).is_none());
}

#[test]
fn spreads() {
    assert_eq!(spread_bps(d("99"), d("101")).unwrap().text(), "200.00");
    assert_eq!(spread_bps(d("-3"), d("1")).unwrap().text(), "0");
    assert_eq!(spread_bps(d("0"), d("0")).unwrap().text(), "0");
    let large = Decimal::new(MAX_MANTISSA, 0).unwrap();
    assert!(spread_bps(large, large).is_none());
}

#[test]
fn names_at_binance_become_symbols() {
    assert_eq!(normalize_binance_symbol("BTCUSDT"), "BTC_USDT");
    assert_eq!(normalize_binance_symbol("1000PEPEUSDT"), "PEPE_USDT");
    assert_eq!(normalize_binance_symbol("BTCBUSD"), "BTCBUSD");
    assert_eq!(normalize_binance_symbol("USDT"), "_USDT");
}

#[test]
fn symbols_become_streams() {
    assert_eq!(binance_stream_symbol("BTC_USDT"), "btcusdt");
    assert_eq!(binance_stream_symbol("PEPE_USDT"), "1000pepeusdt");
    assert_eq!(binance_stream_symbol("A_B_c_É"), "abcÉ");
}

#[test]
fn streams_come_back_as_their_symbols() {
    for symbol in ["BTC_USDT", "PEPE_USDT", "1INCH_USDT", "X_USDT"] {
        let name = binance_stream_symbol(symbol).to_ascii_uppercase();
        assert_eq!(normalize_binance_symbol(&name), symbol);
    }
    let shared = binance_stream_symbol("1000PEPE_USDT").to_ascii_uppercase();
    assert_eq!(normalize_binance_symbol(&shared), "PEPE_USDT");
}

#[test]
fn a_ticker_is_read() {
    let v = parse_json(r#"{"s":"BTCUSDT","b":"100.5","a":"100.6","x":1}"#).unwrap();
    let q = ticker_quote(&v, 77).unwrap();
    assert_eq!(q.exchange, Exchange::Binance);
    assert_eq!(q.symbol, "BTC_USDT");
    assert_eq!(q.bid.text(), "100.5");
    assert_eq!(q.ask.text(), "100.6");
    assert_eq!(q.recv_ts_ms, 77);
    let row = parse_json(r#"["ETHUSDT","1","2"]"#).unwrap();
    assert_eq!(ticker_quote(&row, 1).unwrap().symbol, "ETH_USDT");
}

#[test]
fn pepe_is_quoted_by_the_thousand() {
    let v = parse_json(r#"{"s":"1000PEPEUSDT","b":"0.0120","a":"0.0130"}"#).unwrap();
    let q = ticker_quote(&v, 0).unwrap();
    assert_eq!(q.symbol, "PEPE_USDT");
    assert_eq!(q.bid.round_dp(9).text().trim_end_matches('0'), "0.000012");
    assert_eq!(q.ask.round_dp(9).text().trim_end_matches('0'), "0.000013");
}

#[test]
fn unsound_tickers_are_left_out() {
    let all = [
        r#"{"s":"BTCUSDT","b":"0","a":"1"}"#,
        r#"{"s":"BTCUSDT","b":"-1","a":"1"}"#,
        r#"{"s":"BTCUSDT","b":"2","a":"1"}"#,
        r#"{"s":"BTCUSDT","b":"1","a":"1.0"}"#,
        r#"{"s":"BTCUSDT","b":"x","a":"1"}"#,
        r#"{"s":"BTCUSDT","b":1,"a":"2"}"#,
        r#"{"s":"BTCUSDT","a":"2"}"#,
        r#"["BTCUSDT","1"]"#,
        r#"["BTCUSDT","1","2","3"]"#,
        r#""BTCUSDT""#,
    ];
    for t in all {
        assert!(ticker_quote(&parse_json(t).unwrap(), 0).is_none(), "{}", t);
    }
}

#[test]
fn messages_of_binance_hold_one_ticker_or_many() {
    let one = r#"{"stream":"btcusdt@bookTicker","data":{"s":"BTCUSDT","b":"1","a":"2"}}"#;
    let many = r#"[{"s":"BTCUSDT","b":"1","a":"2"},{"bad":1},{"s":"ETHUSDT","b":"3","a":"4"}]"#;
    let bare = r#"{"s":"BTCUSDT","b":"1","a":"2"}"#;
    assert_eq!(parse_binance_book_tickers(one).len(), 1);
    assert_eq!(parse_binance_book_tickers(bare).len(), 1);
    let quotes = parse_binance_book_tickers(many);
    assert_eq!(quotes.len(), 2);
    assert_eq!(quotes[1].symbol, "ETH_USDT");
    assert!(parse_binance_book_tickers("{").is_empty());
    assert!(parse_binance_book_tickers("7").is_empty());
}

#[test]
fn quotes_carry_the_time_at_which_they_came() {
    let before = chrono::Utc::now().timestamp_millis();
    let v = parse_json(r#"{"s":"BTCUSDT","b":"1","a":"2"}"#).unwrap();
    let q = parse_binance_book_ticker_value(&v).unwrap();
    let after = chrono::Utc::now().timestamp_millis();
    assert!(before <= q.recv_ts_ms && q.recv_ts_ms <= after);
}

#[test]
fn only_watched_symbols_are_kept() {
    let text = r#"[{"s":"BTCUSDT","b":"1","a":"2"},{"s":"ETHUSDT","b":"3","a":"4"}]"#;
    let kept = watched_quotes(parse_binance_book_tickers(text), &vec!["ETH_USDT".to_string()]);
    assert_eq!(kept.len(), 1);
    assert_eq!(kept[0].symbol, "ETH_USDT");
}

fn levels(prices: &[&str]) -> Vec<Vec<Decimal>> {
    prices.iter().map(|p| vec![d(p), d("7"), d("1")]).collect()
}

fn depth(channel: &str, bids: &[&str], asks: &[&str]) -> MexcDepthMsg {
    MexcDepthMsg {
        channel: Some(channel.to_string()),
        symbol: Some("BTC_USDT".to_string()),
        data: Some(MexcDepthData { bids: levels(bids), asks: levels(asks) }),
    }
}

#[test]
fn the_best_price_is_the_highest_bid_and_the_lowest_ask() {
    assert_eq!(best_price(&levels(&["1", "3", "2"]), true).unwrap().text(), "3");
    assert_eq!(best_price(&levels(&["2", "1", "3"]), false).unwrap().text(), "1");
    assert_eq!(best_price(&levels(&["0", "-1"]), true), None);
    assert_eq!(best_price(&vec![], true), None);
    assert_eq!(best_price(&vec![vec![]], false), None);
    assert_eq!(best_price(&levels(&["-5", "4"]), false).unwrap().text(), "4");
    assert_eq!(best_price(&levels(&["3.0", "3.00"]), true).unwrap().text(), "3.0");
    assert_eq!(best_price(&levels(&["3.00", "3.0"]), false).unwrap().text(), "3.00");
}

#[test]
fn a_depth_message_gives_a_quote() {
    for channel in ["push.depth.full", "push.depth"] {
        let q = depth_quote(depth(channel, &["99", "100"], &["102", "101"]), 9).unwrap();
        assert_eq!(q.exchange, Exchange::Mexc);
        assert_eq!(q.symbol, "BTC_USDT");
        assert_eq!(q.bid.text(), "100");
        assert_eq!(q.ask.text(), "101");
        assert_eq!(q.recv_ts_ms, 9);
    }
    assert!(parse_mexc_depth(depth("push.depth", &["1"], &["2"])).is_some());
}

#[test]
fn other_messages_of_mexc_give_no_quote() {
    assert!(depth_quote(depth("pong", &["1"], &["2"]), 0).is_none());
    assert!(depth_quote(depth("push.depth", &["2"], &["2"]), 0).is_none());
    assert!(depth_quote(depth("push.depth", &["3"], &["2"]), 0).is_none());
    assert!(depth_quote(depth("push.depth", &[], &["2"]), 0).is_none());
    assert!(depth_quote(depth("push.depth", &["1"], &["0"]), 0).is_none());
    let mut m = depth("push.depth", &["1"], &["2"]);
    m.symbol = None;
    assert!(depth_quote(m, 0).is_none());
    let mut m = depth("push.depth", &["1"], &["2"]);
    m.data = None;
    assert!(depth_quote(m, 0).is_none());
    let mut m = depth("push.depth", &["1"], &["2"]);
    m.channel = None;
    assert!(depth_quote(m, 0).is_none());
}

#[test]
fn the_address_names_all_streams() {
    let symbols = vec!["BTC_USDT".to_string(), "PEPE_USDT".to_string()];
    assert_eq!(
        binance_url("wss://x/stream", &symbols),
        "wss://x/stream?streams=btcusdt@bookTicker/1000pepeusdt@bookTicker"
    );
}

#[test]
fn subscriptions_are_json() {
    assert_eq!(
        mexc_subscription("BTC_USDT"),
        r#"{"method":"sub.depth.full","param":{"limit":5,"symbol":"BTC_USDT"}}"#
    );
    assert_eq!(mexc_ping(), r#"{"method":"ping"}"#);
    let odd: String = (0u32..300).filter_map(char::from_u32).chain("💎\u{2028}".chars()).collect();
    let quoted = serde_json::to_string(&odd).unwrap();
    assert!(mexc_subscription(&odd).contains(&quoted));
    let v = parse_json(&mexc_subscription(&odd)).unwrap();
    assert_eq!(v.get("param").unwrap().text_field("symbol"), Some(odd.clone()));
    let mut expected = String::new();
    for c in odd.chars() {
        match c {
            '"' => expected += "\\\"",
            '\\' => expected += "\\\\",
            '\u{8}' => expected += "\\b",
            '\t' => expected += "\\t",
            '\n' => expected += "\\n",
            '\u{c}' => expected += "\\f",
            '\r' => expected += "\\r",
            c if (c as u32) < 32 => expected += &format!("\\u{:04x}", c as u32),
            c => expected.push(c),
        }
    }
    assert_eq!(quoted, format!("\"{}\"", expected));
    assert_eq!(mexc_subscription("\u{1}\u{1f}\u{7f}").matches("\\u0001\\u001f\u{7f}").count(), 1);
}

#[test]
fn whole_prices_have_exact_middles() {
    assert_eq!(quote("99", "101").mid(), Some(Decimal::of_int(100)));
    assert_eq!(bps(d("3"), d("1")), Some(Decimal::of_int(30_000)));
    assert_eq!(change_bps(d("1"), d("3")), Some(Decimal::of_int(20_000)));
    assert_eq!(spread_bps(d("1"), d("1")), Some(Decimal::zero()));
}

#[test]
fn watched_quotes_are_kept_whole() {
    let mut other = quote("1", "2");
    other.symbol = "X_USDT".to_string();
    let mut last = quote("3", "4");
    last.recv_ts_ms = 77;
    let kept = watched_quotes(
        vec![quote("1.5", "2.5"), other, last],
        &vec!["BTC_USDT".to_string()],
    );
    assert_eq!(kept.len(), 2);
    assert_eq!((kept[0].bid, kept[0].ask, kept[0].recv_ts_ms), (d("1.5"), d("2.5"), 5));
    assert_eq!((kept[1].bid, kept[1].ask, kept[1].recv_ts_ms), (d("3"), d("4"), 77));
    assert!(matches!(kept[1].exchange, Exchange::Mexc));
}
