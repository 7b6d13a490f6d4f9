use hmac::Mac;
use mexc_lag::decimal::Decimal;
use mexc_lag::json::{parse_json, Json};
use mexc_lag::trade::{
    begin_trade, changed_client, count_after, log_exchange_response, order_body, order_filled, order_reply, reply_of, slot_after,
    CountStep, MexcTradeClient, Order, Stage, Trade, TradeAction, TradeEvent,
};
use std::sync::atomic::Ordering;

fn d(text: &str) -> Decimal {
    Decimal::parse(text).unwrap()
}

fn json(text: &str) -> Json {
    parse_json(text).unwrap()
}

fn client(max: i32) -> MexcTradeClient {
    MexcTradeClient::new("key".to_string(), "secret".to_string(), max)
}

#[test]
fn positions_are_counted() {
    let c = client(2);
    assert_eq!(c.open_positions.load(Ordering::Relaxed), 0);
    assert!(c.try_reserve_position());
    assert!(c.try_reserve_position());
    assert!(!c.try_reserve_position());
    assert_eq!(c.open_positions.load(Ordering::Relaxed), 2);
    assert!(!client(0).try_reserve_position());
    assert_eq!(slot_after(1, 2), Some(2));
    assert_eq!(slot_after(2, 2), None);
    assert_eq!(slot_after(i32::MAX, i32::MAX), None);
}

#[test]
fn requests_are_signed() {
    let c = MexcTradeClient::new("".to_string(), "key".to_string(), 1);
    assert_eq!(c.sign(5, "").len(), 64);
    assert_ne!(c.sign(5, ""), c.sign(6, ""));
    assert_ne!(c.sign(5, ""), c.sign(5, "x"));
    let mut mac = hmac::Hmac::<sha2::Sha256>::new_from_slice(b"secret").unwrap();
    mac.update(b"key1700000000000{\"a\":1}");
    let expected = hex::encode(mac.finalize().into_bytes());
    assert_eq!(client(1).sign(1_700_000_000_000, "{\"a\":1}"), expected);
}

#[test]
fn the_code_is_that_of_the_standard() {
    let c = MexcTradeClient::new("The quick brown fox jumps over the lazy dog ".to_string(), "key".to_string(), 1);
    let mut mac = hmac::Hmac::<sha2::Sha256>::new_from_slice(b"key").unwrap();
    mac.update(b"The quick brown fox jumps over the lazy dog");
    assert_eq!(
        hex::encode(mac.finalize().into_bytes()),
        "f7bc83f430538424b13298e6aa6fb143ef4d59a14946175997479dbc2d1a3cd8"
    );
    assert!(c.sign(0, "").chars().all(|x| x.is_ascii_digit() || ('a'..='f').contains(&x)));
}

#[test]
fn requests_carry_their_headers() {
    let c = client(1);
    let r = c.post_at("/p", "{}".to_string(), 12);
    assert_eq!(r.url, "https://contract.mexc.com/p");
    assert_eq!(r.body, "{}");
    let names: Vec<&str> = r.headers.iter().map(|h| h.0.as_str()).collect();
    assert_eq!(names, ["ApiKey", "Request-Time", "Signature", "Recv-Window", "Content-Type"]);
    assert_eq!(r.headers[0].1, "key");
    assert_eq!(r.headers[1].1, "12");
    assert_eq!(r.headers[2].1, c.sign(12, "{}"));
    assert_eq!(r.headers[3].1, "5000");
    assert_eq!(r.headers[4].1, "application/json");
    let g = c.get_at("/q", 12);
    assert_eq!(g.url, "https://contract.mexc.com/q");
    assert_eq!(g.headers.len(), 4);
    assert_eq!(g.headers[2].1, c.sign(12, ""));
    assert_eq!(g.body, "");
    let now = chrono::Utc::now().timestamp_millis() as u64;
    let sent: u64 = c.post("/p", String::new()).headers[1].1.parse().unwrap();
    assert!(sent >= now && sent < now + 60_000);
    assert!(MexcTradeClient::ts() >= now);
    assert_eq!(c.get("/q").headers.len(), 4);
}

#[test]
fn keys_must_both_be_there() {
    assert!(changed_client("k".to_string(), "s".to_string()).is_some());
    assert!(changed_client("".to_string(), "s".to_string()).is_none());
    assert!(changed_client("k".to_string(), "".to_string()).is_none());
    let c = changed_client("k".to_string(), "s".to_string()).unwrap();
    assert_eq!((c.api_key.as_str(), c.api_secret.as_str(), c.max_positions), ("k", "s", 1));
}

#[test]
fn orders_are_json() {
    let mut o = Order {
        symbol: "ETH_USDT".to_string(),
        side: 1,
        order_type: 5,
        price: d("2000.125"),
        vol: "1".to_string(),
        leverage: 10,
    };
    assert_eq!(
        order_body(&o),
        r#"{"leverage":10,"openType":1,"price":"2000.12","side":1,"symbol":"ETH_USDT","type":5,"vol":"1"}"#
    );
    o.symbol = "BTC_USDT".to_string();
    assert!(order_body(&o).contains(r#""price":"2000.1""#));
    let v: serde_json::Value = serde_json::from_str(&order_body(&o)).unwrap();
    assert_eq!(v.to_string(), order_body(&o));
}

#[test]
fn answers_to_orders() {
    assert_eq!(order_reply(&json(r#"{"success":true,"data":123}"#)), Ok("123".to_string()));
    assert_eq!(order_reply(&json(r#"{"success":true,"data":"x1"}"#)), Ok("x1".to_string()));
    assert_eq!(order_reply(&json(r#"{"success":true}"#)), Ok(String::new()));
    assert_eq!(
        order_reply(&json(r#"{"success":false,"code":2005,"message":"no money"}"#)),
        Err("order rejected: code=2005 message=no money".to_string())
    );
    assert_eq!(order_reply(&Json::Null), Err("order rejected: code=0 message=rejected".to_string()));
    assert!(order_filled(&json(r#"{"data":{"state":3}}"#)));
    assert!(!order_filled(&json(r#"{"data":{"state":2}}"#)));
    assert!(!order_filled(&Json::Null));
}

#[test]
fn answers_are_summed_up() {
    let s = log_exchange_response(&json(r#"{"success":true,"code":0,"data":77}"#));
    assert_eq!((s.success, s.code, s.state), (Some(true), Some(0), None));
    assert_eq!(s.order_id, Some("77".to_string()));
    let s = log_exchange_response(&json(r#"{"data":{"state":3}}"#));
    assert_eq!((s.success, s.code, s.state, s.order_id), (None, None, Some(3), None));
    let s = log_exchange_response(&json(r#"{"data":"id"}"#));
    assert_eq!(s.order_id, Some("id".to_string()));
}

fn begun(c: &MexcTradeClient, direction: i32) -> Trade {
    c.run_trade("BTC_USDT".to_string(), direction, d("100.26"), d("101"), "2".to_string(), 10, 5000)
}

fn took(id: &str) -> TradeEvent {
    TradeEvent::Reply(Some(json(&format!(r#"{{"success":true,"data":"{}"}}"#, id))))
}

fn post(trade: &Trade) -> (String, String) {
    match trade.action() {
        TradeAction::Post { path, body } => (path, body),
        _ => panic!("no post"),
    }
}

#[test]
fn a_trade_ends_at_its_target() {
    let c = client(1);
    let mut t = begun(&c, 1);
    let (path, body) = post(&t);
    assert_eq!(path, "/api/v1/private/order/submit");
    assert_eq!(
        body,
        r#"{"leverage":10,"openType":1,"price":"100.3","side":1,"symbol":"BTC_USDT","type":5,"vol":"2"}"#
    );
    t.take(&took("1"));
    assert_eq!(
        post(&t).1,
        r#"{"leverage":0,"openType":1,"price":"101","side":4,"symbol":"BTC_USDT","type":1,"vol":"2"}"#
    );
    t.take(&took("42"));
    assert!(matches!(t.action(), TradeAction::Wait { ms: 5000 }));
    t.take(&TradeEvent::Reply(None));
    assert!(matches!(t.action(), TradeAction::Wait { ms: 5000 }));
    t.take(&TradeEvent::Woken);
    assert!(matches!(t.action(), TradeAction::Get { path } if path == "/api/v1/private/order/get/42"));
    t.take(&TradeEvent::Reply(Some(json(r#"{"data":{"state":3}}"#))));
    assert!(matches!(t.action(), TradeAction::Nothing));
    assert!(matches!(t.stage, Stage::Done));
    assert_eq!(c.open_positions.load(Ordering::Relaxed), 1);
    assert!(c.end_trade(t));
    assert_eq!(c.open_positions.load(Ordering::Relaxed), 0);
}

#[test]
fn a_trade_that_misses_its_target_is_closed_at_the_market() {
    let c = client(1);
    let mut t = begun(&c, -1);
    assert!(post(&t).1.contains(r#""side":3"#));
    t.take(&took("1"));
    assert!(post(&t).1.contains(r#""side":2"#));
    t.take(&took("a\\\"b"));
    t.take(&TradeEvent::Woken);
    t.take(&TradeEvent::Reply(None));
    let (path, body) = post(&t);
    assert_eq!(path, "/api/v1/private/order/cancel");
    assert_eq!(body, r#"["a\"b"]"#);
    t.take(&TradeEvent::Reply(None));
    assert_eq!(
        post(&t).1,
        r#"{"leverage":0,"openType":1,"price":"101","side":2,"symbol":"BTC_USDT","type":5,"vol":"2"}"#
    );
    t.take(&TradeEvent::Reply(None));
    assert!(matches!(t.stage, Stage::Done));
    assert!(c.end_trade(t));
}

#[test]
fn a_trade_without_an_order_at_the_target_is_closed_at_the_market() {
    let c = client(1);
    let mut t = begun(&c, 1);
    t.take(&took("1"));
    t.take(&TradeEvent::Reply(None));
    t.take(&TradeEvent::Woken);
    assert!(matches!(t.stage, Stage::Forcing));
}

#[test]
fn a_trade_that_does_not_open_is_over() {
    let c = client(1);
    let mut t = begun(&c, 1);
    t.take(&TradeEvent::Reply(Some(json(r#"{"success":false}"#))));
    assert!(matches!(t.stage, Stage::Done));
    assert!(c.end_trade(t));
    assert_eq!(c.open_positions.load(Ordering::Relaxed), 0);
}

#[test]
fn a_trade_is_skipped_where_no_more_may_be_open() {
    let c = client(1);
    let first = begun(&c, 1);
    let mut second = begun(&c, 1);
    assert!(matches!(first.stage, Stage::Opening));
    assert!(matches!(second.stage, Stage::Skipped));
    assert!(matches!(second.action(), TradeAction::Nothing));
    second.take(&took("1"));
    assert!(matches!(second.stage, Stage::Skipped));
    assert!(!c.end_trade(second));
    assert_eq!(c.open_positions.load(Ordering::Relaxed), 1);
}

#[test]
fn every_trade_ends_after_six_answers() {
    let c = client(100);
    for seed in 0..64u32 {
        let mut t = begun(&c, 1);
        let mut answers = 0;
        while !matches!(t.action(), TradeAction::Nothing) {
            let event = match t.action() {
                TradeAction::Wait { .. } => TradeEvent::Woken,
                _ if seed >> answers & 1 == 1 => took("9"),
                _ => TradeEvent::Reply(None),
            };
            t.take(&event);
            answers += 1;
        }
        assert!(answers <= 6);
        assert!(c.end_trade(t));
    }
    assert_eq!(c.open_positions.load(Ordering::Relaxed), 0);
}

#[test]
fn a_trade_begins_where_its_position_is_reserved() {
    for (reserved, skipped) in [(true, false), (false, true)] {
        let t = begin_trade(
            reserved, "X".to_string(), 1, d("1"), d("2"), "3".to_string(), 4, 5,
        );
        assert_eq!(matches!(t.stage, Stage::Skipped), skipped);
        assert_eq!(matches!(t.stage, Stage::Opening), reserved);
        assert_eq!((t.symbol.as_str(), t.direction, t.vol.as_str()), ("X", 1, "3"));
        assert_eq!((t.entry_price, t.target_price), (d("1"), d("2")));
        assert_eq!((t.leverage, t.safety_timeout_ms), (4, 5));
    }
}

#[test]
fn no_more_positions_are_granted_than_there_is_room_for() {
    let c = client(3);
    let mut granted = 0;
    for _ in 0..10 {
        if c.try_reserve_position() {
            granted += 1;
        }
    }
    assert_eq!(granted, 3);
    let mut trade = begin_trade(true, "X".to_string(), 1, d("1"), d("2"), "3".to_string(), 4, 5);
    trade.stage = Stage::Done;
    assert!(c.end_trade(trade));
    assert!(c.try_reserve_position());
    assert!(!c.try_reserve_position());
    assert_eq!(c.open_positions.load(Ordering::Relaxed), 3);
}

#[test]
fn what_is_no_json_is_an_empty_answer() {
    assert!(matches!(reply_of("<html>"), Json::Null));
    assert!(matches!(reply_of(""), Json::Null));
    assert_eq!(reply_of(r#"{"code":5}"#).int_field("code"), Some(5));
}

#[test]
fn a_count_goes_up_to_its_limit_and_down() {
    assert_eq!(count_after(1, 2, CountStep::Reserve), Some(2));
    assert_eq!(count_after(2, 2, CountStep::Reserve), None);
    assert_eq!(count_after(2, 2, CountStep::Release), Some(1));
    assert_eq!(count_after(i32::MIN, 2, CountStep::Release), Some(i32::MAX));
}
