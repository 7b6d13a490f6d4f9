use mexc_lag::config::{
    change_live_config, default_alert_diff_bps, default_alert_min_duration_ms,
    default_alert_min_edge_bps, default_max_quote_age_ms, default_mexc_taker_fee_bps,
    default_slippage_csv_path, default_stats_csv_path, default_telegram_subscribers_path,
    default_trade_leverage, default_trade_notional_usdt, default_trade_timeout_ms,
    default_trade_vol, load_config, persisted, save_mexc_keys, validate_live_config, Config,
    ConfigError, LiveConfig, Secrets,
};
use mexc_lag::decimal::Decimal;
use mexc_lag::json::{parse_json, SetError};
use mexc_lag::trade::start_client;

fn d(text: &str) -> Decimal {
    Decimal::parse(text).unwrap()
}

fn config(symbols: &[&str]) -> Config {
    Config {
        symbols: symbols.iter().map(|s| s.to_string()).collect(),
        binance_ws: "wss://b".to_string(),
        mexc_ws: "wss://m".to_string(),
        impulse_bps: d("3"),
        confirm_bps: d("1.5"),
        impulse_window_ms: 1000,
        max_lag_ms: 1500,
        event_cooldown_ms: 300,
        stats_interval_secs: 10,
        csv_path: "lag_events.csv".to_string(),
        stats_csv_path: default_stats_csv_path(),
        slippage_csv_path: default_slippage_csv_path(),
        mexc_taker_fee_bps: default_mexc_taker_fee_bps(),
        trade_notional_usdt: default_trade_notional_usdt(),
        telegram_bot_token: String::new(),
        telegram_chat_id: "5".to_string(),
        telegram_login_password: String::new(),
        telegram_subscribers_path: default_telegram_subscribers_path(),
        alert_diff_bps: default_alert_diff_bps(),
        alert_min_edge_bps: default_alert_min_edge_bps(),
        alert_min_duration_ms: default_alert_min_duration_ms(),
        max_quote_age_ms: default_max_quote_age_ms(),
        mexc_api_key: "old".to_string(),
        mexc_api_secret: String::new(),
        trade_enabled: false,
        trade_vol: default_trade_vol(),
        trade_leverage: default_trade_leverage(),
        trade_timeout_ms: default_trade_timeout_ms(),
    }
}

fn environment() -> Secrets {
    Secrets {
        telegram_bot_token: "env-token".to_string(),
        telegram_chat_id: "env-chat".to_string(),
        telegram_login_password: String::new(),
        mexc_api_key: "env-key".to_string(),
        mexc_api_secret: "env-secret".to_string(),
    }
}

fn live() -> LiveConfig {
    LiveConfig {
        impulse_bps: d("2.50"),
        confirm_bps: d("1"),
        alert_diff_bps: d("0.5"),
        max_lag_ms: 900,
        trade_margin_usdt: d("250"),
        trade_leverage: 20,
        trade_enabled: true,
    }
}

#[test]
fn defaults() {
    assert_eq!(default_stats_csv_path(), "stats_snapshots.csv");
    assert_eq!(default_slippage_csv_path(), "slippage_events.csv");
    assert_eq!(default_mexc_taker_fee_bps().text(), "6");
    assert_eq!(default_trade_notional_usdt().text(), "300");
    assert_eq!(default_telegram_subscribers_path(), "telegram_subscribers.json");
    assert_eq!(default_alert_diff_bps().text(), "0.5");
    assert_eq!(default_alert_min_edge_bps().text(), "1");
    assert_eq!(default_alert_min_duration_ms(), 500);
    assert_eq!(default_max_quote_age_ms(), 2000);
    assert_eq!(default_trade_vol(), "1");
    assert_eq!(default_trade_leverage(), 10);
    assert_eq!(default_trade_timeout_ms(), 5000);
}

#[test]
fn there_must_be_a_symbol() {
    let refused = load_config(config(&[]), None, environment());
    assert!(matches!(refused, Err(ConfigError::NoSymbols)));
    assert_eq!(ConfigError::NoSymbols.message(), "config.symbols must not be empty");
}

#[test]
fn the_file_of_the_secrets_comes_first() {
    let file = r#"{"telegram_chat_id":"77","mexc_api_key":"file-key","mexc_api_secret":5}"#;
    let c = load_config(config(&["BTC_USDT"]), Some(file), environment()).unwrap();
    assert_eq!(c.telegram_chat_id, "77");
    assert_eq!(c.mexc_api_key, "file-key");
    assert_eq!(c.mexc_api_secret, "env-secret");
    assert_eq!(c.telegram_bot_token, "env-token");
    assert_eq!(c.telegram_login_password, "");
    assert_eq!(c.symbols, vec!["BTC_USDT".to_string()]);
    assert_eq!(c.trade_leverage, 10);
}

#[test]
fn the_environment_fills_what_is_empty() {
    for file in [None, Some("no json"), Some("[]")] {
        let c = load_config(config(&["BTC_USDT"]), file, environment()).unwrap();
        assert_eq!(c.telegram_chat_id, "5");
        assert_eq!(c.mexc_api_key, "old");
        assert_eq!(c.mexc_api_secret, "env-secret");
    }
    let emptied = Some(r#"{"mexc_api_key":""}"#);
    let c = load_config(config(&["BTC_USDT"]), emptied, environment()).unwrap();
    assert_eq!(c.mexc_api_key, "env-key");
}

#[test]
fn live_settings_start_as_the_others() {
    let l = LiveConfig::of(&config(&["BTC_USDT"]));
    assert_eq!(l.impulse_bps.text(), "3");
    assert_eq!(l.confirm_bps.text(), "1.5");
    assert_eq!(l.alert_diff_bps.text(), "0.5");
    assert_eq!(l.max_lag_ms, 1500);
    assert_eq!(l.trade_margin_usdt.text(), "300");
    assert_eq!(l.trade_leverage, 10);
    assert!(!l.trade_enabled);
}

#[test]
fn unsound_settings_are_named() {
    assert_eq!(validate_live_config(&live()), Ok(()));
    let mut l = live();
    l.trade_margin_usdt = d("0.99");
    assert_eq!(validate_live_config(&l), Err("trade_margin_usdt must be between 1 and 100000"));
    l.trade_margin_usdt = d("100000.01");
    assert_eq!(validate_live_config(&l), Err("trade_margin_usdt must be between 1 and 100000"));
    l.trade_margin_usdt = d("100000.00");
    assert_eq!(validate_live_config(&l), Ok(()));
    for leverage in [0, 51, -1] {
        let mut l = live();
        l.trade_leverage = leverage;
        assert_eq!(validate_live_config(&l), Err("trade_leverage must be between 1 and 50"));
    }
    for bps in ["0", "-1", "1000.1"] {
        let mut l = live();
        l.impulse_bps = d(bps);
        assert_eq!(validate_live_config(&l), Err("impulse_bps must be between 0 and 1000"));
        let mut l = live();
        l.confirm_bps = d(bps);
        assert_eq!(validate_live_config(&l), Err("confirm_bps must be between 0 and 1000"));
    }
    for bps in ["0", "10000.1"] {
        let mut l = live();
        l.alert_diff_bps = d(bps);
        assert_eq!(validate_live_config(&l), Err("alert_diff_bps must be between 0 and 10000"));
    }
    for ms in [99, 5001] {
        let mut l = live();
        l.max_lag_ms = ms;
        assert_eq!(validate_live_config(&l), Err("max_lag_ms must be between 100 and 5000"));
    }
}

#[test]
fn only_sound_settings_are_taken_over() {
    let mut now = live();
    let mut bad = live();
    bad.trade_leverage = 99;
    assert!(change_live_config(&mut now, bad).is_err());
    assert_eq!(now.trade_leverage, 20);
    let mut good = live();
    good.trade_leverage = 30;
    assert!(change_live_config(&mut now, good).is_ok());
    assert_eq!(now.trade_leverage, 30);
}

#[test]
fn changed_settings_outlive_a_restart() {
    let text = r#"{"symbols":["BTC_USDT"],"impulse_bps":"3","max_lag_ms":1500,"csv_path":"x"}"#;
    let v = parse_json(&persisted(text, &live()).unwrap()).unwrap();
    assert_eq!(v.text_field("impulse_bps"), Some("2.50".to_string()));
    assert_eq!(v.text_field("confirm_bps"), Some("1".to_string()));
    assert_eq!(v.int_field("max_lag_ms"), Some(900));
    assert_eq!(v.text_field("alert_diff_bps"), Some("0.5".to_string()));
    assert_eq!(v.text_field("trade_notional_usdt"), Some("250".to_string()));
    assert_eq!(v.int_field("trade_leverage"), Some(20));
    assert_eq!(v.flag_field("trade_enabled"), Some(true));
    assert_eq!(v.text_field("csv_path"), Some("x".to_string()));
    assert_eq!(persisted("nope", &live()), Err(SetError::NoJson));
    assert_eq!(persisted("[]", &live()), Err(SetError::NoObject));
}

#[test]
fn saved_keys_are_loaded_at_the_next_start() {
    let file = save_mexc_keys(Some(r#"{"telegram_chat_id":"8"}"#), "k", "s");
    let c = load_config(config(&["BTC_USDT"]), Some(&file), environment()).unwrap();
    assert_eq!(c.mexc_api_key, "k");
    assert_eq!(c.mexc_api_secret, "s");
    assert_eq!(c.telegram_chat_id, "8");
    let alone = save_mexc_keys(None, "k", "s");
    assert_eq!(alone, "{\n  \"mexc_api_key\": \"k\",\n  \"mexc_api_secret\": \"s\"\n}");
}

#[test]
fn new_keys_leave_the_rest_of_the_file() {
    let old = r#"{"telegram_bot_token":"t","mexc_api_key":"a","x":1.5,"y":[1,2]}"#;
    let file = save_mexc_keys(Some(old), "k", "s");
    let c = load_config(config(&["BTC_USDT"]), Some(&file), environment()).unwrap();
    assert_eq!(c.telegram_bot_token, "t");
    assert_eq!(c.mexc_api_key, "k");
    assert!(file.contains("\"x\": 1.5"));
    let odd = r#"{"$serde_json::private::RawValue":"{}"}"#;
    let new = save_mexc_keys(Some(odd), "k", "s");
    assert_eq!(
        new,
        "{\n  \"$serde_json::private::RawValue\": \"{}\",\n  \"mexc_api_key\": \"k\",\n  \"mexc_api_secret\": \"s\"\n}"
    );
}

#[test]
fn a_key_in_the_settings_starts_a_client() {
    let c = start_client(&config(&["BTC_USDT"])).unwrap();
    assert_eq!((c.api_key.as_str(), c.api_secret.as_str(), c.max_positions), ("old", "", 1));
    let mut none = config(&["BTC_USDT"]);
    none.mexc_api_key = String::new();
    assert!(start_client(&none).is_none());
}
