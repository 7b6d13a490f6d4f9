//! The settings: those of the start, and those that can be changed while the monitor runs.

use vstd::prelude::*;

use crate::decimal::{below, decimal_parsed, decimal_text, whole, Decimal};
use crate::json::{
    as_text, field, fields_view, integers_are_plain, json_object, json_parsed, keeps, lookup,
    object_in, ordinary, ordinary_names, other_field_is_kept, parse_json, plain, private_name,
    readable, set_field_is_read_back, with_fields, with_fields_or_alone, written_for,
    FieldValue, Json, JsonView, SetError,
};
use crate::text::int_text;

verus! {

/// The settings of the start.
#[derive(Debug)]
pub struct Config {
    pub symbols: Vec<String>,
    pub binance_ws: String,
    pub mexc_ws: String,
    pub impulse_bps: Decimal,
    pub confirm_bps: Decimal,
    pub impulse_window_ms: i64,
    pub max_lag_ms: i64,
    pub event_cooldown_ms: i64,
    pub stats_interval_secs: u64,
    pub csv_path: String,
    pub stats_csv_path: String,
    pub slippage_csv_path: String,
    pub mexc_taker_fee_bps: Decimal,
    pub trade_notional_usdt: Decimal,
    pub telegram_bot_token: String,
    pub telegram_chat_id: String,
    pub telegram_login_password: String,
    pub telegram_subscribers_path: String,
    pub alert_diff_bps: Decimal,
    pub alert_min_edge_bps: Decimal,
    pub alert_min_duration_ms: i64,
    pub max_quote_age_ms: i64,
    pub mexc_api_key: String,
    pub mexc_api_secret: String,
    pub trade_enabled: bool,
    pub trade_vol: String,
    pub trade_leverage: i32,
    pub trade_timeout_ms: u64,
}

/// The settings that can be changed while the monitor runs.
#[derive(Clone, Copy, Debug)]
pub struct LiveConfig {
    pub impulse_bps: Decimal,
    pub confirm_bps: Decimal,
    pub alert_diff_bps: Decimal,
    pub max_lag_ms: i64,
    pub trade_margin_usdt: Decimal,
    pub trade_leverage: i32,
    pub trade_enabled: bool,
}

/// What is kept out of the file of the settings: it stands in a file of its own, or in the
/// environment.
#[derive(Debug)]
pub struct Secrets {
    pub telegram_bot_token: String,
    pub telegram_chat_id: String,
    pub telegram_login_password: String,
    pub mexc_api_key: String,
    pub mexc_api_secret: String,
}

// What holds where the file of the settings does not say.

/// The file for the statistics.
pub fn default_stats_csv_path() -> (path: String)
    ensures
        path@ == "stats_snapshots.csv"@,
{
    "stats_snapshots.csv".to_string()
}

/// The file for the slippage.
pub fn default_slippage_csv_path() -> (path: String)
    ensures
        path@ == "slippage_events.csv"@,
{
    "slippage_events.csv".to_string()
}

/// The fee of a taker at MEXC, in basis points.
pub fn default_mexc_taker_fee_bps() -> (fee: Decimal)
    ensures
        fee == whole(6),
{
    Decimal::of_int(6)
}

/// The money for a trade.
pub fn default_trade_notional_usdt() -> (money: Decimal)
    ensures
        money == whole(300),
{
    Decimal::of_int(300)
}

/// The file for the subscribers of the bot.
pub fn default_telegram_subscribers_path() -> (path: String)
    ensures
        path@ == "telegram_subscribers.json"@,
{
    "telegram_subscribers.json".to_string()
}

/// The difference between the exchanges that gives an alert, in basis points: one half.
pub fn default_alert_diff_bps() -> (diff: Decimal)
    ensures
        diff == Decimal::made(5, 1),
{
    match Decimal::new(5, 1) {
        Some(diff) => diff,
        None => Decimal::zero(),
    }
}

/// The edge that an alert needs, in basis points.
pub fn default_alert_min_edge_bps() -> (edge: Decimal)
    ensures
        edge == whole(1),
{
    Decimal::of_int(1)
}

/// How long a difference must last for an alert.
pub fn default_alert_min_duration_ms() -> (ms: i64)
    ensures
        ms == 500,
{
    500
}

/// How old a quote may be.
pub fn default_max_quote_age_ms() -> (ms: i64)
    ensures
        ms == 2_000,
{
    2_000
}

/// The volume of a trade.
pub fn default_trade_vol() -> (vol: String)
    ensures
        vol@ == "1"@,
{
    "1".to_string()
}

/// The leverage of a trade.
pub fn default_trade_leverage() -> (leverage: i32)
    ensures
        leverage == 10,
{
    10
}

/// How long a trade may stay open.
pub fn default_trade_timeout_ms() -> (ms: u64)
    ensures
        ms == 5000,
{
    5000
}

// The settings as they are used.

/// Why the settings cannot be used.
#[derive(Clone, Copy, Debug, PartialEq, Eq, Structural)]
pub enum ConfigError {
    /// No symbol is to be watched.
    NoSymbols,
}

impl ConfigError {
    /// The error in words.
    pub fn message(&self) -> (text: String)
        ensures
            text@ == "config.symbols must not be empty"@,
    {
        "config.symbols must not be empty".to_string()
    }
}

/// The text in the field `key` of a JSON text, if there is one.
pub open spec fn said_in(file: Option<&str>, key: Seq<char>) -> Option<Seq<char>> {
    match file {
        Some(text) => match json_parsed(text@) {
            Some(v) => as_text(field(v, key)),
            None => None,
        },
        None => None,
    }
}

/// A secret: what the file of the secrets says of it, else what the file of the settings said, and
/// what the environment says where that is empty.
pub open spec fn secret(
    file: Option<&str>,
    key: Seq<char>,
    before: Seq<char>,
    environment: Seq<char>,
) -> Seq<char> {
    let said = match said_in(file, key) {
        Some(text) => text,
        None => before,
    };
    if said.len() == 0 {
        environment
    } else {
        said
    }
}

fn chosen(
    parsed: &Option<Json>,
    file: Option<&str>,
    key: &str,
    before: String,
    environment: String,
) -> (value: String)
    requires
        file is None ==> parsed is None,
        file matches Some(text) ==> (parsed is Some <==> json_parsed(text@) is Some),
        file matches Some(text) ==> (parsed matches Some(j) ==> json_parsed(text@) == Some(j@)),
    ensures
        value@ == secret(file, key@, before@, environment@),
{
    let said = match parsed {
        Some(local) => match local.text_field(key) {
            Some(text) => text,
            None => before,
        },
        None => before,
    };
    if said.unicode_len() == 0 {
        environment
    } else {
        said
    }
}

/// Whether `c` are the settings `config` with the secrets from their file `local` and from the
/// environment.
pub open spec fn is_loaded(
    c: Config,
    config: Config,
    local: Option<&str>,
    environment: Secrets,
) -> bool {
    &&& c.telegram_bot_token@ == secret(
        local,
        "telegram_bot_token"@,
        config.telegram_bot_token@,
        environment.telegram_bot_token@,
    )
    &&& c.telegram_chat_id@ == secret(
        local,
        "telegram_chat_id"@,
        config.telegram_chat_id@,
        environment.telegram_chat_id@,
    )
    &&& c.telegram_login_password@ == secret(
        local,
        "telegram_login_password"@,
        config.telegram_login_password@,
        environment.telegram_login_password@,
    )
    &&& c.mexc_api_key@ == secret(
        local,
        "mexc_api_key"@,
        config.mexc_api_key@,
        environment.mexc_api_key@,
    )
    &&& c.mexc_api_secret@ == secret(
        local,
        "mexc_api_secret"@,
        config.mexc_api_secret@,
        environment.mexc_api_secret@,
    )
    &&& c == (Config {
        telegram_bot_token: c.telegram_bot_token,
        telegram_chat_id: c.telegram_chat_id,
        telegram_login_password: c.telegram_login_password,
        mexc_api_key: c.mexc_api_key,
        mexc_api_secret: c.mexc_api_secret,
        ..config
    })
}

/// The settings with the secrets from their file `local` and from the environment. There must be a
/// symbol to watch.
pub fn load_config(config: Config, local: Option<&str>, environment: Secrets) -> (loaded: Result<
    Config,
    ConfigError,
>)
    ensures
        loaded is Err <==> config.symbols@.len() == 0,
        loaded matches Err(e) ==> e == ConfigError::NoSymbols,
        loaded matches Ok(c) ==> is_loaded(c, config, local, environment),
{
    let parsed = match local {
        Some(text) => parse_json(text),
        None => None,
    };
    let mut config = config;
    config.telegram_bot_token = chosen(
        &parsed,
        local,
        "telegram_bot_token",
        config.telegram_bot_token,
        environment.telegram_bot_token,
    );
    config.telegram_chat_id = chosen(
        &parsed,
        local,
        "telegram_chat_id",
        config.telegram_chat_id,
        environment.telegram_chat_id,
    );
    config.telegram_login_password = chosen(
        &parsed,
        local,
        "telegram_login_password",
        config.telegram_login_password,
        environment.telegram_login_password,
    );
    config.mexc_api_key = chosen(
        &parsed,
        local,
        "mexc_api_key",
        config.mexc_api_key,
        environment.mexc_api_key,
    );
    config.mexc_api_secret = chosen(
        &parsed,
        local,
        "mexc_api_secret",
        config.mexc_api_secret,
        environment.mexc_api_secret,
    );
    if config.symbols.len() == 0 {
        return Err(ConfigError::NoSymbols);
    }
    Ok(config)
}

/// The settings that can be changed, as they are at the start.
pub open spec fn live_of(config: Config) -> LiveConfig {
    LiveConfig {
        impulse_bps: config.impulse_bps,
        confirm_bps: config.confirm_bps,
        alert_diff_bps: config.alert_diff_bps,
        max_lag_ms: config.max_lag_ms,
        trade_margin_usdt: config.trade_notional_usdt,
        trade_leverage: config.trade_leverage,
        trade_enabled: config.trade_enabled,
    }
}

impl LiveConfig {
    /// The settings that can be changed, as they are at the start.
    pub fn of(config: &Config) -> (live: LiveConfig)
        ensures
            live == live_of(*config),
    {
        LiveConfig {
            impulse_bps: config.impulse_bps,
            confirm_bps: config.confirm_bps,
            alert_diff_bps: config.alert_diff_bps,
            max_lag_ms: config.max_lag_ms,
            trade_margin_usdt: config.trade_notional_usdt,
            trade_leverage: config.trade_leverage,
            trade_enabled: config.trade_enabled,
        }
    }
}

/// Whether `d` is neither below `low` nor above `high`.
pub open spec fn between(d: Decimal, low: int, high: int) -> bool {
    !below(d, whole(low)) && !below(whole(high), d)
}

/// Whether `d` is above zero and not above `high`.
pub open spec fn above_zero_to(d: Decimal, high: int) -> bool {
    d.positive() && !below(whole(high), d)
}

/// What is wrong with new settings, if anything.
pub open spec fn live_fault(cfg: LiveConfig) -> Option<Seq<char>> {
    if !between(cfg.trade_margin_usdt, 1, 100_000) {
        Some("trade_margin_usdt must be between 1 and 100000"@)
    } else if !(1 <= cfg.trade_leverage <= 50) {
        Some("trade_leverage must be between 1 and 50"@)
    } else if !above_zero_to(cfg.impulse_bps, 1_000) {
        Some("impulse_bps must be between 0 and 1000"@)
    } else if !above_zero_to(cfg.confirm_bps, 1_000) {
        Some("confirm_bps must be between 0 and 1000"@)
    } else if !above_zero_to(cfg.alert_diff_bps, 10_000) {
        Some("alert_diff_bps must be between 0 and 10000"@)
    } else if !(100 <= cfg.max_lag_ms <= 5_000) {
        Some("max_lag_ms must be between 100 and 5000"@)
    } else {
        None
    }
}

fn is_above_zero_to(d: &Decimal, high: i64) -> (yes: bool)
    ensures
        yes == above_zero_to(*d, high as int),
{
    d.is_positive() && !Decimal::of_int(high).less(d)
}

/// Whether new settings are sound.
pub fn validate_live_config(cfg: &LiveConfig) -> (checked: Result<(), &'static str>)
    ensures
        checked is Ok <==> live_fault(*cfg) is None,
        checked matches Err(message) ==> live_fault(*cfg) == Some(message@),
{
    if cfg.trade_margin_usdt.less(&Decimal::of_int(1)) || Decimal::of_int(100_000).less(
        &cfg.trade_margin_usdt,
    ) {
        return Err("trade_margin_usdt must be between 1 and 100000");
    }
    if cfg.trade_leverage < 1 || cfg.trade_leverage > 50 {
        return Err("trade_leverage must be between 1 and 50");
    }
    if !is_above_zero_to(&cfg.impulse_bps, 1_000) {
        return Err("impulse_bps must be between 0 and 1000");
    }
    if !is_above_zero_to(&cfg.confirm_bps, 1_000) {
        return Err("confirm_bps must be between 0 and 1000");
    }
    if !is_above_zero_to(&cfg.alert_diff_bps, 10_000) {
        return Err("alert_diff_bps must be between 0 and 10000");
    }
    if cfg.max_lag_ms < 100 || cfg.max_lag_ms > 5_000 {
        return Err("max_lag_ms must be between 100 and 5000");
    }
    Ok(())
}

/// Takes new settings over, if they are sound; else those that were in force stay.
pub fn change_live_config(live: &mut LiveConfig, new: LiveConfig) -> (changed: Result<
    (),
    &'static str,
>)
    ensures
        changed is Ok <==> live_fault(new) is None,
        changed matches Err(message) ==> live_fault(new) == Some(message@),
        *final(live) == (if live_fault(new) is None {
            new
        } else {
            *old(live)
        }),
{
    match validate_live_config(&new) {
        Ok(()) => {
            *live = new;
            Ok(())
        },
        Err(message) => Err(message),
    }
}

/// The fields of the file of the settings that follow the changes.
pub open spec fn live_fields(cfg: LiveConfig) -> Seq<(Seq<char>, JsonView)> {
    seq![
        ("impulse_bps"@, JsonView::Text(decimal_text(cfg.impulse_bps))),
        ("confirm_bps"@, JsonView::Text(decimal_text(cfg.confirm_bps))),
        (
            "max_lag_ms"@,
            JsonView::Number(Some(cfg.max_lag_ms as int), int_text(cfg.max_lag_ms as int)),
        ),
        ("alert_diff_bps"@, JsonView::Text(decimal_text(cfg.alert_diff_bps))),
        ("trade_notional_usdt"@, JsonView::Text(decimal_text(cfg.trade_margin_usdt))),
        (
            "trade_leverage"@,
            JsonView::Number(Some(cfg.trade_leverage as int), int_text(cfg.trade_leverage as int)),
        ),
        ("trade_enabled"@, JsonView::Flag(cfg.trade_enabled)),
    ]
}

/// The text of the file of the settings after a change, so that the change outlives a restart.
/// What is written of each number is read back as the same number.
pub fn persisted(text: &str, cfg: &LiveConfig) -> (new: Result<String, SetError>)
    ensures
        new == Err::<String, SetError>(SetError::NoJson) <==> json_parsed(text@) is None,
        new == Err::<String, SetError>(SetError::NoObject) <==> (json_parsed(text@) matches Some(v)
            && !(v is Object || v is Null)),
        new matches Ok(t) ==> written_for(t@, json_parsed(text@)->0, live_fields(*cfg)),
        new matches Ok(t) ==> readable(json_parsed(text@)->0) ==> (json_parsed(t@) matches Some(w)
            && keeps(w, json_parsed(text@)->0, live_fields(*cfg))),
        decimal_parsed(decimal_text(cfg.impulse_bps)) == Some(cfg.impulse_bps),
        decimal_parsed(decimal_text(cfg.confirm_bps)) == Some(cfg.confirm_bps),
        decimal_parsed(decimal_text(cfg.alert_diff_bps)) == Some(cfg.alert_diff_bps),
        decimal_parsed(decimal_text(cfg.trade_margin_usdt)) == Some(cfg.trade_margin_usdt),
{
    let mut fields: Vec<(String, FieldValue)> = Vec::new();
    fields.push(("impulse_bps".to_string(), FieldValue::Text(cfg.impulse_bps.text())));
    fields.push(("confirm_bps".to_string(), FieldValue::Text(cfg.confirm_bps.text())));
    fields.push(("max_lag_ms".to_string(), FieldValue::Number(cfg.max_lag_ms)));
    fields.push(("alert_diff_bps".to_string(), FieldValue::Text(cfg.alert_diff_bps.text())));
    fields.push(
        ("trade_notional_usdt".to_string(), FieldValue::Text(cfg.trade_margin_usdt.text())),
    );
    fields.push(("trade_leverage".to_string(), FieldValue::Number(cfg.trade_leverage as i64)));
    fields.push(("trade_enabled".to_string(), FieldValue::Flag(cfg.trade_enabled)));
    assert(fields_view(fields@) =~= live_fields(*cfg));
    proof {
        lemma_live_names_ordinary(*cfg);
    }
    with_fields(text, &fields)
}

/// The fields of the file of the secrets that hold the keys of MEXC.
pub open spec fn key_fields(api_key: Seq<char>, api_secret: Seq<char>) -> Seq<
    (Seq<char>, JsonView),
> {
    seq![
        ("mexc_api_key"@, JsonView::Text(api_key)),
        ("mexc_api_secret"@, JsonView::Text(api_secret)),
    ]
}

/// The text of the file of the secrets with new keys of MEXC. A file that is missing, or is no
/// JSON object, counts as empty.
pub fn save_mexc_keys(file: Option<&str>, api_key: &str, api_secret: &str) -> (new: String)
    ensures
        written_for(new@, object_in(file), key_fields(api_key@, api_secret@)),
        readable(object_in(file)) ==> (json_parsed(new@) matches Some(w) && keeps(
            w,
            object_in(file),
            key_fields(api_key@, api_secret@),
        )),
        (file matches Some(t) && json_object(t@) is Some) && ordinary(object_in(file))
            ==> json_parsed(file->0@) == Some(object_in(file)),
{
    let mut fields: Vec<(String, FieldValue)> = Vec::new();
    fields.push(("mexc_api_key".to_string(), FieldValue::Text(api_key.to_string())));
    fields.push(("mexc_api_secret".to_string(), FieldValue::Text(api_secret.to_string())));
    assert(fields_view(fields@) =~= key_fields(api_key@, api_secret@));
    proof {
        lemma_key_names_ordinary(api_key@, api_secret@);
    }
    with_fields_or_alone(file, &fields)
}

proof fn lemma_live_names_ordinary(cfg: LiveConfig)
    ensures
        ordinary_names(live_fields(cfg)),
{
    reveal_strlit("impulse_bps");
    reveal_strlit("confirm_bps");
    reveal_strlit("max_lag_ms");
    reveal_strlit("alert_diff_bps");
    reveal_strlit("trade_notional_usdt");
    reveal_strlit("trade_leverage");
    reveal_strlit("trade_enabled");
    reveal_strlit("$serde_json::private::RawValue");
    let fields = live_fields(cfg);
    assert forall|i: int| 0 <= i < fields.len() implies (#[trigger] fields[i]).0
        != private_name() by {
        assert(fields[i].0[0] != private_name()[0]);
    }
}

proof fn lemma_key_names_ordinary(api_key: Seq<char>, api_secret: Seq<char>)
    ensures
        ordinary_names(key_fields(api_key, api_secret)),
{
    reveal_strlit("mexc_api_key");
    reveal_strlit("mexc_api_secret");
    reveal_strlit("$serde_json::private::RawValue");
    let fields = key_fields(api_key, api_secret);
    assert forall|i: int| 0 <= i < fields.len() implies (#[trigger] fields[i]).0
        != private_name() by {
        assert(fields[i].0[0] != private_name()[0]);
    }
}

proof fn lemma_live_values_plain(cfg: LiveConfig, k: int)
    requires
        0 <= k < 7,
    ensures
        plain(live_fields(cfg)[k].1),
{
    integers_are_plain(cfg.max_lag_ms);
    integers_are_plain(cfg.trade_leverage as i64);
}

proof fn lemma_live_names(cfg: LiveConfig, k: int)
    requires
        0 <= k < 7,
    ensures
        lookup(live_fields(cfg), live_fields(cfg)[k].0) == Some(live_fields(cfg)[k].1),
{
    reveal_strlit("impulse_bps");
    reveal_strlit("confirm_bps");
    reveal_strlit("max_lag_ms");
    reveal_strlit("alert_diff_bps");
    reveal_strlit("trade_notional_usdt");
    reveal_strlit("trade_leverage");
    reveal_strlit("trade_enabled");
    let fields = live_fields(cfg);
    assert forall|i: int, j: int| 0 <= i < j < 7 implies fields[i].0 != fields[j].0 by {
        if i != 0 || j != 1 {
            assert(fields[i].0.len() != fields[j].0.len() || fields[i].0[0] != fields[j].0[0]
                || fields[i].0[6] != fields[j].0[6]);
        } else {
            assert(fields[0].0[0] == 'i' && fields[1].0[0] == 'c');
        }
    }
    lemma_lookup_at(fields, k);
}

/// The settings that were changed are those of the next start: each field that follows a change
/// has the new value in the new file, wherever that can be read and no field has the private name.
pub proof fn changes_outlive_a_restart(text: Seq<char>, v: JsonView, cfg: LiveConfig)
    requires
        written_for(text, v, live_fields(cfg)),
        ordinary(v),
        json_parsed(text) is Some,
    ensures
        forall|k: int|
            0 <= k < 7 ==> field(json_parsed(text)->0, (#[trigger] live_fields(cfg)[k]).0) == Some(
                live_fields(cfg)[k].1,
            ),
{
    assert forall|k: int| 0 <= k < 7 implies field(
        json_parsed(text)->0,
        (#[trigger] live_fields(cfg)[k]).0,
    ) == Some(live_fields(cfg)[k].1) by {
        lemma_live_names(cfg, k);
        lemma_live_names_ordinary(cfg);
        lemma_live_values_plain(cfg, k);
        set_field_is_read_back(text, v, live_fields(cfg), live_fields(cfg)[k].0);
    }
}

proof fn lemma_lookup_at(fields: Seq<(Seq<char>, JsonView)>, k: int)
    requires
        0 <= k < fields.len(),
        forall|i: int, j: int|
            0 <= i < j < fields.len() ==> (#[trigger] fields[i]).0 != (#[trigger] fields[j]).0,
    ensures
        lookup(fields, fields[k].0) == Some(fields[k].1),
    decreases fields.len(),
{
    if k > 0 {
        assert(fields[0].0 != fields[k].0);
        let rest = fields.subrange(1, fields.len() as int);
        assert forall|i: int, j: int| 0 <= i < j < rest.len() implies (#[trigger] rest[i]).0 != (
        #[trigger] rest[j]).0 by {
            assert(rest[i] == fields[i + 1] && rest[j] == fields[j + 1]);
        }
        lemma_lookup_at(rest, k - 1);
        assert(rest[k - 1] == fields[k]);
    }
}

/// The keys that were saved are those of the next start: wherever the new file can be read and no
/// field has the private name, keys that are not empty come before what the settings and the
/// environment say.
pub proof fn saved_keys_are_loaded(
    text: &str,
    v: JsonView,
    api_key: Seq<char>,
    api_secret: Seq<char>,
    before: Seq<char>,
    environment: Seq<char>,
)
    requires
        written_for(text@, v, key_fields(api_key, api_secret)),
        ordinary(v),
        json_parsed(text@) is Some,
    ensures
        api_key.len() > 0 ==> secret(Some(text), "mexc_api_key"@, before, environment) == api_key,
        api_secret.len() > 0 ==> secret(Some(text), "mexc_api_secret"@, before, environment)
            == api_secret,
{
    reveal_strlit("mexc_api_key");
    reveal_strlit("mexc_api_secret");
    let fields = key_fields(api_key, api_secret);
    assert(fields[0].0.len() != fields[1].0.len());
    lemma_key_names_ordinary(api_key, api_secret);
    lemma_lookup_at(fields, 0);
    lemma_lookup_at(fields, 1);
    set_field_is_read_back(text@, v, fields, "mexc_api_key"@);
    set_field_is_read_back(text@, v, fields, "mexc_api_secret"@);
}

/// New keys leave the other secrets as they were: wherever both files can be read, no field has the
/// private name and the numbers in the secret are plain, it is read from the new file as from the
/// old one.
pub proof fn new_keys_leave_other_secrets(
    old_text: &str,
    text: &str,
    v: JsonView,
    api_key: Seq<char>,
    api_secret: Seq<char>,
    name: Seq<char>,
    before: Seq<char>,
    environment: Seq<char>,
)
    requires
        json_parsed(old_text@) == Some(v),
        written_for(text@, v, key_fields(api_key, api_secret)),
        ordinary(v),
        json_parsed(text@) is Some,
        name != "mexc_api_key"@,
        name != "mexc_api_secret"@,
        field(v, name) matches Some(x) ==> plain(x),
    ensures
        secret(Some(text), name, before, environment) == secret(
            Some(old_text),
            name,
            before,
            environment,
        ),
{
    let fields = key_fields(api_key, api_secret);
    lemma_key_names_ordinary(api_key, api_secret);
    assert(lookup(fields.subrange(1, 2).subrange(1, 1), name) is None);
    assert(lookup(fields.subrange(1, 2), name) is None);
    other_field_is_kept(text@, v, fields, name);
}

} // verus!
