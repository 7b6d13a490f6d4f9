//! Which settings are sound, where secrets come from, and what outlives a restart.

use vstd::prelude::*;

use crate::config::{
    changes_outlive_a_restart, is_loaded, live_fault, live_fields, live_of, secret, Config, LiveConfig,
    Secrets,
};
use crate::decimal::{decimal_text, made_parts, pow10, Decimal};
use crate::json::{field, json_parsed, ordinary, written_for, JsonView};

verus! {

/// Whether `d` lies between `low` and `high`.
pub open spec fn lies_between(d: Decimal, low: int, high: int) -> bool {
    low * pow10(d.scale_spec()) <= d.mantissa_spec() <= high * pow10(d.scale_spec())
}

/// Whether `d` is above zero and at most `high`.
pub open spec fn lies_above_zero(d: Decimal, high: int) -> bool {
    0 < d.mantissa_spec() <= high * pow10(d.scale_spec())
}

/// Whether the margin of `cfg` can be used.
pub open spec fn margin_sound(cfg: LiveConfig) -> bool {
    lies_between(cfg.trade_margin_usdt, 1, 100_000)
}

/// Whether the leverage of `cfg` can be used.
pub open spec fn leverage_sound(cfg: LiveConfig) -> bool {
    1 <= cfg.trade_leverage <= 50
}

/// Whether the longest lag of `cfg` can be used.
pub open spec fn lag_sound(cfg: LiveConfig) -> bool {
    100 <= cfg.max_lag_ms <= 5_000
}

proof fn lemma_bounds(d: Decimal)
    ensures
        crate::config::between(d, 1, 100_000) <==> lies_between(d, 1, 100_000),
        crate::config::above_zero_to(d, 1_000) <==> lies_above_zero(d, 1_000),
        crate::config::above_zero_to(d, 10_000) <==> lies_above_zero(d, 10_000),
{
    made_parts(1, 0);
    made_parts(100_000, 0);
    made_parts(1_000, 0);
    made_parts(10_000, 0);
    assert(pow10(0) == 1);
    let m = d.mantissa_spec();
    assert(m * pow10(0) == m) by (nonlinear_arith)
        requires
            pow10(0) == 1,
    ;
}

/// New settings are taken exactly where the margin lies between 1 and 100000 USDT, the leverage
/// between 1 and 50, the thresholds above zero and at most at 1000 and 10000 basis points, and the
/// longest lag between 100 and 5000 milliseconds.
pub proof fn sound_settings_are_taken(cfg: LiveConfig)
    ensures
        live_fault(cfg) is None <==> {
            &&& margin_sound(cfg)
            &&& leverage_sound(cfg)
            &&& lies_above_zero(cfg.impulse_bps, 1_000)
            &&& lies_above_zero(cfg.confirm_bps, 1_000)
            &&& lies_above_zero(cfg.alert_diff_bps, 10_000)
            &&& lag_sound(cfg)
        },
{
    lemma_bounds(cfg.trade_margin_usdt);
    lemma_bounds(cfg.impulse_bps);
    lemma_bounds(cfg.confirm_bps);
    lemma_bounds(cfg.alert_diff_bps);
}

/// What is said of settings that are not taken is true of them: the setting that is named lies where
/// it must not.
pub proof fn faults_are_those_of_the_settings(cfg: LiveConfig, message: Seq<char>)
    requires
        live_fault(cfg) == Some(message),
    ensures
        ({
            ||| message == "trade_margin_usdt must be between 1 and 100000"@ && !margin_sound(cfg)
            ||| message == "trade_leverage must be between 1 and 50"@ && !leverage_sound(cfg)
            ||| message == "impulse_bps must be between 0 and 1000"@ && !lies_above_zero(
                cfg.impulse_bps,
                1_000,
            )
            ||| message == "confirm_bps must be between 0 and 1000"@ && !lies_above_zero(
                cfg.confirm_bps,
                1_000,
            )
            ||| message == "alert_diff_bps must be between 0 and 10000"@ && !lies_above_zero(
                cfg.alert_diff_bps,
                10_000,
            )
            ||| message == "max_lag_ms must be between 100 and 5000"@ && !lag_sound(cfg)
        }),
{
    lemma_bounds(cfg.trade_margin_usdt);
    lemma_bounds(cfg.impulse_bps);
    lemma_bounds(cfg.confirm_bps);
    lemma_bounds(cfg.alert_diff_bps);
}

/// Whether trades are wanted has no part in whether settings are sound.
pub proof fn trading_may_always_be_switched(cfg: LiveConfig)
    ensures
        live_fault(LiveConfig { trade_enabled: true, ..cfg }) == live_fault(
            LiveConfig { trade_enabled: false, ..cfg },
        ),
{
}

/// A secret is the text that its file has for it, where that is not empty. Where the file has no
/// text for it, it is what the settings said, and where that is empty, or the text is, it is what
/// the environment says.
pub proof fn secrets_come_from_their_file_first(
    file: Option<&str>,
    key: Seq<char>,
    before: Seq<char>,
    environment: Seq<char>,
)
    ensures
        (file matches Some(t) && (json_parsed(t@) matches Some(v) && (field(v, key) matches Some(
            JsonView::Text(s),
        ) && s.len() > 0))) ==> secret(file, key, before, environment) == field(
            json_parsed(file->0@)->0,
            key,
        )->0->Text_0,
        (file matches Some(t) && (json_parsed(t@) matches Some(v) && (field(v, key) matches Some(
            JsonView::Text(s),
        ) && s.len() == 0))) ==> secret(file, key, before, environment) == environment,
        !(file matches Some(t) && (json_parsed(t@) matches Some(v) && (field(v, key) matches Some(
            JsonView::Text(_),
        )))) ==> secret(file, key, before, environment) == (if before.len() > 0 {
            before
        } else {
            environment
        }),
{
}

/// After a change, the file of the settings says the new ones under the names from which they are
/// read at the next start; the margin stands under the name of the notional. This holds wherever the
/// file can be read and no field has the private name.
pub proof fn changed_settings_are_read_again(text: Seq<char>, v: JsonView, cfg: LiveConfig)
    requires
        written_for(text, v, live_fields(cfg)),
        ordinary(v),
        json_parsed(text) is Some,
    ensures
        ({
            let w = json_parsed(text)->0;
            &&& field(w, "impulse_bps"@) == Some(JsonView::Text(decimal_text(cfg.impulse_bps)))
            &&& field(w, "confirm_bps"@) == Some(JsonView::Text(decimal_text(cfg.confirm_bps)))
            &&& field(w, "alert_diff_bps"@) == Some(
                JsonView::Text(decimal_text(cfg.alert_diff_bps)),
            )
            &&& field(w, "trade_notional_usdt"@) == Some(
                JsonView::Text(decimal_text(cfg.trade_margin_usdt)),
            )
            &&& field(w, "max_lag_ms"@) matches Some(JsonView::Number(n, _)) && n == Some(
                cfg.max_lag_ms as int,
            )
            &&& field(w, "trade_leverage"@) matches Some(JsonView::Number(n, _)) && n == Some(
                cfg.trade_leverage as int,
            )
            &&& field(w, "trade_enabled"@) == Some(JsonView::Flag(cfg.trade_enabled))
        }),
{
    changes_outlive_a_restart(text, v, cfg);
    let f = live_fields(cfg);
    assert(f[0].0 == "impulse_bps"@ && f[1].0 == "confirm_bps"@ && f[2].0 == "max_lag_ms"@
        && f[3].0 == "alert_diff_bps"@ && f[4].0 == "trade_notional_usdt"@ && f[5].0
        == "trade_leverage"@ && f[6].0 == "trade_enabled"@);
}

/// Each secret is loaded from the field of its own name, else from the settings, else from the
/// environment.
pub proof fn each_secret_has_its_own_name(
    c: Config,
    config: Config,
    local: &str,
    environment: Secrets,
    v: JsonView,
)
    requires
        is_loaded(c, config, Some(local), environment),
        json_parsed(local@) == Some(v),
    ensures
        field(v, "telegram_bot_token"@) matches Some(JsonView::Text(s)) ==> s.len() > 0 ==> c.telegram_bot_token@ == field(
            v,
            "telegram_bot_token"@,
        )->0->Text_0,
        field(v, "telegram_bot_token"@) is None && config.telegram_bot_token@.len() > 0 ==> c.telegram_bot_token@
            == config.telegram_bot_token@,
        field(v, "telegram_bot_token"@) is None && config.telegram_bot_token@.len() == 0 ==> c.telegram_bot_token@
            == environment.telegram_bot_token@,
        field(v, "telegram_chat_id"@) matches Some(JsonView::Text(s)) ==> s.len() > 0 ==> c.telegram_chat_id@ == field(
            v,
            "telegram_chat_id"@,
        )->0->Text_0,
        field(v, "telegram_chat_id"@) is None && config.telegram_chat_id@.len() > 0 ==> c.telegram_chat_id@
            == config.telegram_chat_id@,
        field(v, "telegram_chat_id"@) is None && config.telegram_chat_id@.len() == 0 ==> c.telegram_chat_id@
            == environment.telegram_chat_id@,
        field(v, "telegram_login_password"@) matches Some(JsonView::Text(s)) ==> s.len() > 0 ==> c.telegram_login_password@ == field(
            v,
            "telegram_login_password"@,
        )->0->Text_0,
        field(v, "telegram_login_password"@) is None && config.telegram_login_password@.len() > 0 ==> c.telegram_login_password@
            == config.telegram_login_password@,
        field(v, "telegram_login_password"@) is None && config.telegram_login_password@.len() == 0 ==> c.telegram_login_password@
            == environment.telegram_login_password@,
        field(v, "mexc_api_key"@) matches Some(JsonView::Text(s)) ==> s.len() > 0 ==> c.mexc_api_key@ == field(
            v,
            "mexc_api_key"@,
        )->0->Text_0,
        field(v, "mexc_api_key"@) is None && config.mexc_api_key@.len() > 0 ==> c.mexc_api_key@
            == config.mexc_api_key@,
        field(v, "mexc_api_key"@) is None && config.mexc_api_key@.len() == 0 ==> c.mexc_api_key@
            == environment.mexc_api_key@,
        field(v, "mexc_api_secret"@) matches Some(JsonView::Text(s)) ==> s.len() > 0 ==> c.mexc_api_secret@ == field(
            v,
            "mexc_api_secret"@,
        )->0->Text_0,
        field(v, "mexc_api_secret"@) is None && config.mexc_api_secret@.len() > 0 ==> c.mexc_api_secret@
            == config.mexc_api_secret@,
        field(v, "mexc_api_secret"@) is None && config.mexc_api_secret@.len() == 0 ==> c.mexc_api_secret@
            == environment.mexc_api_secret@,
{
}

/// Loading the secrets leaves every other setting as it is.
pub proof fn loading_changes_only_secrets(
    c: Config,
    config: Config,
    local: Option<&str>,
    environment: Secrets,
)
    requires
        is_loaded(c, config, local, environment),
    ensures
        c.symbols == config.symbols,
        c.binance_ws == config.binance_ws,
        c.mexc_ws == config.mexc_ws,
        c.impulse_bps == config.impulse_bps,
        c.confirm_bps == config.confirm_bps,
        c.impulse_window_ms == config.impulse_window_ms,
        c.max_lag_ms == config.max_lag_ms,
        c.event_cooldown_ms == config.event_cooldown_ms,
        c.stats_interval_secs == config.stats_interval_secs,
        c.csv_path == config.csv_path,
        c.stats_csv_path == config.stats_csv_path,
        c.slippage_csv_path == config.slippage_csv_path,
        c.mexc_taker_fee_bps == config.mexc_taker_fee_bps,
        c.trade_notional_usdt == config.trade_notional_usdt,
        c.telegram_subscribers_path == config.telegram_subscribers_path,
        c.alert_diff_bps == config.alert_diff_bps,
        c.alert_min_edge_bps == config.alert_min_edge_bps,
        c.alert_min_duration_ms == config.alert_min_duration_ms,
        c.max_quote_age_ms == config.max_quote_age_ms,
        c.trade_enabled == config.trade_enabled,
        c.trade_vol == config.trade_vol,
        c.trade_leverage == config.trade_leverage,
        c.trade_timeout_ms == config.trade_timeout_ms,
{
}

/// The settings that can be changed start as the file says; the margin is the notional of the file.
pub proof fn live_settings_start_as_in_the_file(config: Config)
    ensures
        live_of(config).impulse_bps == config.impulse_bps,
        live_of(config).confirm_bps == config.confirm_bps,
        live_of(config).alert_diff_bps == config.alert_diff_bps,
        live_of(config).max_lag_ms == config.max_lag_ms,
        live_of(config).trade_margin_usdt == config.trade_notional_usdt,
        live_of(config).trade_leverage == config.trade_leverage,
        live_of(config).trade_enabled == config.trade_enabled,
{
}

} // verus!
