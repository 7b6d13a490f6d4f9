//! When a difference between the exchanges is watched, told and traded on.

use vstd::prelude::*;

use crate::alert::{
    alert_step, edge_of, gap_in, pnl_of, AlertOutcome, DiffEdgeEstimate, Gap, Notice,
};
use crate::config::{Config, LiveConfig};
use crate::decimal::{
    below, below_is_irreflexive, below_is_transitive, decimal_difference, decimal_product, Decimal,
    Overflow,
};
use crate::laws::measures::{is_middle, is_money, is_share, is_spread, measures_mean_what_they_say};
use crate::quotes::QuoteUpdate;
use crate::state::{ActiveDiffAlert, Side, SymbolState};

verus! {

/// Whether both exchanges have quoted, and neither quote is too old or comes from the future.
pub open spec fn both_fresh(config: Config, state: SymbolState, now: i64) -> bool {
    &&& state.last_binance matches Some(b) && 0 <= now - b.recv_ts_ms <= config.max_quote_age_ms
    &&& state.last_mexc matches Some(m) && 0 <= now - m.recv_ts_ms <= config.max_quote_age_ms
}

/// Whether the times that a step takes apart can be taken apart.
pub open spec fn times_fit(state: SymbolState, now: i64) -> bool {
    &&& state.last_binance matches Some(b) ==> i64::MIN <= now - b.recv_ts_ms <= i64::MAX
    &&& state.last_mexc matches Some(m) ==> i64::MIN <= now - m.recv_ts_ms <= i64::MAX
    &&& state.active_diff_alert matches Some(a) ==> i64::MIN <= now - a.started_ms <= i64::MAX
    &&& i64::MIN <= now - state.last_diff_alert_closed_ms <= i64::MAX
}

/// Whether `edge` is what a trade at the prices of MEXC brings now, without fees, in ten
/// thousandths of the middle at Binance: bought at the ask where MEXC quotes lower, sold at the bid
/// where it does not.
pub open spec fn is_edge(b_mid: Decimal, mexc: QuoteUpdate, lower: bool, edge: Decimal) -> bool {
    if lower {
        decimal_difference(b_mid, mexc.ask) matches Some(gain) && is_share(gain, b_mid, edge)
    } else {
        decimal_difference(mexc.bid, b_mid) matches Some(gain) && is_share(gain, b_mid, edge)
    }
}

/// The difference that a step looks at is the one between the last quotes: both middles are above
/// zero, the difference is that of MEXC to Binance, and the edge, the spread and the money are
/// those of a trade at the prices that MEXC quotes now, with the stake that is set now.
pub proof fn difference_is_that_of_the_last_quotes(state: SymbolState, live: LiveConfig, gap: Gap)
    requires
        gap_in(state, live) == Ok::<_, Overflow>(Some(gap)),
    ensures
        state.last_binance matches Some(b) && is_middle(b, gap.b_mid),
        state.last_mexc matches Some(m) && is_middle(m, gap.m_mid) && is_edge(
            gap.b_mid,
            m,
            gap.diff_bps.mantissa_spec() < 0,
            gap.edge.edge_zero_fee_bps,
        ) && is_spread(m.bid, m.ask, gap.edge.mexc_spread_bps),
        gap.b_mid.mantissa_spec() > 0,
        gap.m_mid.mantissa_spec() > 0,
        live.alert_diff_bps.mantissa_spec() > 0,
        decimal_difference(gap.m_mid, gap.b_mid) == Some(gap.diff_usdt),
        is_share(gap.diff_usdt, gap.b_mid, gap.diff_bps),
        decimal_product(
            live.trade_margin_usdt,
            Decimal::made(live.trade_leverage as int, 0),
        ) matches Some(stake) && is_money(
            stake,
            gap.edge.edge_zero_fee_bps,
            gap.edge.pnl_zero_fee_usdt,
        ),
{
    let b = state.last_binance->0;
    let m = state.last_mexc->0;
    measures_mean_what_they_say(b, gap.diff_usdt, gap.b_mid);
    measures_mean_what_they_say(m, gap.diff_usdt, gap.b_mid);
}

/// There is a difference to look at as soon as both exchanges have quoted with middles above zero
/// and alerts are wanted, unless a number is too large; and else there is none.
pub proof fn difference_needs_both_exchanges(state: SymbolState, live: LiveConfig)
    ensures
        gap_in(state, live) == Ok::<Option<Gap>, Overflow>(None) <==> {
            ||| state.last_binance is None
            ||| state.last_mexc is None
            ||| live.alert_diff_bps.mantissa_spec() <= 0
            ||| exists|b: Decimal, m: Decimal|
                #![trigger is_middle(state.last_binance->0, b), is_middle(state.last_mexc->0, m)]
                is_middle(state.last_binance->0, b) && is_middle(state.last_mexc->0, m) && (
                b.mantissa_spec() <= 0 || m.mantissa_spec() <= 0)
        },
{
    if state.last_binance is Some && state.last_mexc is Some {
        let (p, q) = (state.last_binance->0, state.last_mexc->0);
        measures_mean_what_they_say(p, p.bid, p.bid);
        measures_mean_what_they_say(q, q.bid, q.bid);
        if p.mid_spec() is Some && q.mid_spec() is Some {
            assert(is_middle(p, p.mid_spec()->0) && is_middle(q, q.mid_spec()->0));
        }
    }
}

/// What a trade brings is measured from the quotes that are given: the spread and the edge are
/// those of MEXC against the middle at Binance, and the money is the edge on the stake.
pub proof fn estimate_is_that_of_the_quotes(
    binance: QuoteUpdate,
    mexc: QuoteUpdate,
    diff_bps: Decimal,
    stake: Decimal,
    e: DiffEdgeEstimate,
    b_mid: Decimal,
)
    requires
        edge_of(binance, mexc, diff_bps, stake) == Some(e),
        is_middle(binance, b_mid),
    ensures
        is_spread(mexc.bid, mexc.ask, e.mexc_spread_bps),
        is_money(stake, e.edge_zero_fee_bps, e.pnl_zero_fee_usdt),
        b_mid.mantissa_spec() > 0 ==> is_edge(
            b_mid,
            mexc,
            diff_bps.mantissa_spec() < 0,
            e.edge_zero_fee_bps,
        ),
        b_mid.mantissa_spec() <= 0 ==> e.edge_zero_fee_bps == Decimal::made(0, 0),
{
    measures_mean_what_they_say(mexc, binance.bid, b_mid);
    measures_mean_what_they_say(binance, binance.bid, b_mid);
}

/// Money on a stake is that many ten thousandths of it.
pub proof fn money_is_ten_thousandths(stake: Decimal, bps: Decimal)
    ensures
        pnl_of(stake, bps) matches Some(money) ==> is_money(stake, bps, money),
{
}

/// The subscribers are told of a difference that pays, and a trade is opened, only on quotes that
/// are fresh, where the difference is as wide now as the threshold says, the edge now is not below
/// the one that is asked for, and the difference has lasted as long as it must.
pub proof fn signals_are_earned(
    config: Config,
    live: LiveConfig,
    state: SymbolState,
    client_active: bool,
    now: i64,
    after: SymbolState,
    done: AlertOutcome,
)
    requires
        alert_step(config, live, state, client_active, now) == Ok::<_, Overflow>((after, done)),
        done.open_trade is Some || (done.notice matches Some(n) && n is Valuable),
    ensures
        both_fresh(config, state, now),
        gap_in(state, live) matches Ok(Some(gap)) && {
            &&& !below(gap.diff_bps.abs_spec(), live.alert_diff_bps)
            &&& !below(gap.edge.edge_zero_fee_bps, config.alert_min_edge_bps)
        },
        state.active_diff_alert matches Some(a) ==> now - a.started_ms
            >= config.alert_min_duration_ms && !a.notified,
        state.active_diff_alert is None ==> config.alert_min_duration_ms <= 0 && now
            - state.last_diff_alert_closed_ms >= 60_000,
        after.active_diff_alert matches Some(a) && a.notified,
{
}

/// What is earned is given: a watched difference of which nobody was told yet, that is wide now, has
/// lasted as long as it must and has the edge that is asked for, is told with the numbers of now;
/// and a trade is opened with it exactly where trades are wanted, orders can be sent and none is
/// open.
pub proof fn earned_signals_are_given(
    config: Config,
    live: LiveConfig,
    state: SymbolState,
    client_active: bool,
    now: i64,
    gap: Gap,
    active: ActiveDiffAlert,
)
    requires
        both_fresh(config, state, now),
        times_fit(state, now),
        gap_in(state, live) == Ok::<_, Overflow>(Some(gap)),
        state.active_diff_alert == Some(active),
        !active.notified,
        now - active.started_ms >= config.alert_min_duration_ms,
        !below(gap.diff_bps.abs_spec(), live.alert_diff_bps),
        !below(gap.edge.edge_zero_fee_bps, config.alert_min_edge_bps),
    ensures
        alert_step(config, live, state, client_active, now) matches Ok((after, done)) && {
            &&& after.active_diff_alert matches Some(a) && a.notified
            &&& done.notice matches Some(
                Notice::Valuable { active: a, gap: g, duration_ms, mexc_bid, mexc_ask, threshold_bps },
            ) && after.active_diff_alert == Some(a) && g == gap && duration_ms == now
                - active.started_ms && mexc_bid == state.last_mexc->0.bid && mexc_ask
                == state.last_mexc->0.ask && threshold_bps == live.alert_diff_bps
            &&& done.open_trade is Some <==> live.trade_enabled && client_active
                && !state.trade_open
            &&& !done.close_trade
            &&& done.stale_ages is None
        },
{
    let edge = gap.edge.edge_zero_fee_bps;
    below_is_irreflexive(edge);
    below_is_transitive(edge, active.max_edge_zero_fee_bps, config.alert_min_edge_bps);
    below_is_transitive(config.alert_min_edge_bps, edge, active.max_edge_zero_fee_bps);
}

/// Where a difference need not last, a new one that has the edge is traded on at once, and nobody
/// is told of it.
pub proof fn new_differences_are_traded_at_once(
    config: Config,
    live: LiveConfig,
    state: SymbolState,
    client_active: bool,
    now: i64,
    gap: Gap,
)
    requires
        both_fresh(config, state, now),
        times_fit(state, now),
        gap_in(state, live) == Ok::<_, Overflow>(Some(gap)),
        state.active_diff_alert is None,
        now - state.last_diff_alert_closed_ms >= 60_000,
        !below(gap.diff_bps.abs_spec(), live.alert_diff_bps),
    ensures
        alert_step(config, live, state, client_active, now) matches Ok((after, done)) && {
            let earned = config.alert_min_duration_ms <= 0 && !below(
                gap.edge.edge_zero_fee_bps,
                config.alert_min_edge_bps,
            );
            &&& after.active_diff_alert matches Some(a) && a.notified == earned
            &&& done.open_trade is Some <==> earned && live.trade_enabled && client_active
                && !state.trade_open
            &&& done.notice is None
            &&& !done.close_trade
        },
{
}

/// A trade goes from the middle at MEXC to the middle at Binance: it buys where MEXC quotes lower,
/// and sells where it does not. Its leverage is the one that is set now.
pub proof fn trades_go_to_the_price_of_binance(
    config: Config,
    live: LiveConfig,
    state: SymbolState,
    client_active: bool,
    now: i64,
    after: SymbolState,
    done: AlertOutcome,
)
    requires
        alert_step(config, live, state, client_active, now) == Ok::<_, Overflow>((after, done)),
    ensures
        done.open_trade matches Some(order) ==> {
            &&& live.trade_enabled && client_active && !state.trade_open && after.trade_open
            &&& is_middle(state.last_mexc->0, order.entry_price)
            &&& is_middle(state.last_binance->0, order.target_price)
            &&& decimal_difference(order.entry_price, order.target_price) matches Some(way)
                && order.direction == (if way.mantissa_spec() < 0 {
                1int
            } else {
                -1int
            })
            &&& order.leverage == live.trade_leverage
        },
{
    if done.open_trade is Some {
        let gap = gap_in(state, live)->Ok_0->0;
        difference_is_that_of_the_last_quotes(state, live, gap);
    }
}

/// With fresh quotes, a difference is watched after a step exactly where it is wide, and was watched
/// before or comes a minute or more after the last one.
pub proof fn watched_while_wide(
    config: Config,
    live: LiveConfig,
    state: SymbolState,
    client_active: bool,
    now: i64,
    gap: Gap,
)
    requires
        both_fresh(config, state, now),
        times_fit(state, now),
        gap_in(state, live) == Ok::<_, Overflow>(Some(gap)),
    ensures
        alert_step(config, live, state, client_active, now) matches Ok((after, done)) && {
            after.active_diff_alert is Some <==> !below(
                gap.diff_bps.abs_spec(),
                live.alert_diff_bps,
            ) && (state.active_diff_alert is Some || now - state.last_diff_alert_closed_ms
                >= 60_000)
        },
{
}

/// A new difference is noted with the numbers of now.
pub proof fn new_differences_are_noted(
    config: Config,
    live: LiveConfig,
    state: SymbolState,
    client_active: bool,
    now: i64,
    after: SymbolState,
    done: AlertOutcome,
)
    requires
        alert_step(config, live, state, client_active, now) == Ok::<_, Overflow>((after, done)),
        state.active_diff_alert is None,
    ensures
        after.active_diff_alert matches Some(a) ==> {
            &&& gap_in(state, live) matches Ok(Some(gap)) && a.start_diff_usdt == gap.diff_usdt
                && a.start_diff_bps == gap.diff_bps && a.max_abs_diff_bps
                == gap.diff_bps.abs_spec() && a.start_edge_zero_fee_bps
                == gap.edge.edge_zero_fee_bps && a.max_edge_zero_fee_bps
                == gap.edge.edge_zero_fee_bps
            &&& a.started_ms == now
            &&& a.side == (if a.start_diff_usdt.mantissa_spec() > 0 {
                Side::Above
            } else {
                Side::Below
            })
        },
        done.notice is None && !(state.trade_open && done.open_trade is Some),
        after.last_diff_alert_closed_ms == state.last_diff_alert_closed_ms,
{
}

/// With fresh quotes, a watched difference that is no longer wide is given up: its trade gets the
/// sign to close, the subscribers hear of it exactly if they had heard of it before, with how long
/// it lasted, and the rest begins.
pub proof fn narrow_differences_are_given_up(
    config: Config,
    live: LiveConfig,
    state: SymbolState,
    client_active: bool,
    now: i64,
    gap: Gap,
    active: ActiveDiffAlert,
)
    requires
        both_fresh(config, state, now),
        times_fit(state, now),
        gap_in(state, live) == Ok::<_, Overflow>(Some(gap)),
        state.active_diff_alert == Some(active),
        below(gap.diff_bps.abs_spec(), live.alert_diff_bps),
    ensures
        alert_step(config, live, state, client_active, now) matches Ok((after, done)) && {
            &&& after.active_diff_alert is None
            &&& !after.trade_open
            &&& after.last_diff_alert_closed_ms == now
            &&& done.close_trade == state.trade_open
            &&& done.open_trade is None
            &&& done.stale_ages is None
            &&& !active.notified ==> done.notice is None
            &&& active.notified ==> (done.notice matches Some(
                Notice::Closed { active: a, gap: g, duration_ms },
            ) && a == active && g == gap && duration_ms == now - active.started_ms)
        },
{
}

/// Where a quote is too old or comes from the future, nothing is watched any longer: an open trade
/// gets the sign to close, nobody is told, and the ages are given where something was watched.
pub proof fn old_quotes_end_the_watch(
    config: Config,
    live: LiveConfig,
    state: SymbolState,
    client_active: bool,
    now: i64,
    gap: Gap,
)
    requires
        !both_fresh(config, state, now),
        times_fit(state, now),
        gap_in(state, live) == Ok::<_, Overflow>(Some(gap)),
    ensures
        alert_step(config, live, state, client_active, now) matches Ok((after, done)) && {
            &&& after.active_diff_alert is None
            &&& !after.trade_open
            &&& done.close_trade == state.trade_open
            &&& done.open_trade is None
            &&& done.notice is None
            &&& state.active_diff_alert is Some ==> after.last_diff_alert_closed_ms == now
                && done.stale_ages == Some(
                (
                    (now - state.last_binance->0.recv_ts_ms) as i64,
                    (now - state.last_mexc->0.recv_ts_ms) as i64,
                ),
            )
            &&& state.active_diff_alert is None ==> after.last_diff_alert_closed_ms
                == state.last_diff_alert_closed_ms && done.stale_ages is None
        },
{
}

/// Without a difference to look at, and with one that is neither wide nor watched on fresh quotes,
/// nothing changes and nothing is to be done.
pub proof fn nothing_follows_from_nothing(
    config: Config,
    live: LiveConfig,
    state: SymbolState,
    client_active: bool,
    now: i64,
)
    requires
        times_fit(state, now),
        gap_in(state, live) matches Ok(None) || (gap_in(state, live) matches Ok(Some(gap))
            && both_fresh(config, state, now) && state.active_diff_alert is None && below(
            gap.diff_bps.abs_spec(),
            live.alert_diff_bps,
        )),
    ensures
        alert_step(config, live, state, client_active, now) matches Ok((after, done)) && after
            == state && !done.close_trade && done.open_trade is None && done.notice is None
            && done.stale_ages is None,
{
}

/// The largest difference and edge are those that were seen: each is the one from before or the one
/// of now.
pub proof fn largest_was_seen(
    config: Config,
    live: LiveConfig,
    state: SymbolState,
    client_active: bool,
    now: i64,
    after: SymbolState,
    done: AlertOutcome,
    before: ActiveDiffAlert,
    active: ActiveDiffAlert,
)
    requires
        alert_step(config, live, state, client_active, now) == Ok::<_, Overflow>((after, done)),
        state.active_diff_alert == Some(before),
        after.active_diff_alert == Some(active),
        gap_in(state, live) matches Ok(Some(_)),
    ensures
        gap_in(state, live) matches Ok(Some(gap)) && {
            &&& active.max_abs_diff_bps == before.max_abs_diff_bps || active.max_abs_diff_bps
                == gap.diff_bps.abs_spec()
            &&& active.max_edge_zero_fee_bps == before.max_edge_zero_fee_bps
                || active.max_edge_zero_fee_bps == gap.edge.edge_zero_fee_bps
            &&& active.max_abs_diff_bps == before.max_abs_diff_bps <== !below(
                before.max_abs_diff_bps,
                gap.diff_bps.abs_spec(),
            )
            &&& active.max_edge_zero_fee_bps == before.max_edge_zero_fee_bps <== !below(
                before.max_edge_zero_fee_bps,
                gap.edge.edge_zero_fee_bps,
            )
        },
        after.last_diff_alert_closed_ms == state.last_diff_alert_closed_ms,
        after.trade_open == (state.trade_open || done.open_trade is Some),
{
}

/// A step fails only on numbers or times that are too large, and never where the settings alone
/// differ in what is traded.
pub proof fn steps_fail_only_on_large_numbers(
    config: Config,
    live: LiveConfig,
    state: SymbolState,
    client_active: bool,
    now: i64,
)
    ensures
        alert_step(config, live, state, client_active, now) is Err ==> gap_in(state, live) is Err
            || !times_fit(state, now),
        gap_in(state, live) is Err ==> alert_step(config, live, state, client_active, now) is Err,
        alert_step(config, live, state, client_active, now) is Err <==> alert_step(
            config,
            live,
            state,
            !client_active,
            now,
        ) is Err,
{
}

/// There is a difference to look at wherever its numbers can be written down.
pub proof fn differences_are_measured_where_they_can(
    state: SymbolState,
    live: LiveConfig,
    b: QuoteUpdate,
    m: QuoteUpdate,
    b_mid: Decimal,
    m_mid: Decimal,
    diff: Decimal,
    diff_bps: Decimal,
    edge: Decimal,
    spread: Decimal,
    stake: Decimal,
    money: Decimal,
)
    requires
        state.last_binance == Some(b),
        state.last_mexc == Some(m),
        live.alert_diff_bps.mantissa_spec() > 0,
        is_middle(b, b_mid) && b_mid.mantissa_spec() > 0,
        is_middle(m, m_mid) && m_mid.mantissa_spec() > 0,
        decimal_difference(m_mid, b_mid) == Some(diff),
        is_share(diff, b_mid, diff_bps),
        is_edge(b_mid, m, diff_bps.mantissa_spec() < 0, edge),
        is_spread(m.bid, m.ask, spread),
        decimal_product(
            live.trade_margin_usdt,
            Decimal::made(live.trade_leverage as int, 0),
        ) == Some(stake),
        is_money(stake, edge, money),
    ensures
        gap_in(state, live) matches Ok(Some(gap)) && gap.b_mid == b_mid && gap.m_mid == m_mid
            && gap.diff_usdt == diff && gap.diff_bps == diff_bps && gap.edge.edge_zero_fee_bps
            == edge && gap.edge.mexc_spread_bps == spread && gap.edge.pnl_zero_fee_usdt == money,
{
}

} // verus!
