//! When a move on Binance is noted, when MEXC has followed it, and what a trade on it would bring.

use vstd::prelude::*;

use crate::alert::{alert_step, alerts_only_look};
use crate::config::{Config, LiveConfig};
use crate::decimal::{
    below, decimal_difference, decimal_product, made_parts, pow10, pow10_is_positive,
    Decimal, Overflow,
};
use crate::laws::alerts::money_is_ten_thousandths;
use crate::laws::measures::{
    in_range, is_middle, is_money, is_move, is_share, is_spread, measures_mean_what_they_say,
    standing_still_is_no_move,
};
use crate::monitor::{
    after_quote, can_expire, confirms, counted, dropped_by, missed_by,
    overdue_symbols, quote_fails, quote_step, slippage_of, stats_after, LagRecord, QuoteOutcome,
    Seen, Slippage,
};
use crate::quotes::{right_move, Exchange, QuoteUpdate};
use crate::state::{PendingEvent, SymbolState};
use crate::stats::{Direction, Stats, Tally};

verus! {

/// A quote is taken in before the difference is looked at, and the look changes nothing of what the
/// quote has shown.
pub proof fn quotes_come_before_alerts(
    config: Config,
    live: LiveConfig,
    state: SymbolState,
    update: QuoteUpdate,
    client_active: bool,
    now: i64,
    after: SymbolState,
    done: QuoteOutcome,
)
    requires
        quote_step(config, live, state, update, client_active, now) == Ok::<_, Overflow>(
            (after, done),
        ),
    ensures
        after_quote(config, live, state, update) matches Ok((quoted, seen)) && {
            &&& seen == done.seen
            &&& alert_step(config, live, quoted, client_active, now) == Ok::<_, Overflow>(
                (after, done.alert),
            )
            &&& after.pending == quoted.pending
            &&& after.last_event_ts_ms == quoted.last_event_ts_ms
            &&& quoted.active_diff_alert == state.active_diff_alert
            &&& quoted.trade_open == state.trade_open
            &&& quoted.last_diff_alert_closed_ms == state.last_diff_alert_closed_ms
            &&& (if update.exchange == Exchange::Binance {
                quoted.last_binance == Some(update) && quoted.last_mexc == state.last_mexc
            } else {
                quoted.last_mexc == Some(update) && quoted.last_binance == state.last_binance
            })
        },
{
    let (quoted, seen) = after_quote(config, live, state, update)->Ok_0;
    alerts_only_look(config, live, quoted, client_active, now);
}

/// A move on Binance is noted with what was quoted: its start and end are the middles of the last
/// and the new quote of Binance, which come within the window and differ by the threshold or more,
/// and the start of MEXC is its last quote as it stands. The move is up exactly where the middle
/// rose.
pub proof fn moves_are_noted_as_quoted(
    config: Config,
    live: LiveConfig,
    state: SymbolState,
    update: QuoteUpdate,
    after: SymbolState,
)
    requires
        after_quote(config, live, state, update) == Ok::<_, Overflow>((after, Seen::Impulse)),
    ensures
        update.exchange == Exchange::Binance,
        after.pending is Some,
        state.last_mexc is Some,
        state.last_binance is Some,
        is_middle(state.last_mexc->0, after.pending->0.mexc_start_mid),
        after.pending->0.mexc_start_bid == state.last_mexc->0.bid,
        after.pending->0.mexc_start_ask == state.last_mexc->0.ask,
        is_middle(state.last_binance->0, after.pending->0.binance_start_mid),
        is_middle(update, after.pending->0.binance_end_mid),
        after.pending->0.binance_start_mid.mantissa_spec() > 0,
        after.pending->0.binance_end_mid.mantissa_spec() > 0,
        after.pending->0.binance_event_ts_ms == update.recv_ts_ms,
        after.pending->0.created_recv_ts_ms == update.recv_ts_ms,
        after.last_event_ts_ms == update.recv_ts_ms,
        0 <= update.recv_ts_ms - state.last_binance->0.recv_ts_ms <= config.impulse_window_ms,
        update.recv_ts_ms - state.last_event_ts_ms >= config.event_cooldown_ms,
        exists|moved: Decimal|
            {
                &&& #[trigger] is_move(
                    after.pending->0.binance_start_mid,
                    after.pending->0.binance_end_mid,
                    moved,
                )
                &&& !below(moved.abs_spec(), live.impulse_bps)
                &&& after.pending->0.direction == (if moved.mantissa_spec() > 0 {
                    Direction::Up
                } else {
                    Direction::Down
                })
            },
{
    let (b, m) = (state.last_binance->0, state.last_mexc->0);
    let p = after.pending->0;
    measures_mean_what_they_say(b, p.binance_start_mid, p.binance_end_mid);
    measures_mean_what_they_say(m, p.binance_start_mid, p.binance_end_mid);
    measures_mean_what_they_say(update, p.binance_start_mid, p.binance_end_mid);
    let moved = crate::quotes::move_bps(p.binance_start_mid, p.binance_end_mid)->0;
    assert(is_move(p.binance_start_mid, p.binance_end_mid, moved));
}

/// Each move on Binance that comes in time and is as large as the threshold is noted.
pub proof fn large_moves_are_noted(
    config: Config,
    live: LiveConfig,
    state: SymbolState,
    update: QuoteUpdate,
    before: QuoteUpdate,
    mexc: QuoteUpdate,
    from: Decimal,
    to: Decimal,
    moved: Decimal,
    mexc_mid: Decimal,
)
    requires
        update.exchange == Exchange::Binance,
        state.last_binance == Some(before),
        state.last_mexc == Some(mexc),
        0 <= update.recv_ts_ms - before.recv_ts_ms <= config.impulse_window_ms,
        config.event_cooldown_ms <= update.recv_ts_ms - state.last_event_ts_ms <= i64::MAX,
        is_middle(before, from),
        is_middle(update, to),
        is_middle(mexc, mexc_mid),
        from.mantissa_spec() > 0,
        to.mantissa_spec() > 0,
        is_move(from, to, moved),
        !below(moved.abs_spec(), live.impulse_bps),
    ensures
        after_quote(config, live, state, update) matches Ok((after, seen)) && seen is Impulse
            && after.pending is Some && after.last_binance == Some(update),
{
    measures_mean_what_they_say(before, from, to);
    measures_mean_what_they_say(update, from, to);
    measures_mean_what_they_say(mexc, from, to);
}

/// A quote of Binance that shows no move leaves the pending one as it is.
pub proof fn other_quotes_of_binance_leave_the_pending_move(
    config: Config,
    live: LiveConfig,
    state: SymbolState,
    update: QuoteUpdate,
    after: SymbolState,
    seen: Seen,
)
    requires
        after_quote(config, live, state, update) == Ok::<_, Overflow>((after, seen)),
        update.exchange == Exchange::Binance,
    ensures
        seen is Impulse || seen is Nothing,
        seen is Nothing ==> after.pending == state.pending && after.last_event_ts_ms
            == state.last_event_ts_ms,
{
}

/// A pending move is missed exactly where a quote of MEXC comes later than allowed, whatever its
/// prices are, and is pending no longer. Until it is missed or followed, it stays as it is.
pub proof fn late_quotes_miss_the_move(
    config: Config,
    live: LiveConfig,
    state: SymbolState,
    update: QuoteUpdate,
    pending: PendingEvent,
)
    requires
        update.exchange == Exchange::Mexc,
        state.pending == Some(pending),
        i64::MIN <= update.recv_ts_ms - pending.created_recv_ts_ms <= i64::MAX,
    ensures
        update.recv_ts_ms - pending.created_recv_ts_ms > live.max_lag_ms ==> (after_quote(
            config,
            live,
            state,
            update,
        ) matches Ok((after, seen)) && seen is Missed && after.pending is None),
        update.recv_ts_ms - pending.created_recv_ts_ms <= live.max_lag_ms ==> (after_quote(
            config,
            live,
            state,
            update,
        ) matches Ok((after, seen)) ==> !(seen is Missed) && !(seen is Impulse) && (
        after.pending is None <==> seen is Followed) && (seen is Nothing ==> after.pending
            == Some(pending))),
{
}

/// Without a pending move a quote of MEXC shows nothing.
pub proof fn mexc_alone_shows_nothing(
    config: Config,
    live: LiveConfig,
    state: SymbolState,
    update: QuoteUpdate,
)
    requires
        update.exchange == Exchange::Mexc,
        state.pending is None,
    ensures
        after_quote(config, live, state, update) matches Ok((after, seen)) && seen is Nothing
            && after.pending is None && after.last_mexc == Some(update) && after.last_event_ts_ms
            == state.last_event_ts_ms,
{
}

/// Whether `moved` goes in `direction` by `threshold` or more.
pub open spec fn goes_as_far(direction: Direction, moved: Decimal, threshold: Decimal) -> bool {
    let way = if direction == Direction::Up {
        moved.mantissa_spec()
    } else {
        -moved.mantissa_spec()
    };
    way * pow10(threshold.scale_spec()) >= threshold.mantissa_spec() * pow10(moved.scale_spec())
}

/// What confirms a move goes in its direction by the threshold or more.
pub proof fn confirming_goes_as_far(live: LiveConfig, direction: Direction, moved: Decimal)
    requires
        in_range(live.confirm_bps),
    ensures
        confirms(live, direction, moved) <==> goes_as_far(direction, moved, live.confirm_bps),
{
    let c = live.confirm_bps;
    made_parts(-c.mantissa_spec(), c.scale_spec());
    let (m, p, q) = (moved.mantissa_spec(), pow10(c.scale_spec()), pow10(moved.scale_spec()));
    let k = c.mantissa_spec();
    assert((-k) * q == -(k * q)) by (nonlinear_arith);
    assert((-m) * p == -(m * p)) by (nonlinear_arith);
}

/// A recorded lag has a move of MEXC that goes in the direction of the noted one by the threshold or
/// more. So with a threshold above zero it has its sign, and its size is not below the threshold.
pub proof fn recorded_moves_reach_the_threshold(
    config: Config,
    live: LiveConfig,
    state: SymbolState,
    update: QuoteUpdate,
    after: SymbolState,
    record: LagRecord,
    slippage: Slippage,
)
    requires
        after_quote(config, live, state, update) == Ok::<_, Overflow>(
            (after, Seen::Followed { record, slippage }),
        ),
        in_range(live.confirm_bps),
    ensures
        goes_as_far(record.direction, record.mexc_move_bps, live.confirm_bps),
        live.confirm_bps.mantissa_spec() > 0 && record.direction == Direction::Up
            ==> record.mexc_move_bps.mantissa_spec() > 0 && !below(
            record.mexc_move_bps,
            live.confirm_bps,
        ),
        live.confirm_bps.mantissa_spec() > 0 && record.direction == Direction::Down
            ==> record.mexc_move_bps.mantissa_spec() < 0 && (in_range(record.mexc_move_bps)
            ==> !below(record.mexc_move_bps.abs_spec(), live.confirm_bps)),
{
    let c = live.confirm_bps;
    let moved = record.mexc_move_bps;
    confirming_goes_as_far(live, record.direction, moved);
    let (m, k) = (moved.mantissa_spec(), c.mantissa_spec());
    let (p, q) = (pow10(c.scale_spec()), pow10(moved.scale_spec()));
    pow10_is_positive(c.scale_spec());
    pow10_is_positive(moved.scale_spec());
    if k > 0 {
        assert(k * q > 0) by (nonlinear_arith)
            requires
                k > 0,
                q > 0,
        ;
        assert(m * p > 0 ==> m > 0) by (nonlinear_arith)
            requires
                p > 0,
        ;
        assert((-m) * p > 0 ==> m < 0) by (nonlinear_arith)
            requires
                p > 0,
        ;
        if in_range(moved) {
            made_parts(-m, moved.scale_spec());
        }
    }
}

/// A record says what happened: the move that was pending, from the middles at which it was noted to
/// the middle that MEXC quotes now, and the time from the one to the other, which is not longer
/// than allowed.
pub proof fn records_say_what_happened(
    config: Config,
    live: LiveConfig,
    state: SymbolState,
    update: QuoteUpdate,
    after: SymbolState,
    record: LagRecord,
    slippage: Slippage,
)
    requires
        after_quote(config, live, state, update) == Ok::<_, Overflow>(
            (after, Seen::Followed { record, slippage }),
        ),
    ensures
        update.exchange == Exchange::Mexc,
        after.pending is None,
        after.last_mexc == Some(update),
        state.pending is Some,
        update.recv_ts_ms - state.pending->0.created_recv_ts_ms <= live.max_lag_ms,
        record.symbol == update.symbol,
        record.direction == state.pending->0.direction,
        record.binance_start_mid == state.pending->0.binance_start_mid,
        record.binance_end_mid == state.pending->0.binance_end_mid,
        record.mexc_start_mid == state.pending->0.mexc_start_mid,
        record.binance_event_ts_ms == state.pending->0.binance_event_ts_ms,
        record.mexc_recv_ts_ms == update.recv_ts_ms,
        record.lag_ms == record.mexc_recv_ts_ms - record.binance_event_ts_ms,
        is_middle(update, record.mexc_confirm_mid),
        record.mexc_start_mid.mantissa_spec() > 0,
        record.mexc_confirm_mid.mantissa_spec() > 0,
        is_move(record.mexc_start_mid, record.mexc_confirm_mid, record.mexc_move_bps),
        is_move(record.binance_start_mid, record.binance_end_mid, record.binance_move_bps),
        slippage_of(config, live, record.direction, state.pending->0, update) == Some(slippage),
{
    measures_mean_what_they_say(update, record.mexc_start_mid, record.mexc_confirm_mid);
    measures_mean_what_they_say(update, record.binance_start_mid, record.binance_end_mid);
}

/// MEXC has followed as soon as a quote in time goes as far as it must, unless a number is too large
/// to be recorded; and a quote that does not go as far shows nothing.
pub proof fn moves_that_go_as_far_are_recorded(
    config: Config,
    live: LiveConfig,
    state: SymbolState,
    update: QuoteUpdate,
    pending: PendingEvent,
    current: Decimal,
    moved: Decimal,
)
    requires
        update.exchange == Exchange::Mexc,
        state.pending == Some(pending),
        i64::MIN <= update.recv_ts_ms - pending.created_recv_ts_ms <= live.max_lag_ms,
        is_middle(update, current),
        current.mantissa_spec() > 0,
        pending.mexc_start_mid.mantissa_spec() > 0,
        is_move(pending.mexc_start_mid, current, moved),
        in_range(live.confirm_bps),
    ensures
        goes_as_far(pending.direction, moved, live.confirm_bps) ==> (after_quote(
            config,
            live,
            state,
            update,
        ) matches Ok((after, seen)) ==> seen is Followed),
        !goes_as_far(pending.direction, moved, live.confirm_bps) ==> (after_quote(
            config,
            live,
            state,
            update,
        ) matches Ok((after, seen)) && seen is Nothing && after.pending == Some(pending)),
{
    measures_mean_what_they_say(update, pending.mexc_start_mid, current);
    confirming_goes_as_far(live, pending.direction, moved);
}

/// A quote of MEXC with the middle that it had when the move was noted never follows the move, where
/// the threshold is above zero.
pub proof fn standing_still_is_not_following(
    config: Config,
    live: LiveConfig,
    noted: SymbolState,
    impulse: QuoteUpdate,
    state: SymbolState,
    update: QuoteUpdate,
    mid: Decimal,
)
    requires
        after_quote(config, live, noted, impulse) == Ok::<_, Overflow>((state, Seen::Impulse)),
        update.exchange == Exchange::Mexc,
        update.bid == noted.last_mexc->0.bid,
        update.ask == noted.last_mexc->0.ask,
        is_middle(update, mid),
        mid.mantissa_spec() > 0,
        in_range(mid),
        right_move(mid, mid),
        in_range(live.confirm_bps),
        live.confirm_bps.mantissa_spec() > 0,
    ensures
        after_quote(config, live, state, update) matches Ok((after, seen)) ==> !(seen is Followed),
{
    moves_are_noted_as_quoted(config, live, noted, impulse, state);
    standing_still_is_no_move(mid);
    measures_mean_what_they_say(update, mid, mid);
    let pending = state.pending->0;
    assert(pending.mexc_start_mid == mid);
    let moved = crate::quotes::move_bps(mid, mid)->0;
    confirming_goes_as_far(live, pending.direction, moved);
    let c = live.confirm_bps;
    pow10_is_positive(moved.scale_spec());
    let (k, q) = (c.mantissa_spec(), pow10(moved.scale_spec()));
    assert(k * q > 0) by (nonlinear_arith)
        requires
            k > 0,
            q > 0,
    ;
    assert(0 * pow10(c.scale_spec()) == 0) by (nonlinear_arith);
}

// What a trade on the move would have brought.

/// Whether `gain` is what a trade in `direction` brings, in ten thousandths of its entry: up, it
/// buys at `entry_ask` and sells at `exit_bid`; down, it sells at `entry_bid` and buys back at
/// `exit_ask`. Without an entry above zero it is zero.
pub open spec fn is_crossing_gain(
    direction: Direction,
    entry_bid: Decimal,
    entry_ask: Decimal,
    exit_bid: Decimal,
    exit_ask: Decimal,
    gain: Decimal,
) -> bool {
    if direction == Direction::Up {
        if entry_ask.mantissa_spec() > 0 {
            decimal_difference(exit_bid, entry_ask) matches Some(way) && is_share(
                way,
                entry_ask,
                gain,
            )
        } else {
            gain == Decimal::made(0, 0)
        }
    } else {
        if entry_bid.mantissa_spec() > 0 {
            decimal_difference(entry_bid, exit_ask) matches Some(way) && is_share(
                way,
                entry_bid,
                gain,
            )
        } else {
            gain == Decimal::made(0, 0)
        }
    }
}

/// The estimate of a trade holds the prices that MEXC quoted when the move was noted and when it
/// followed. The gain is that of crossing both spreads, the fees are taken twice, and the money is
/// what the gain makes on the margin that is set now, times its leverage.
pub proof fn slippage_is_that_of_the_quotes(
    config: Config,
    live: LiveConfig,
    direction: Direction,
    pending: PendingEvent,
    confirm: QuoteUpdate,
    s: Slippage,
)
    requires
        slippage_of(config, live, direction, pending, confirm) == Some(s),
    ensures
        s.entry_bid == pending.mexc_start_bid,
        s.entry_ask == pending.mexc_start_ask,
        s.exit_bid == confirm.bid,
        s.exit_ask == confirm.ask,
        is_spread(s.entry_bid, s.entry_ask, s.entry_spread_bps),
        is_spread(s.exit_bid, s.exit_ask, s.exit_spread_bps),
        is_crossing_gain(
            direction,
            s.entry_bid,
            s.entry_ask,
            s.exit_bid,
            s.exit_ask,
            s.gross_cross_bps,
        ),
        decimal_product(config.mexc_taker_fee_bps, Decimal::made(2, 0)) == Some(s.fees_bps),
        decimal_difference(s.gross_cross_bps, s.fees_bps) == Some(s.net_cross_bps),
        decimal_product(
            live.trade_margin_usdt,
            Decimal::made(live.trade_leverage as int, 0),
        ) matches Some(stake) && is_money(stake, s.net_cross_bps, s.estimated_pnl_usdt)
            && is_money(stake, s.gross_cross_bps, s.pnl_zero_fee_usdt),
{
    let entry = QuoteUpdate { bid: pending.mexc_start_bid, ask: pending.mexc_start_ask, ..confirm };
    measures_mean_what_they_say(entry, pending.mexc_start_ask, confirm.bid);
    measures_mean_what_they_say(confirm, pending.mexc_start_bid, confirm.ask);
    if direction == Direction::Down && pending.mexc_start_bid.mantissa_spec() > 0 {
        let way = decimal_difference(pending.mexc_start_bid, confirm.ask)->0;
        measures_mean_what_they_say(confirm, way, pending.mexc_start_bid);
    }
    let stake = decimal_product(
        live.trade_margin_usdt,
        Decimal::made(live.trade_leverage as int, 0),
    )->0;
    money_is_ten_thousandths(stake, s.net_cross_bps);
    money_is_ten_thousandths(stake, s.gross_cross_bps);
}

/// Of the settings of the start, only the fee counts for the estimate; of those that can be changed,
/// only the margin and the leverage. And of the pending move, only the prices of MEXC.
pub proof fn slippage_rests_on_fee_margin_and_leverage(
    config: Config,
    other_config: Config,
    live: LiveConfig,
    other_live: LiveConfig,
    direction: Direction,
    pending: PendingEvent,
    other_pending: PendingEvent,
    confirm: QuoteUpdate,
    other_confirm: QuoteUpdate,
)
    requires
        config.mexc_taker_fee_bps == other_config.mexc_taker_fee_bps,
        live.trade_margin_usdt == other_live.trade_margin_usdt,
        live.trade_leverage == other_live.trade_leverage,
        pending.mexc_start_bid == other_pending.mexc_start_bid,
        pending.mexc_start_ask == other_pending.mexc_start_ask,
        confirm.bid == other_confirm.bid,
        confirm.ask == other_confirm.ask,
    ensures
        slippage_of(config, live, direction, pending, confirm) == slippage_of(
            other_config,
            other_live,
            direction,
            other_pending,
            other_confirm,
        ),
{
}

/// Fees only lower what a trade brings: without them, both estimates are the same.
pub proof fn without_fees_both_estimates_agree(
    config: Config,
    live: LiveConfig,
    direction: Direction,
    pending: PendingEvent,
    confirm: QuoteUpdate,
    s: Slippage,
)
    requires
        slippage_of(config, live, direction, pending, confirm) == Some(s),
        decimal_difference(s.gross_cross_bps, s.fees_bps) == Some(s.gross_cross_bps),
    ensures
        s.net_cross_bps == s.gross_cross_bps,
        s.estimated_pnl_usdt == s.pnl_zero_fee_usdt,
{
}

// What is counted.

/// A quote is counted once, for its exchange, in all and for its symbol. A noted move, a missed one
/// and a followed one each raise their own count by one and no other. The lag of a followed move is
/// the last of those that are kept. Other symbols are not touched.
pub proof fn quotes_are_counted_once(
    before: Stats,
    after: Stats,
    symbol: Seq<char>,
    exchange: Exchange,
    seen: Seen,
)
    requires
        stats_after(before, after, symbol, exchange, seen),
    ensures
        counts_went_up(before.total(), after.total(), exchange, seen),
        counts_went_up(before.of(symbol), after.of(symbol), exchange, seen),
        !(seen is Followed) ==> after.estimate(symbol) == before.estimate(symbol),
        seen matches Seen::Followed { record, slippage } ==> {
            &&& after.total().lags.len() > 0 && after.total().lags.last() == record.lag_ms
            &&& after.of(symbol).lags.len() > 0 && after.of(symbol).lags.last() == record.lag_ms
            &&& before.total().lags.len() < 10_000 ==> after.total().lags == before.total().lags.push(
                record.lag_ms,
            )
            &&& before.of(symbol).lags.len() < 2_000 ==> after.of(symbol).lags == before.of(
                symbol,
            ).lags.push(record.lag_ms)
            &&& before.total().lags.len() == 10_000 ==> after.total().lags == before.total().lags.push(
                record.lag_ms,
            ).skip(5_000)
            &&& before.of(symbol).lags.len() == 2_000 ==> after.of(symbol).lags == before.of(
                symbol,
            ).lags.push(record.lag_ms).skip(1_000)
            &&& after.estimate(symbol) matches Some(e) && e.direction == record.direction
                && e.lag_ms == record.lag_ms && e.gross_cross_bps == slippage.gross_cross_bps
                && e.net_fee_bps == slippage.net_cross_bps && e.net_zero_fee_bps
                == slippage.gross_cross_bps && e.pnl_fee_usdt == slippage.estimated_pnl_usdt
                && e.pnl_zero_fee_usdt == slippage.pnl_zero_fee_usdt
        },
        forall|other: Seq<char>|
            other != symbol ==> #[trigger] after.of(other) == before.of(other) && after.estimate(
                other,
            ) == before.estimate(other),
{
}

/// Whether each count of `after` is that of `before`, or one more where the quote or what it shows
/// raises it.
pub open spec fn counts_went_up(before: Tally, after: Tally, exchange: Exchange, seen: Seen) -> bool {
    &&& after.binance_quotes - before.binance_quotes == (if exchange == Exchange::Binance {
        1int
    } else {
        0
    })
    &&& after.mexc_quotes - before.mexc_quotes == (if exchange == Exchange::Mexc {
        1int
    } else {
        0
    })
    &&& after.impulses - before.impulses == (if seen is Impulse {
        1int
    } else {
        0
    })
    &&& after.matched - before.matched == (if seen is Followed {
        1int
    } else {
        0
    })
    &&& after.expired - before.expired == (if seen is Missed {
        1int
    } else {
        0
    })
    &&& !(seen is Followed) ==> after.lags == before.lags
}

/// Whether no count of `t` is full.
pub open spec fn none_full(t: Tally) -> bool {
    &&& t.binance_quotes < u64::MAX
    &&& t.mexc_quotes < u64::MAX
    &&& t.impulses < u64::MAX
    &&& t.matched < u64::MAX
    &&& t.expired < u64::MAX
}

/// As long as no count is full, a quote of a watched symbol fails only where a number is too large.
pub proof fn quotes_fail_only_on_large_numbers(
    config: Config,
    live: LiveConfig,
    state: SymbolState,
    stats: Stats,
    update: QuoteUpdate,
    client_active: bool,
    now: i64,
)
    requires
        none_full(stats.total()),
        none_full(stats.of(update.symbol@)),
    ensures
        quote_fails(config, live, state, stats, update, client_active, now) <==> quote_step(
            config,
            live,
            state,
            update,
            client_active,
            now,
        ) is Err,
{
}

/// A pending move is dropped exactly where it is older than allowed, and counted as missed once.
/// Everything else stays as it is.
pub proof fn old_moves_are_dropped(
    before: Map<Seq<char>, SymbolState>,
    after: Map<Seq<char>, SymbolState>,
    counts: Stats,
    new_counts: Stats,
    live: LiveConfig,
    now: int,
    symbol: Seq<char>,
)
    requires
        dropped_by(before, after, overdue_symbols(before, live, now)),
        missed_by(counts, new_counts, overdue_symbols(before, live, now)),
        before.contains_key(symbol),
    ensures
        after.contains_key(symbol),
        ({
            let late = before[symbol].pending matches Some(p) && now - p.created_recv_ts_ms
                > live.max_lag_ms;
            &&& late ==> after[symbol].pending is None
            &&& !late ==> after[symbol].pending == before[symbol].pending
            &&& new_counts.of(symbol).expired == counts.of(symbol).expired + (if late {
                1int
            } else {
                0
            })
        }),
        after[symbol].last_binance == before[symbol].last_binance,
        after[symbol].last_mexc == before[symbol].last_mexc,
        after[symbol].last_event_ts_ms == before[symbol].last_event_ts_ms,
        after[symbol].active_diff_alert == before[symbol].active_diff_alert,
        after[symbol].trade_open == before[symbol].trade_open,
        after[symbol].last_diff_alert_closed_ms == before[symbol].last_diff_alert_closed_ms,
        new_counts.of(symbol).binance_quotes == counts.of(symbol).binance_quotes,
        new_counts.of(symbol).mexc_quotes == counts.of(symbol).mexc_quotes,
        new_counts.of(symbol).impulses == counts.of(symbol).impulses,
        new_counts.of(symbol).matched == counts.of(symbol).matched,
        new_counts.of(symbol).lags == counts.of(symbol).lags,
        new_counts.estimate(symbol) == counts.estimate(symbol),
        new_counts.total().impulses == counts.total().impulses,
        new_counts.total().matched == counts.total().matched,
        new_counts.total().binance_quotes == counts.total().binance_quotes,
        new_counts.total().mexc_quotes == counts.total().mexc_quotes,
        new_counts.total().lags == counts.total().lags,
{
    assert(after[symbol] == after[symbol]);
    assert(new_counts.of(symbol) == new_counts.of(symbol));
    assert(new_counts.estimate(symbol) == new_counts.estimate(symbol));
}

/// Old moves are dropped unless a time or a count is too large: none of these can be where the times
/// lie after 1970 and the counts are far from full.
pub proof fn dropping_fails_only_on_large_numbers(
    states: Map<Seq<char>, SymbolState>,
    stats: Stats,
    live: LiveConfig,
    now: int,
)
    requires
        0 <= now <= i64::MAX,
        forall|symbol: Seq<char>| #[trigger]
            states.contains_key(symbol) ==> (states[symbol].pending matches Some(p) ==> 0
                <= p.created_recv_ts_ms),
        forall|symbol: Seq<char>| (#[trigger] stats.of(symbol)).expired < u64::MAX,
        stats.total().expired + overdue_symbols(states, live, now).len() <= u64::MAX,
    ensures
        can_expire(states, stats, live, now),
{
    assert forall|symbol: Seq<char>| #[trigger]
        overdue_symbols(states, live, now).contains(symbol) implies stats.of(symbol).expired
        < u64::MAX by {
        assert(stats.of(symbol).expired < u64::MAX);
    }
}

// What is always taken in.

/// A quote of Binance is taken in without a move where it is the first one, or MEXC has not quoted
/// yet, or it comes too late or too soon, or the middle has moved less than the threshold.
pub proof fn quotes_without_a_move_are_taken_in(
    config: Config,
    live: LiveConfig,
    state: SymbolState,
    update: QuoteUpdate,
)
    requires
        update.exchange == Exchange::Binance,
        ({
            ||| state.last_binance is None
            ||| state.last_mexc is None
            ||| state.last_binance matches Some(b) && {
                let elapsed = update.recv_ts_ms - b.recv_ts_ms;
                let rested = update.recv_ts_ms - state.last_event_ts_ms;
                &&& i64::MIN <= elapsed <= i64::MAX
                &&& i64::MIN <= rested <= i64::MAX
                &&& {
                    ||| elapsed < 0 || elapsed > config.impulse_window_ms
                    ||| rested < config.event_cooldown_ms
                    ||| exists|from: Decimal, to: Decimal, moved: Decimal|
                        #![trigger is_middle(b, from), is_middle(update, to), is_move(from, to, moved)]
                        is_middle(b, from) && is_middle(update, to) && from.mantissa_spec() > 0
                            && to.mantissa_spec() > 0 && is_move(from, to, moved) && below(
                            moved.abs_spec(),
                            live.impulse_bps,
                        )
                    ||| exists|from: Decimal, to: Decimal|
                        #![trigger is_middle(b, from), is_middle(update, to)]
                        is_middle(b, from) && is_middle(update, to) && (from.mantissa_spec() <= 0
                            || to.mantissa_spec() <= 0)
                }
            }
        }),
    ensures
        after_quote(config, live, state, update) matches Ok((after, seen)) && seen is Nothing
            && after.last_binance == Some(update) && after.pending == state.pending,
{
    if let Some(b) = state.last_binance {
        measures_mean_what_they_say(b, b.bid, b.ask);
        measures_mean_what_they_say(update, b.bid, b.ask);
        if b.mid_spec() is Some && update.mid_spec() is Some {
            measures_mean_what_they_say(b, b.mid_spec()->0, update.mid_spec()->0);
        }
    }
}

/// A quote of MEXC that does not follow for want of prices above zero is taken in, and the move stays
/// pending.
pub proof fn quotes_without_a_price_are_taken_in(
    config: Config,
    live: LiveConfig,
    state: SymbolState,
    update: QuoteUpdate,
    pending: PendingEvent,
    current: Decimal,
)
    requires
        update.exchange == Exchange::Mexc,
        state.pending == Some(pending),
        i64::MIN <= update.recv_ts_ms - pending.created_recv_ts_ms <= live.max_lag_ms,
        is_middle(update, current),
        pending.mexc_start_mid.mantissa_spec() <= 0 || current.mantissa_spec() <= 0,
    ensures
        after_quote(config, live, state, update) matches Ok((after, seen)) && seen is Nothing
            && after.pending == Some(pending) && after.last_mexc == Some(update),
{
    measures_mean_what_they_say(update, current, current);
}

/// Where MEXC has followed and the numbers of the record and the estimate can be written down, the
/// lag is recorded.
pub proof fn followed_moves_are_recorded(
    config: Config,
    live: LiveConfig,
    state: SymbolState,
    update: QuoteUpdate,
    pending: PendingEvent,
    current: Decimal,
    moved: Decimal,
    binance_moved: Decimal,
)
    requires
        update.exchange == Exchange::Mexc,
        state.pending == Some(pending),
        i64::MIN <= update.recv_ts_ms - pending.created_recv_ts_ms <= live.max_lag_ms,
        i64::MIN <= update.recv_ts_ms - pending.binance_event_ts_ms <= i64::MAX,
        is_middle(update, current),
        current.mantissa_spec() > 0,
        pending.mexc_start_mid.mantissa_spec() > 0,
        is_move(pending.mexc_start_mid, current, moved),
        is_move(pending.binance_start_mid, pending.binance_end_mid, binance_moved),
        in_range(live.confirm_bps),
        goes_as_far(pending.direction, moved, live.confirm_bps),
        slippage_of(config, live, pending.direction, pending, update) is Some,
    ensures
        after_quote(config, live, state, update) matches Ok((after, seen)) && seen is Followed
            && after.pending is None,
{
    measures_mean_what_they_say(update, pending.mexc_start_mid, current);
    measures_mean_what_they_say(update, pending.binance_start_mid, pending.binance_end_mid);
    confirming_goes_as_far(live, pending.direction, moved);
}

/// There is an estimate wherever its numbers can be written down.
pub proof fn estimates_are_made_where_they_can(
    config: Config,
    live: LiveConfig,
    direction: Direction,
    pending: PendingEvent,
    confirm: QuoteUpdate,
    entry_spread: Decimal,
    exit_spread: Decimal,
    gross: Decimal,
    fees: Decimal,
    net: Decimal,
    stake: Decimal,
    with_fees: Decimal,
    without_fees: Decimal,
)
    requires
        is_spread(pending.mexc_start_bid, pending.mexc_start_ask, entry_spread),
        is_spread(confirm.bid, confirm.ask, exit_spread),
        is_crossing_gain(
            direction,
            pending.mexc_start_bid,
            pending.mexc_start_ask,
            confirm.bid,
            confirm.ask,
            gross,
        ),
        decimal_product(config.mexc_taker_fee_bps, Decimal::made(2, 0)) == Some(fees),
        decimal_difference(gross, fees) == Some(net),
        decimal_product(
            live.trade_margin_usdt,
            Decimal::made(live.trade_leverage as int, 0),
        ) == Some(stake),
        is_money(stake, net, with_fees),
        is_money(stake, gross, without_fees),
    ensures
        slippage_of(config, live, direction, pending, confirm) matches Some(s)
            && s.gross_cross_bps == gross && s.net_cross_bps == net && s.estimated_pnl_usdt
            == with_fees && s.pnl_zero_fee_usdt == without_fees && s.entry_spread_bps
            == entry_spread && s.exit_spread_bps == exit_spread,
{
}

} // verus!
