//! The monitor: a move on Binance is noted, and how long MEXC takes to follow it.

use vstd::prelude::*;

use crate::alert::{
    alert_step, check_price_diff_alert_at, is_i64, pnl, pnl_of, trade_belongs,
    trade_closes_with_its_difference, AlertOutcome,
};
use crate::clock::{clock_shows, now_ms};
use crate::config::{Config, LiveConfig};
use crate::decimal::{
    below, decimal_difference, decimal_product, fits, made_parts, sign_by_order, whole, zero_spec,
    Decimal, Overflow, MAX_SCALE,
};
use crate::quotes::{
    bps, change_bps, in_bps, move_bps, spread_bps, spread_bps_of, Exchange, QuoteUpdate,
};
use crate::state::{unknown, PendingEvent, SymbolState};
use crate::stats::{
    adds_up, counts_keep_adding_up, lags_bounded, lags_stay_bounded, nothing, summed, Direction,
    LastTradeEstimate, Stats, SymbolStats, Tally,
};
use crate::table::Table;
use crate::text::{lemma_pushed_contains, texts};

verus! {

/// A move on Binance that MEXC followed.
#[derive(Debug)]
pub struct LagRecord {
    pub symbol: String,
    pub direction: Direction,
    pub lag_ms: i64,
    pub binance_move_bps: Decimal,
    pub mexc_move_bps: Decimal,
    pub binance_start_mid: Decimal,
    pub binance_end_mid: Decimal,
    pub mexc_start_mid: Decimal,
    pub mexc_confirm_mid: Decimal,
    pub binance_event_ts_ms: i64,
    pub mexc_recv_ts_ms: i64,
}

/// What a trade would have brought that was opened at the quote of MEXC before the move and closed
/// at the quote that followed it.
#[derive(Clone, Copy, Debug, PartialEq, Eq, Structural)]
pub struct Slippage {
    pub entry_bid: Decimal,
    pub entry_ask: Decimal,
    pub exit_bid: Decimal,
    pub exit_ask: Decimal,
    pub entry_spread_bps: Decimal,
    pub exit_spread_bps: Decimal,
    pub gross_cross_bps: Decimal,
    pub fees_bps: Decimal,
    pub net_cross_bps: Decimal,
    pub estimated_pnl_usdt: Decimal,
    pub pnl_zero_fee_usdt: Decimal,
}

/// The gain of the trade in basis points, without fees: up, it buys at the ask and sells at the
/// bid; down, it sells at the bid and buys back at the ask.
pub open spec fn gross_bps(direction: Direction, pending: PendingEvent, confirm: QuoteUpdate) -> Option<
    Decimal,
> {
    match direction {
        Direction::Up => if pending.mexc_start_ask.positive() {
            move_bps(pending.mexc_start_ask, confirm.bid)
        } else {
            Some(zero_spec())
        },
        Direction::Down => if pending.mexc_start_bid.positive() {
            match decimal_difference(pending.mexc_start_bid, confirm.ask) {
                Some(gain) => in_bps(gain, pending.mexc_start_bid),
                None => None,
            }
        } else {
            Some(zero_spec())
        },
    }
}

/// What the trade would have brought, where all its numbers are small enough.
pub open spec fn slippage_of(
    config: Config,
    live: LiveConfig,
    direction: Direction,
    pending: PendingEvent,
    confirm: QuoteUpdate,
) -> Option<Slippage> {
    match (
        spread_bps_of(pending.mexc_start_bid, pending.mexc_start_ask),
        spread_bps_of(confirm.bid, confirm.ask),
        gross_bps(direction, pending, confirm),
        decimal_product(config.mexc_taker_fee_bps, whole(2)),
        decimal_product(live.trade_margin_usdt, whole(live.trade_leverage as int)),
    ) {
        (
            Some(entry_spread_bps),
            Some(exit_spread_bps),
            Some(gross_cross_bps),
            Some(fees_bps),
            Some(position),
        ) => match decimal_difference(gross_cross_bps, fees_bps) {
            Some(net_cross_bps) => match (
                pnl_of(position, net_cross_bps),
                pnl_of(position, gross_cross_bps),
            ) {
                (Some(estimated_pnl_usdt), Some(pnl_zero_fee_usdt)) => Some(
                    Slippage {
                        entry_bid: pending.mexc_start_bid,
                        entry_ask: pending.mexc_start_ask,
                        exit_bid: confirm.bid,
                        exit_ask: confirm.ask,
                        entry_spread_bps,
                        exit_spread_bps,
                        gross_cross_bps,
                        fees_bps,
                        net_cross_bps,
                        estimated_pnl_usdt,
                        pnl_zero_fee_usdt,
                    },
                ),
                _ => None,
            },
            None => None,
        },
        _ => None,
    }
}

fn gross(direction: Direction, pending: &PendingEvent, confirm: &QuoteUpdate) -> (gain: Option<
    Decimal,
>)
    ensures
        gain == gross_bps(direction, *pending, *confirm),
{
    match direction {
        Direction::Up => {
            if pending.mexc_start_ask.is_positive() {
                change_bps(pending.mexc_start_ask, confirm.bid)
            } else {
                Some(Decimal::zero())
            }
        },
        Direction::Down => {
            if pending.mexc_start_bid.is_positive() {
                bps(pending.mexc_start_bid.minus(confirm.ask)?, pending.mexc_start_bid)
            } else {
                Some(Decimal::zero())
            }
        },
    }
}

/// What the trade would have brought, or nothing where a number is too large.
pub fn slippage(
    config: &Config,
    live: &LiveConfig,
    direction: Direction,
    pending: &PendingEvent,
    confirm: &QuoteUpdate,
) -> (slippage: Option<Slippage>)
    ensures
        slippage == slippage_of(*config, *live, direction, *pending, *confirm),
{
    let entry_spread_bps = spread_bps(pending.mexc_start_bid, pending.mexc_start_ask)?;
    let exit_spread_bps = spread_bps(confirm.bid, confirm.ask)?;
    let gross_cross_bps = gross(direction, pending, confirm)?;
    let fees_bps = config.mexc_taker_fee_bps.times(Decimal::of_int(2))?;
    let position = live.trade_margin_usdt.times(Decimal::of_int(live.trade_leverage as i64))?;
    let net_cross_bps = gross_cross_bps.minus(fees_bps)?;
    let estimated_pnl_usdt = pnl(position, net_cross_bps)?;
    let pnl_zero_fee_usdt = pnl(position, gross_cross_bps)?;
    Some(
        Slippage {
            entry_bid: pending.mexc_start_bid,
            entry_ask: pending.mexc_start_ask,
            exit_bid: confirm.bid,
            exit_ask: confirm.ask,
            entry_spread_bps,
            exit_spread_bps,
            gross_cross_bps,
            fees_bps,
            net_cross_bps,
            estimated_pnl_usdt,
            pnl_zero_fee_usdt,
        },
    )
}

/// The estimate that goes into the statistics.
pub open spec fn estimate_of(direction: Direction, lag_ms: i64, s: Slippage) -> LastTradeEstimate {
    LastTradeEstimate {
        direction,
        lag_ms,
        gross_cross_bps: s.gross_cross_bps,
        net_fee_bps: s.net_cross_bps,
        net_zero_fee_bps: s.gross_cross_bps,
        pnl_fee_usdt: s.estimated_pnl_usdt,
        pnl_zero_fee_usdt: s.pnl_zero_fee_usdt,
    }
}

// What a quote shows.

/// What a quote shows, besides its prices.
#[derive(Debug)]
pub enum Seen {
    Nothing,
    /// A move on Binance.
    Impulse,
    /// MEXC did not follow the pending move in time.
    Missed,
    /// MEXC followed the pending move.
    Followed { record: LagRecord, slippage: Slippage },
}

/// The middles of the quotes of Binance before and after, and the move between them in basis
/// points; nothing where a middle is not above zero.
pub open spec fn move_between(before: QuoteUpdate, after: QuoteUpdate) -> Result<
    Option<(Decimal, Decimal, Decimal)>,
    Overflow,
> {
    match (before.mid_spec(), after.mid_spec()) {
        (Some(from), Some(to)) => if !from.positive() || !to.positive() {
            Ok(None)
        } else {
            match move_bps(from, to) {
                Some(m) => Ok(Some((from, to, m))),
                None => Err(Overflow),
            }
        },
        _ => Err(Overflow),
    }
}

/// Whether a quote of Binance comes in time for a move: not too long after the one before, and
/// not too soon after the last move.
pub open spec fn in_time(config: Config, state: SymbolState, before: QuoteUpdate, now: int) -> bool {
    &&& 0 <= now - before.recv_ts_ms <= config.impulse_window_ms
    &&& now - state.last_event_ts_ms >= config.event_cooldown_ms
}

/// The move that a quote of Binance shows, if it shows one.
pub open spec fn impulse(
    config: Config,
    live: LiveConfig,
    state: SymbolState,
    update: QuoteUpdate,
) -> Result<Option<PendingEvent>, Overflow> {
    match (state.last_binance, state.last_mexc) {
        (Some(before), Some(mexc)) => {
            let now = update.recv_ts_ms;
            let elapsed = now - before.recv_ts_ms;
            if !is_i64(elapsed) {
                Err(Overflow)
            } else if elapsed < 0 || elapsed > config.impulse_window_ms {
                Ok(None)
            } else if !is_i64(now - state.last_event_ts_ms) {
                Err(Overflow)
            } else if !in_time(config, state, before, now as int) {
                Ok(None)
            } else {
                match move_between(before, update) {
                    Err(e) => Err(e),
                    Ok(None) => Ok(None),
                    Ok(Some((from, to, moved))) => if below(moved.abs_spec(), live.impulse_bps) {
                        Ok(None)
                    } else {
                        match mexc.mid_spec() {
                            Some(mexc_mid) => Ok(
                                Some(
                                    PendingEvent {
                                        direction: if moved.positive() {
                                            Direction::Up
                                        } else {
                                            Direction::Down
                                        },
                                        binance_start_mid: from,
                                        binance_end_mid: to,
                                        mexc_start_mid: mexc_mid,
                                        mexc_start_bid: mexc.bid,
                                        mexc_start_ask: mexc.ask,
                                        binance_event_ts_ms: now,
                                        created_recv_ts_ms: now,
                                    },
                                ),
                            ),
                            None => Err(Overflow),
                        }
                    },
                }
            }
        },
        _ => Ok(None),
    }
}

/// The state of a symbol after a quote of Binance, and what the quote shows.
pub open spec fn after_binance(
    config: Config,
    live: LiveConfig,
    state: SymbolState,
    update: QuoteUpdate,
) -> Result<(SymbolState, Seen), Overflow> {
    match impulse(config, live, state, update) {
        Err(e) => Err(e),
        Ok(None) => Ok((SymbolState { last_binance: Some(update), ..state }, Seen::Nothing)),
        Ok(Some(pending)) => Ok(
            (
                SymbolState {
                    last_binance: Some(update),
                    pending: Some(pending),
                    last_event_ts_ms: update.recv_ts_ms,
                    ..state
                },
                Seen::Impulse,
            ),
        ),
    }
}

/// Whether a move of MEXC goes with the pending one, and far enough.
pub open spec fn confirms(live: LiveConfig, direction: Direction, moved: Decimal) -> bool {
    match direction {
        Direction::Up => !below(moved, live.confirm_bps),
        Direction::Down => !below(live.confirm_bps.negated_spec(), moved),
    }
}

/// The record of a pending move that MEXC followed.
pub open spec fn record_of(
    pending: PendingEvent,
    update: QuoteUpdate,
    current: Decimal,
    moved: Decimal,
) -> Option<LagRecord> {
    match move_bps(pending.binance_start_mid, pending.binance_end_mid) {
        Some(binance_move_bps) => if is_i64(update.recv_ts_ms - pending.binance_event_ts_ms) {
            Some(
                LagRecord {
                    symbol: update.symbol,
                    direction: pending.direction,
                    lag_ms: (update.recv_ts_ms - pending.binance_event_ts_ms) as i64,
                    binance_move_bps,
                    mexc_move_bps: moved,
                    binance_start_mid: pending.binance_start_mid,
                    binance_end_mid: pending.binance_end_mid,
                    mexc_start_mid: pending.mexc_start_mid,
                    mexc_confirm_mid: current,
                    binance_event_ts_ms: pending.binance_event_ts_ms,
                    mexc_recv_ts_ms: update.recv_ts_ms,
                },
            )
        } else {
            None
        },
        None => None,
    }
}

/// What a quote of MEXC shows while a move is pending that is not too old.
pub open spec fn answer(
    config: Config,
    live: LiveConfig,
    pending: PendingEvent,
    update: QuoteUpdate,
) -> Result<Seen, Overflow> {
    match update.mid_spec() {
        None => Err(Overflow),
        Some(current) => if !pending.mexc_start_mid.positive() || !current.positive() {
            Ok(Seen::Nothing)
        } else {
            match move_bps(pending.mexc_start_mid, current) {
                None => Err(Overflow),
                Some(moved) => if !confirms(live, pending.direction, moved) {
                    Ok(Seen::Nothing)
                } else {
                    match (
                        record_of(pending, update, current, moved),
                        slippage_of(config, live, pending.direction, pending, update),
                    ) {
                        (Some(record), Some(slippage)) => Ok(Seen::Followed { record, slippage }),
                        _ => Err(Overflow),
                    }
                },
            }
        },
    }
}

/// The state of a symbol after a quote of MEXC, and what the quote shows.
pub open spec fn after_mexc(
    config: Config,
    live: LiveConfig,
    state: SymbolState,
    update: QuoteUpdate,
) -> Result<(SymbolState, Seen), Overflow> {
    let quoted = SymbolState { last_mexc: Some(update), ..state };
    let done = SymbolState { pending: None, ..quoted };
    match state.pending {
        None => Ok((quoted, Seen::Nothing)),
        Some(pending) => {
            let age = update.recv_ts_ms - pending.created_recv_ts_ms;
            if !is_i64(age) {
                Err(Overflow)
            } else if age > live.max_lag_ms {
                Ok((done, Seen::Missed))
            } else {
                match answer(config, live, pending, update) {
                    Err(e) => Err(e),
                    Ok(Seen::Followed { record, slippage }) => Ok(
                        (done, Seen::Followed { record, slippage }),
                    ),
                    Ok(seen) => Ok((quoted, seen)),
                }
            }
        },
    }
}

/// The state of a symbol after a quote, and what the quote shows.
pub open spec fn after_quote(
    config: Config,
    live: LiveConfig,
    state: SymbolState,
    update: QuoteUpdate,
) -> Result<(SymbolState, Seen), Overflow> {
    match update.exchange {
        Exchange::Binance => after_binance(config, live, state, update),
        Exchange::Mexc => after_mexc(config, live, state, update),
    }
}

fn moved_between(before: &QuoteUpdate, after: &QuoteUpdate) -> (moved: Result<
    Option<(Decimal, Decimal, Decimal)>,
    Overflow,
>)
    ensures
        moved == move_between(*before, *after),
{
    match (before.mid(), after.mid()) {
        (Some(from), Some(to)) => {
            if !from.is_positive() || !to.is_positive() {
                return Ok(None);
            }
            match change_bps(from, to) {
                Some(m) => Ok(Some((from, to, m))),
                None => Err(Overflow),
            }
        },
        _ => Err(Overflow),
    }
}

fn find_impulse(config: &Config, live: &LiveConfig, state: &SymbolState, update: &QuoteUpdate) -> (
    found: Result<Option<PendingEvent>, Overflow>)
    ensures
        found == impulse(*config, *live, *state, *update),
{
    match (&state.last_binance, &state.last_mexc) {
        (Some(before), Some(mexc)) => {
            let now: i64 = update.recv_ts_ms;
            match now.checked_sub(before.recv_ts_ms) {
                Some(elapsed) => {
                    if elapsed < 0 || elapsed > config.impulse_window_ms {
                        return Ok(None);
                    }
                },
                None => {
                    return Err(Overflow);
                },
            }
            match now.checked_sub(state.last_event_ts_ms) {
                Some(rested) => {
                    if rested < config.event_cooldown_ms {
                        return Ok(None);
                    }
                },
                None => {
                    return Err(Overflow);
                },
            }
            match moved_between(before, update) {
                Err(e) => Err(e),
                Ok(None) => Ok(None),
                Ok(Some((from, to, moved))) => {
                    if moved.abs().less(&live.impulse_bps) {
                        return Ok(None);
                    }
                    let direction = if moved.is_positive() {
                        Direction::Up
                    } else {
                        Direction::Down
                    };
                    match mexc.mid() {
                        Some(mexc_mid) => Ok(
                            Some(
                                PendingEvent {
                                    direction,
                                    binance_start_mid: from,
                                    binance_end_mid: to,
                                    mexc_start_mid: mexc_mid,
                                    mexc_start_bid: mexc.bid,
                                    mexc_start_ask: mexc.ask,
                                    binance_event_ts_ms: now,
                                    created_recv_ts_ms: now,
                                },
                            ),
                        ),
                        None => Err(Overflow),
                    }
                },
            }
        },
        _ => Ok(None),
    }
}

fn take_binance(config: &Config, live: &LiveConfig, state: &mut SymbolState, update: &QuoteUpdate) -> (
    seen: Result<Seen, Overflow>)
    ensures
        seen is Err <==> after_binance(*config, *live, *old(state), *update) is Err,
        seen is Err ==> *final(state) == *old(state),
        seen matches Ok(s) ==> after_binance(*config, *live, *old(state), *update) == Ok::<
            _,
            Overflow,
        >((*final(state), s)),
{
    match find_impulse(config, live, state, update) {
        Err(e) => Err(e),
        Ok(None) => {
            state.last_binance = Some(update.clone());
            Ok(Seen::Nothing)
        },
        Ok(Some(pending)) => {
            state.last_binance = Some(update.clone());
            state.pending = Some(pending);
            state.last_event_ts_ms = update.recv_ts_ms;
            Ok(Seen::Impulse)
        },
    }
}

fn recorded(pending: &PendingEvent, update: &QuoteUpdate, current: Decimal, moved: Decimal) -> (
    record: Option<LagRecord>)
    ensures
        record == record_of(*pending, *update, current, moved),
{
    let binance_move_bps = change_bps(pending.binance_start_mid, pending.binance_end_mid)?;
    let lag_ms: i64 = update.recv_ts_ms.checked_sub(pending.binance_event_ts_ms)?;
    Some(
        LagRecord {
            symbol: update.symbol.clone(),
            direction: pending.direction,
            lag_ms,
            binance_move_bps,
            mexc_move_bps: moved,
            binance_start_mid: pending.binance_start_mid,
            binance_end_mid: pending.binance_end_mid,
            mexc_start_mid: pending.mexc_start_mid,
            mexc_confirm_mid: current,
            binance_event_ts_ms: pending.binance_event_ts_ms,
            mexc_recv_ts_ms: update.recv_ts_ms,
        },
    )
}

fn answered(config: &Config, live: &LiveConfig, pending: &PendingEvent, update: &QuoteUpdate) -> (
    seen: Result<Seen, Overflow>)
    ensures
        seen == answer(*config, *live, *pending, *update),
{
    match update.mid() {
        None => Err(Overflow),
        Some(current) => {
            if !pending.mexc_start_mid.is_positive() || !current.is_positive() {
                return Ok(Seen::Nothing);
            }
            match change_bps(pending.mexc_start_mid, current) {
                None => Err(Overflow),
                Some(moved) => {
                    let confirmed = match pending.direction {
                        Direction::Up => !moved.less(&live.confirm_bps),
                        Direction::Down => !live.confirm_bps.negated().less(&moved),
                    };
                    if !confirmed {
                        return Ok(Seen::Nothing);
                    }
                    match (
                        recorded(pending, update, current, moved),
                        slippage(config, live, pending.direction, pending, update),
                    ) {
                        (Some(record), Some(slippage)) => Ok(Seen::Followed { record, slippage }),
                        _ => Err(Overflow),
                    }
                },
            }
        },
    }
}

fn take_mexc(config: &Config, live: &LiveConfig, state: &mut SymbolState, update: &QuoteUpdate) -> (
    seen: Result<Seen, Overflow>)
    ensures
        seen is Err <==> after_mexc(*config, *live, *old(state), *update) is Err,
        seen is Err ==> *final(state) == *old(state),
        seen matches Ok(s) ==> after_mexc(*config, *live, *old(state), *update) == Ok::<
            _,
            Overflow,
        >((*final(state), s)),
{
    match state.pending {
        None => {
            state.last_mexc = Some(update.clone());
            Ok(Seen::Nothing)
        },
        Some(pending) => {
            let age: i64 = match update.recv_ts_ms.checked_sub(pending.created_recv_ts_ms) {
                Some(age) => age,
                None => {
                    return Err(Overflow);
                },
            };
            if age > live.max_lag_ms {
                state.last_mexc = Some(update.clone());
                state.pending = None;
                return Ok(Seen::Missed);
            }
            match answered(config, live, &pending, update) {
                Err(e) => Err(e),
                Ok(Seen::Followed { record, slippage }) => {
                    state.last_mexc = Some(update.clone());
                    state.pending = None;
                    Ok(Seen::Followed { record, slippage })
                },
                Ok(seen) => {
                    state.last_mexc = Some(update.clone());
                    Ok(seen)
                },
            }
        },
    }
}

/// Takes a quote of a symbol in. Where a number is too large, nothing changes.
pub fn take_quote(config: &Config, live: &LiveConfig, state: &mut SymbolState, update: &QuoteUpdate) -> (
    seen: Result<Seen, Overflow>)
    ensures
        seen is Err <==> after_quote(*config, *live, *old(state), *update) is Err,
        seen is Err ==> *final(state) == *old(state),
        seen matches Ok(s) ==> after_quote(*config, *live, *old(state), *update) == Ok::<
            _,
            Overflow,
        >((*final(state), s)),
{
    match update.exchange {
        Exchange::Binance => take_binance(config, live, state, update),
        Exchange::Mexc => take_mexc(config, live, state, update),
    }
}

// A quote and all that follows from it.

/// What a quote of a watched symbol shows, and what is to be done about the difference between the
/// exchanges.
#[derive(Debug)]
pub struct QuoteOutcome {
    pub seen: Seen,
    pub alert: AlertOutcome,
}

/// The state of a symbol after a quote and the look at the difference at the time `now`.
pub open spec fn quote_step(
    config: Config,
    live: LiveConfig,
    state: SymbolState,
    update: QuoteUpdate,
    client_active: bool,
    now: i64,
) -> Result<(SymbolState, QuoteOutcome), Overflow> {
    match after_quote(config, live, state, update) {
        Err(e) => Err(e),
        Ok((quoted, seen)) => match alert_step(config, live, quoted, client_active, now) {
            Err(e) => Err(e),
            Ok((after, alert)) => Ok((after, QuoteOutcome { seen, alert })),
        },
    }
}

/// What was counted after a quote. Where more than `limit` lags are kept, the first `drop` go.
pub open spec fn counted(
    t: Tally,
    exchange: Exchange,
    seen: Seen,
    limit: nat,
    drop: nat,
) -> Tally {
    match seen {
        Seen::Nothing => t.quoted(exchange),
        Seen::Impulse => t.quoted(exchange).moved(),
        Seen::Missed => t.quoted(exchange).missed(),
        Seen::Followed { record, slippage } => t.quoted(exchange).followed(
            record.lag_ms,
            limit,
            drop,
        ),
    }
}

/// What a trade on the last lag would have brought, after a quote.
pub open spec fn estimate_after(before: Option<LastTradeEstimate>, seen: Seen) -> Option<
    LastTradeEstimate,
> {
    match seen {
        Seen::Followed { record, slippage } => Some(
            estimate_of(record.direction, record.lag_ms, slippage),
        ),
        _ => before,
    }
}

/// Whether `after` are the statistics `before` and what a quote of `symbol` adds to them.
pub open spec fn stats_after(
    before: Stats,
    after: Stats,
    symbol: Seq<char>,
    exchange: Exchange,
    seen: Seen,
) -> bool {
    &&& after.total() == counted(before.total(), exchange, seen, 10_000, 5_000)
    &&& after.of(symbol) == counted(before.of(symbol), exchange, seen, 2_000, 1_000)
    &&& after.estimate(symbol) == estimate_after(before.estimate(symbol), seen)
    &&& after.same_but(before, symbol)
}

/// Whether there is room for what a quote of `symbol` adds to the counts.
pub open spec fn has_room(stats: Stats, symbol: Seq<char>, exchange: Exchange, seen: Seen) -> bool {
    &&& counted(stats.total(), exchange, seen, 10_000, 5_000).in_range()
    &&& counted(stats.of(symbol), exchange, seen, 2_000, 1_000).in_range()
}

/// Whether there is room for what a quote of `symbol` adds to the counts.
pub fn can_count(stats: &Stats, symbol: &str, exchange: Exchange, seen: &Seen) -> (yes: bool)
    ensures
        yes == has_room(*stats, symbol@, exchange, *seen),
{
    let fresh = SymbolStats::new();
    let own = match stats.by_symbol.get(symbol) {
        Some(own) => own,
        None => &fresh,
    };
    let full: u64 = u64::MAX;
    let quote = match exchange {
        Exchange::Binance => stats.binance_quotes < full && own.binance_quotes < full,
        Exchange::Mexc => stats.mexc_quotes < full && own.mexc_quotes < full,
    };
    quote && match seen {
        Seen::Nothing => true,
        Seen::Impulse => stats.impulses < full && own.impulses < full,
        Seen::Missed => stats.expired < full && own.expired < full,
        Seen::Followed { .. } => stats.matched < full && own.matched < full,
    }
}

/// Whether a quote of a watched symbol cannot be taken in at the time `now`: a number is too large,
/// or there is no room for what it adds to the counts.
pub open spec fn quote_fails(
    config: Config,
    live: LiveConfig,
    state: SymbolState,
    stats: Stats,
    update: QuoteUpdate,
    client_active: bool,
    now: i64,
) -> bool {
    match quote_step(config, live, state, update, client_active, now) {
        Err(_) => true,
        Ok((_, done)) => !has_room(stats, update.symbol@, update.exchange, done.seen),
    }
}

fn count_quote(stats: &mut Stats, symbol: &str, exchange: Exchange, seen: &Seen)
    requires
        has_room(*old(stats), symbol@, exchange, *seen),
    ensures
        stats_after(*old(stats), *final(stats), symbol@, exchange, *seen),
{
    stats.record_quote(symbol, exchange);
    match seen {
        Seen::Nothing => {},
        Seen::Impulse => {
            stats.record_impulse(symbol);
        },
        Seen::Missed => {
            stats.record_expired(symbol);
        },
        Seen::Followed { record, slippage } => {
            let estimate = LastTradeEstimate {
                direction: record.direction,
                lag_ms: record.lag_ms,
                gross_cross_bps: slippage.gross_cross_bps,
                net_fee_bps: slippage.net_cross_bps,
                net_zero_fee_bps: slippage.gross_cross_bps,
                pnl_fee_usdt: slippage.estimated_pnl_usdt,
                pnl_zero_fee_usdt: slippage.pnl_zero_fee_usdt,
            };
            stats.set_trade_estimate(symbol, estimate);
            stats.add_lag(symbol, record.lag_ms);
        },
    }
}

/// Takes a quote in, and looks at the difference between the exchanges at the time `now`. A quote
/// of a symbol that is not watched is passed over. Where a number is too large, nothing changes.
pub fn handle_quote_at(
    update: &QuoteUpdate,
    config: &Config,
    live: &LiveConfig,
    states: &mut Table<SymbolState>,
    stats: &mut Stats,
    client_active: bool,
    now: i64,
) -> (outcome: Result<Option<QuoteOutcome>, Overflow>)
    ensures
        outcome is Err <==> old(states)@.contains_key(update.symbol@) && quote_fails(
            *config,
            *live,
            old(states)@[update.symbol@],
            *old(stats),
            *update,
            client_active,
            now,
        ),
        outcome == Ok::<Option<QuoteOutcome>, Overflow>(None)
            <==> !old(states)@.contains_key(update.symbol@),
        !(outcome matches Ok(Some(_))) ==> final(states)@ == old(states)@ && *final(stats)
            == *old(stats),
        outcome matches Ok(Some(done)) ==> {
            &&& final(states)@.contains_key(update.symbol@)
            &&& quote_step(
                *config,
                *live,
                old(states)@[update.symbol@],
                *update,
                client_active,
                now,
            ) == Ok::<_, Overflow>((final(states)@[update.symbol@], done))
            &&& final(states)@ == old(states)@.insert(
                update.symbol@,
                final(states)@[update.symbol@],
            )
            &&& stats_after(
                *old(stats),
                *final(stats),
                update.symbol@,
                update.exchange,
                done.seen,
            )
        },
{
    let symbol = update.symbol.as_str();
    let mut state = match states.get(symbol) {
        Some(state) => state.clone(),
        None => {
            return Ok(None);
        },
    };
    let seen = match take_quote(config, live, &mut state, update) {
        Ok(seen) => seen,
        Err(e) => {
            return Err(e);
        },
    };
    let alert = match check_price_diff_alert_at(config, live, &mut state, client_active, now) {
        Ok(alert) => alert,
        Err(e) => {
            return Err(e);
        },
    };
    if !can_count(stats, symbol, update.exchange, &seen) {
        return Err(Overflow);
    }
    states.put(update.symbol.clone(), state);
    count_quote(stats, symbol, update.exchange, &seen);
    Ok(Some(QuoteOutcome { seen, alert }))
}

/// Takes a quote in, and looks at the difference between the exchanges now. A quote of a symbol
/// that is not watched is passed over. Where a number is too large, nothing changes.
pub fn handle_quote(
    update: &QuoteUpdate,
    config: &Config,
    live: &LiveConfig,
    states: &mut Table<SymbolState>,
    stats: &mut Stats,
    client_active: bool,
) -> (outcome: Result<Option<QuoteOutcome>, Overflow>)
    ensures
        outcome == Ok::<Option<QuoteOutcome>, Overflow>(None)
            <==> !old(states)@.contains_key(update.symbol@),
        !(outcome matches Ok(Some(_))) ==> final(states)@ == old(states)@ && *final(stats)
            == *old(stats),
        outcome is Err ==> exists|now: i64|
            clock_shows(now as int) && #[trigger] quote_fails(
                *config,
                *live,
                old(states)@[update.symbol@],
                *old(stats),
                *update,
                client_active,
                now,
            ),
        outcome matches Ok(Some(done)) ==> {
            &&& has_room(*old(stats), update.symbol@, update.exchange, done.seen)
            &&& exists|now: i64|
                clock_shows(now as int) && #[trigger] quote_step(
                    *config,
                    *live,
                    old(states)@[update.symbol@],
                    *update,
                    client_active,
                    now,
                ) == Ok::<_, Overflow>((final(states)@[update.symbol@], done))
            &&& final(states)@ == old(states)@.insert(
                update.symbol@,
                final(states)@[update.symbol@],
            )
            &&& stats_after(
                *old(stats),
                *final(stats),
                update.symbol@,
                update.exchange,
                done.seen,
            )
        },
{
    let now: i64 = now_ms();
    handle_quote_at(update, config, live, states, stats, client_active, now)
}

/// The states of the symbols at the start: nothing is known of any of them.
pub fn new_states(symbols: &Vec<String>) -> (states: Table<SymbolState>)
    ensures
        forall|symbol: Seq<char>|
            states@.contains_key(symbol) <==> texts(symbols@).contains(symbol),
        forall|symbol: Seq<char>|
            states@.contains_key(symbol) ==> #[trigger] states@[symbol] == unknown(),
{
    let mut states: Table<SymbolState> = Table::new();
    let mut i: usize = 0;
    while i < symbols.len()
        invariant
            i <= symbols@.len(),
            forall|symbol: Seq<char>|
                states@.contains_key(symbol) <==> texts(symbols@).take(i as int).contains(symbol),
            forall|symbol: Seq<char>|
                states@.contains_key(symbol) ==> #[trigger] states@[symbol] == unknown(),
        decreases symbols@.len() - i,
    {
        let ghost all = texts(symbols@);
        let ghost before = states@;
        states.put(symbols[i].clone(), SymbolState::new());
        assert(all.take(i + 1) =~= all.take(i as int).push(all[i as int]));
        proof {
            lemma_pushed_contains(all.take(i as int), all[i as int]);
        }
        i += 1;
    }
    assert(texts(symbols@).take(symbols@.len() as int) =~= texts(symbols@));
    states
}

// What grows too old.

/// Whether the pending move of a symbol is too old at the time `now`.
pub open spec fn overdue(state: SymbolState, live: LiveConfig, now: int) -> bool {
    state.pending matches Some(pending) && now - pending.created_recv_ts_ms > live.max_lag_ms
}

/// The symbols whose pending move is too old.
pub open spec fn overdue_symbols(
    states: Map<Seq<char>, SymbolState>,
    live: LiveConfig,
    now: int,
) -> Set<Seq<char>> {
    states.dom().filter(|symbol: Seq<char>| overdue(states[symbol], live, now))
}

/// Whether the age of each pending move is a 64-bit integer, and there is room to count those that
/// are too old.
pub open spec fn can_expire(
    states: Map<Seq<char>, SymbolState>,
    stats: Stats,
    live: LiveConfig,
    now: int,
) -> bool {
    &&& forall|symbol: Seq<char>| #[trigger]
        states.contains_key(symbol) ==> (states[symbol].pending matches Some(pending) ==> is_i64(
            now - pending.created_recv_ts_ms,
        ))
    &&& forall|symbol: Seq<char>| #[trigger]
        overdue_symbols(states, live, now).contains(symbol) ==> stats.of(symbol).expired < u64::MAX
    &&& stats.total().expired + overdue_symbols(states, live, now).len() <= u64::MAX
}

/// The symbols whose pending move is too old, each once, or nothing where an age is too large or a
/// count is full.
fn find_overdue(states: &Table<SymbolState>, stats: &Stats, live: &LiveConfig, now: i64) -> (late:
    Option<Vec<String>>)
    ensures
        late is Some ==> can_expire(states@, *stats, *live, now as int),
        late is None ==> !can_expire(states@, *stats, *live, now as int),
        late matches Some(list) ==> texts(list@).no_duplicates(),
        late matches Some(list) ==> texts(list@).to_set() == overdue_symbols(
            states@,
            *live,
            now as int,
        ),
{
    let keys = states.keys();
    let ghost names = texts(keys@);
    let ghost wanted = overdue_symbols(states@, *live, now as int);
    let mut late: Vec<String> = Vec::new();
    let mut i: usize = 0;
    while i < keys.len()
        invariant
            i <= keys@.len(),
            names == texts(keys@),
            names.no_duplicates(),
            wanted == overdue_symbols(states@, *live, now as int),
            forall|key: Seq<char>| names.contains(key) <==> states@.contains_key(key),
            texts(late@).no_duplicates(),
            forall|key: Seq<char>| #[trigger]
                texts(late@).contains(key) <==> names.take(i as int).contains(key)
                    && wanted.contains(key),
            forall|k: int|
                0 <= k < i ==> (states@[#[trigger] names[k]].pending matches Some(pending)
                    ==> is_i64(now - pending.created_recv_ts_ms)),
            forall|k: int|
                0 <= k < i && wanted.contains(#[trigger] names[k]) ==> stats.of(names[k]).expired
                    < u64::MAX,
        decreases keys@.len() - i,
    {
        let ghost key = names[i as int];
        assert(names.contains(key));
        assert(key == keys@[i as int]@);
        assert(names.take(i + 1) =~= names.take(i as int).push(key));
        assert(!names.take(i as int).contains(key)) by {
            if names.take(i as int).contains(key) {
                let k = choose|k: int| 0 <= k < i && names.take(i as int)[k] == key;
                assert(names[k] == names[i as int]);
            }
        }
        proof {
            lemma_pushed_contains(names.take(i as int), key);
        }
        let mut is_late = false;
        match states.get(keys[i].as_str()) {
            Some(state) => {
                if let Some(pending) = &state.pending {
                    match now.checked_sub(pending.created_recv_ts_ms) {
                        Some(age) => {
                            is_late = age > live.max_lag_ms;
                        },
                        None => {
                            assert(states@.contains_key(key));
                            return None;
                        },
                    }
                }
            },
            None => {},
        }
        assert(is_late == wanted.contains(key));
        if is_late {
            let full = match stats.by_symbol.get(keys[i].as_str()) {
                Some(own) => own.expired == u64::MAX,
                None => false,
            };
            if full {
                assert(wanted.contains(key));
                return None;
            }
            let ghost before = texts(late@);
            assert(!before.contains(key));
            late.push(keys[i].clone());
            assert(texts(late@) =~= before.push(key));
            proof {
                lemma_pushed_contains(before, key);
            }
        }
        i += 1;
    }
    assert(names.take(names.len() as int) =~= names);
    proof {
        assert forall|symbol: Seq<char>| #[trigger] states@.contains_key(symbol) implies (
        states@[symbol].pending matches Some(pending) ==> is_i64(
            now - pending.created_recv_ts_ms,
        )) by {
            assert(names.contains(symbol));
            let k = choose|k: int| 0 <= k < names.len() && names[k] == symbol;
            assert(states@[names[k]].pending == states@[symbol].pending);
        }
        assert forall|symbol: Seq<char>| #[trigger] wanted.contains(symbol) implies stats.of(
            symbol,
        ).expired < u64::MAX by {
            assert(names.contains(symbol));
            let k = choose|k: int| 0 <= k < names.len() && names[k] == symbol;
            assert(wanted.contains(names[k]));
        }
        assert(texts(late@).to_set() =~= wanted) by {
            assert forall|symbol: Seq<char>|
                texts(late@).to_set().contains(symbol) <==> wanted.contains(symbol) by {
                assert(texts(late@).to_set().contains(symbol) <==> texts(late@).contains(symbol));
            }
        }
        texts(late@).unique_seq_to_set();
    }
    if late.len() as u64 > u64::MAX - stats.expired {
        return None;
    }
    Some(late)
}

/// Whether `after` are the statistics `before` with one more missed move for each of `late`.
pub open spec fn missed_by(before: Stats, after: Stats, late: Set<Seq<char>>) -> bool {
    &&& after.total() == (Tally {
        expired: before.total().expired + late.len(),
        ..before.total()
    })
    &&& forall|symbol: Seq<char>| #[trigger]
        after.of(symbol) == (if late.contains(symbol) {
            before.of(symbol).missed()
        } else {
            before.of(symbol)
        })
    &&& forall|symbol: Seq<char>| #[trigger] after.estimate(symbol) == before.estimate(symbol)
}

/// Whether `after` are the states `before` without the pending moves of `late`.
pub open spec fn dropped_by(
    before: Map<Seq<char>, SymbolState>,
    after: Map<Seq<char>, SymbolState>,
    late: Set<Seq<char>>,
) -> bool {
    &&& after.dom() == before.dom()
    &&& forall|symbol: Seq<char>|
        before.contains_key(symbol) ==> #[trigger] after[symbol] == (if late.contains(symbol) {
            SymbolState { pending: None, ..before[symbol] }
        } else {
            before[symbol]
        })
}

/// Drops the pending moves that are too old at the time `now`, and counts them as missed. Where an
/// age is too large or a count is full, nothing changes.
pub fn expire_old_pending_at(
    live: &LiveConfig,
    states: &mut Table<SymbolState>,
    stats: &mut Stats,
    now: i64,
) -> (done: Result<(), Overflow>)
    ensures
        done is Ok <==> can_expire(old(states)@, *old(stats), *live, now as int),
        done is Err ==> final(states)@ == old(states)@ && *final(stats) == *old(stats),
        done is Ok ==> dropped_by(
            old(states)@,
            final(states)@,
            overdue_symbols(old(states)@, *live, now as int),
        ),
        done is Ok ==> missed_by(
            *old(stats),
            *final(stats),
            overdue_symbols(old(states)@, *live, now as int),
        ),
{
    let ghost before = states@;
    let ghost counts = *stats;
    let late = match find_overdue(states, stats, live, now) {
        Some(late) => late,
        None => {
            return Err(Overflow);
        },
    };
    let ghost names = texts(late@);
    let ghost wanted = overdue_symbols(before, *live, now as int);
    proof {
        names.unique_seq_to_set();
        assert(names.take(0) =~= Seq::<Seq<char>>::empty());
        assert(names.take(0).to_set() =~= Set::<Seq<char>>::empty());
    }
    let mut i: usize = 0;
    while i < late.len()
        invariant
            i <= late@.len(),
            names == texts(late@),
            names.no_duplicates(),
            names.to_set() == wanted,
            wanted == overdue_symbols(before, *live, now as int),
            names.len() == wanted.len(),
            can_expire(before, counts, *live, now as int),
            names.take(i as int).to_set().len() == i,
            dropped_by(before, states@, names.take(i as int).to_set()),
            missed_by(counts, *stats, names.take(i as int).to_set()),
        decreases late@.len() - i,
    {
        let ghost key = names[i as int];
        let ghost done = names.take(i as int);
        let ghost next = names.take(i + 1);
        let ghost was = *stats;
        proof {
            assert(key == late@[i as int]@);
            assert(names.contains(key));
            assert(wanted.contains(key)) by {
                assert(names.to_set().contains(key));
            }
            assert(next =~= done.push(key));
            assert(!done.contains(key)) by {
                if done.contains(key) {
                    let k = choose|k: int| 0 <= k < i && done[k] == key;
                    assert(names[k] == names[i as int]);
                }
            }
            lemma_pushed_contains(done, key);
            assert(next.to_set() =~= done.to_set().insert(key));
            assert(!done.to_set().contains(key));
            assert(before.contains_key(key));
        }
        match states.take(late[i].as_str()) {
            Some(state) => {
                let mut state = state;
                state.pending = None;
                states.put(late[i].clone(), state);
            },
            None => {},
        }
        stats.record_expired(late[i].as_str());
        proof {
            assert(states@.dom() =~= before.dom());
            assert forall|symbol: Seq<char>| #[trigger] stats.of(symbol) == (if next.to_set().contains(
                symbol,
            ) {
                counts.of(symbol).missed()
            } else {
                counts.of(symbol)
            }) by {
                assert(was.of(symbol) == (if done.to_set().contains(symbol) {
                    counts.of(symbol).missed()
                } else {
                    counts.of(symbol)
                }));
            }
            assert forall|symbol: Seq<char>| #[trigger] stats.estimate(symbol) == counts.estimate(
                symbol,
            ) by {
                assert(was.estimate(symbol) == counts.estimate(symbol));
                assert(stats.of(symbol) == stats.of(symbol));
            }
        }
        i += 1;
    }
    assert(names.take(names.len() as int) =~= names);
    Ok(())
}

/// Drops the pending moves that are too old now, and counts them as missed. Where an age is too
/// large or a count is full, nothing changes.
pub fn expire_old_pending(
    live: &LiveConfig,
    states: &mut Table<SymbolState>,
    stats: &mut Stats,
) -> (done: Result<(), Overflow>)
    ensures
        done is Err ==> final(states)@ == old(states)@ && *final(stats) == *old(stats),
        done is Err ==> exists|now: int|
            clock_shows(now) && !#[trigger] can_expire(old(states)@, *old(stats), *live, now),
        done is Ok ==> exists|now: int|
            {
                &&& clock_shows(now)
                &&& #[trigger] can_expire(old(states)@, *old(stats), *live, now)
                &&& dropped_by(
                    old(states)@,
                    final(states)@,
                    overdue_symbols(old(states)@, *live, now),
                )
                &&& missed_by(
                    *old(stats),
                    *final(stats),
                    overdue_symbols(old(states)@, *live, now),
                )
            },
{
    let now: i64 = now_ms();
    let ghost before = states@;
    let ghost counts = *stats;
    let done = expire_old_pending_at(live, states, stats, now);
    assert(clock_shows(now as int) && can_expire(before, counts, *live, now as int) == done is Ok);
    done
}

// What holds of each quote.

/// Whether a pending move was made from one quote of Binance, with prices above zero.
pub open spec fn pending_sound(state: SymbolState) -> bool {
    state.pending matches Some(pending) ==> {
        &&& pending.binance_event_ts_ms == pending.created_recv_ts_ms
        &&& pending.binance_start_mid.positive()
        &&& pending.binance_end_mid.positive()
    }
}

/// A symbol of which nothing is known yet is sound.
pub proof fn unknown_symbols_are_sound()
    ensures
        pending_sound(unknown()),
        trade_belongs(unknown()),
        accounted(nothing(), unknown()),
{
}

/// A pending move stays sound, and an open trade stays with its difference, whatever quote comes.
pub proof fn states_stay_sound(
    config: Config,
    live: LiveConfig,
    state: SymbolState,
    update: QuoteUpdate,
    client_active: bool,
    now: i64,
)
    requires
        pending_sound(state),
        trade_belongs(state),
    ensures
        quote_step(config, live, state, update, client_active, now) matches Ok((after, done)) ==> {
            &&& pending_sound(after)
            &&& trade_belongs(after)
        },
{
    if let Ok((quoted, seen)) = after_quote(config, live, state, update) {
        trade_closes_with_its_difference(config, live, quoted, client_active, now);
    }
}

/// The last quote of each exchange is the one that came last: a quote takes the place of the one
/// before from its exchange, and leaves that of the other.
pub proof fn last_quotes_are_kept(
    config: Config,
    live: LiveConfig,
    state: SymbolState,
    update: QuoteUpdate,
    client_active: bool,
    now: i64,
)
    ensures
        quote_step(config, live, state, update, client_active, now) matches Ok((after, done)) ==> {
            match update.exchange {
                Exchange::Binance => after.last_binance == Some(update) && after.last_mexc
                    == state.last_mexc,
                Exchange::Mexc => after.last_mexc == Some(update) && after.last_binance
                    == state.last_binance,
            }
        },
{
}

/// A lag is recorded only for a quote of MEXC while a move is pending. It is the time since that
/// move, no longer than allowed, and the move is no longer pending.
pub proof fn lags_are_in_time(
    config: Config,
    live: LiveConfig,
    state: SymbolState,
    update: QuoteUpdate,
    client_active: bool,
    now: i64,
)
    requires
        pending_sound(state),
    ensures
        quote_step(config, live, state, update, client_active, now) matches Ok((after, done)) ==> (
        done.seen matches Seen::Followed { record, slippage } ==> {
            &&& update.exchange == Exchange::Mexc
            &&& state.pending matches Some(pending) && record.lag_ms == update.recv_ts_ms
                - pending.binance_event_ts_ms && record.direction == pending.direction
            &&& record.lag_ms <= live.max_lag_ms
            &&& record.symbol == update.symbol
            &&& after.pending is None
        }),
{
}

/// MEXC follows a move in its own direction: where the threshold is above zero, what confirms a
/// move up is above zero, and what confirms a move down below.
pub proof fn follows_in_direction(live: LiveConfig, direction: Direction, moved: Decimal)
    requires
        live.confirm_bps.positive(),
        fits(live.confirm_bps.mantissa_spec()),
        live.confirm_bps.scale_spec() <= MAX_SCALE,
        confirms(live, direction, moved),
    ensures
        direction == Direction::Up ==> moved.positive(),
        direction == Direction::Down ==> moved.negative(),
{
    let c = live.confirm_bps;
    let n = c.negated_spec();
    made_parts(-c.mantissa_spec(), c.scale_spec());
    sign_by_order(c, moved);
    sign_by_order(n, moved);
}

/// A move on Binance is noted only when the symbol had rest since the last one, and its time is
/// noted with it. Nothing else changes the time of the last move.
pub proof fn moves_are_apart(
    config: Config,
    live: LiveConfig,
    state: SymbolState,
    update: QuoteUpdate,
    client_active: bool,
    now: i64,
)
    ensures
        quote_step(config, live, state, update, client_active, now) matches Ok((after, done)) ==> {
            &&& done.seen is Impulse ==> {
                &&& update.exchange == Exchange::Binance
                &&& update.recv_ts_ms - state.last_event_ts_ms >= config.event_cooldown_ms
                &&& after.last_event_ts_ms == update.recv_ts_ms
                &&& after.pending is Some
            }
            &&& !(done.seen is Impulse) ==> after.last_event_ts_ms == state.last_event_ts_ms
        },
{
}

/// Whether no more moves of a symbol were followed or missed than were noted, the pending one
/// aside.
pub open spec fn accounted(t: Tally, state: SymbolState) -> bool {
    t.matched + t.expired + (if state.pending is Some {
        1int
    } else {
        0
    }) <= t.impulses
}

/// Each move that was noted is followed once, missed once, or makes room for a newer one: no more
/// are followed and missed than were noted.
pub proof fn moves_stay_accounted(
    config: Config,
    live: LiveConfig,
    state: SymbolState,
    update: QuoteUpdate,
    client_active: bool,
    now: i64,
    t: Tally,
    limit: nat,
    drop: nat,
)
    requires
        accounted(t, state),
    ensures
        quote_step(config, live, state, update, client_active, now) matches Ok((after, done))
            ==> accounted(counted(t, update.exchange, done.seen, limit, drop), after),
{
}

/// A pending move that is dropped for its age is missed once.
pub proof fn dropped_moves_stay_accounted(
    before: Map<Seq<char>, SymbolState>,
    after: Map<Seq<char>, SymbolState>,
    counts: Stats,
    new_counts: Stats,
    live: LiveConfig,
    now: int,
    symbol: Seq<char>,
)
    requires
        dropped_by(before, after, overdue_symbols(before, live, now)),
        missed_by(counts, new_counts, overdue_symbols(before, live, now)),
        before.contains_key(symbol),
        accounted(counts.of(symbol), before[symbol]),
    ensures
        accounted(new_counts.of(symbol), after[symbol]),
        !overdue(after[symbol], live, now),
{
    assert(after[symbol] == after[symbol]);
}

/// The statistics stay sound whatever quote of a watched symbol comes: the counts of all symbols
/// together are the sums over the symbols, and no more lags are kept than the limits say.
pub proof fn statistics_stay_sound(
    before: Stats,
    after: Stats,
    symbol: Seq<char>,
    exchange: Exchange,
    seen: Seen,
    symbols: Seq<Seq<char>>,
)
    requires
        stats_after(before, after, symbol, exchange, seen),
        adds_up(before, symbols),
        lags_bounded(before),
        symbols.no_duplicates(),
        symbols.contains(symbol),
    ensures
        adds_up(after, symbols),
        lags_bounded(after),
{
    counts_keep_adding_up(before, after, symbol, symbols);
    assert(before.of(symbol).lags.len() <= 2_000);
    if let Seen::Followed { record, slippage } = seen {
        lags_stay_bounded(before.total().lags, record.lag_ms, 10_000, 5_000);
        lags_stay_bounded(before.of(symbol).lags, record.lag_ms, 2_000, 1_000);
    }
    assert forall|other: Seq<char>| (#[trigger] after.of(other)).lags.len() <= 2_000 by {
        assert(before.of(other).lags.len() <= 2_000);
    }
}

proof fn lemma_summed_over(
    before: spec_fn(Seq<char>) -> int,
    after: spec_fn(Seq<char>) -> int,
    late: Set<Seq<char>>,
    symbols: Seq<Seq<char>>,
)
    requires
        symbols.no_duplicates(),
        late.finite(),
        forall|s: Seq<char>| #[trigger]
            after(s) == before(s) + (if late.contains(s) {
                1int
            } else {
                0
            }),
    ensures
        summed(after, symbols) == summed(before, symbols) + late.intersect(symbols.to_set()).len(),
    decreases symbols.len(),
{
    if symbols.len() == 0 {
        assert(late.intersect(symbols.to_set()) =~= Set::<Seq<char>>::empty());
    } else {
        let rest = symbols.drop_last();
        let last = symbols.last();
        lemma_summed_over(before, after, late, rest);
        assert(!rest.contains(last)) by {
            if rest.contains(last) {
                let k = choose|k: int| 0 <= k < rest.len() && rest[k] == last;
                assert(symbols[k] == symbols[symbols.len() - 1]);
            }
        }
        lemma_pushed_contains(rest, last);
        assert(symbols =~= rest.push(last));
        let small = late.intersect(rest.to_set());
        let large = late.intersect(symbols.to_set());
        if late.contains(last) {
            assert(large =~= small.insert(last));
            assert(!small.contains(last));
        } else {
            assert(large =~= small);
        }
    }
}

/// The statistics stay sound when pending moves are dropped for their age.
pub proof fn dropping_keeps_statistics_sound(
    before: Stats,
    after: Stats,
    late: Set<Seq<char>>,
    symbols: Seq<Seq<char>>,
)
    requires
        missed_by(before, after, late),
        adds_up(before, symbols),
        lags_bounded(before),
        symbols.no_duplicates(),
        late.subset_of(symbols.to_set()),
    ensures
        adds_up(after, symbols),
        lags_bounded(after),
{
    vstd::seq_lib::seq_to_set_is_finite(symbols);
    vstd::set_lib::lemma_set_subset_finite(symbols.to_set(), late);
    lemma_summed_over(
        |s: Seq<char>| before.of(s).expired,
        |s: Seq<char>| after.of(s).expired,
        late,
        symbols,
    );
    assert(late.intersect(symbols.to_set()) =~= late);
    let none = Set::<Seq<char>>::empty();
    assert(none.intersect(symbols.to_set()) =~= none);
    lemma_summed_over(
        |s: Seq<char>| before.of(s).binance_quotes,
        |s: Seq<char>| after.of(s).binance_quotes,
        none,
        symbols,
    );
    lemma_summed_over(
        |s: Seq<char>| before.of(s).mexc_quotes,
        |s: Seq<char>| after.of(s).mexc_quotes,
        none,
        symbols,
    );
    lemma_summed_over(
        |s: Seq<char>| before.of(s).impulses,
        |s: Seq<char>| after.of(s).impulses,
        none,
        symbols,
    );
    lemma_summed_over(
        |s: Seq<char>| before.of(s).matched,
        |s: Seq<char>| after.of(s).matched,
        none,
        symbols,
    );
    assert forall|other: Seq<char>| (#[trigger] after.of(other)).lags.len() <= 2_000 by {
        assert(before.of(other).lags.len() <= 2_000);
    }
}

} // verus!
