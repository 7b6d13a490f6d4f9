//! Alerts: MEXC quotes a symbol apart from Binance, and a trade on the difference would pay.

use vstd::prelude::*;

use crate::clock::{clock_shows, now_ms};
use crate::config::{Config, LiveConfig};
use crate::decimal::{
    Decimal, Overflow, below, below_is_irreflexive, below_is_transitive, decimal_difference,
    decimal_product, decimal_quotient, decimal_text, right_product, right_quotient, whole,
    zero_spec,
};
use crate::quotes::{bps, in_bps, spread_bps, spread_bps_of, QuoteUpdate};
use crate::state::{ActiveDiffAlert, Side, SymbolState};

verus! {

/// What a trade on the difference would bring now, without fees.
#[derive(Clone, Copy, Debug, PartialEq, Eq, Structural)]
pub struct DiffEdgeEstimate {
    pub mexc_spread_bps: Decimal,
    pub edge_zero_fee_bps: Decimal,
    pub pnl_zero_fee_usdt: Decimal,
}

/// The edge of a trade, in basis points of the middle at Binance: MEXC is bought at its ask where
/// it quotes below Binance, and sold at its bid where it does not.
pub open spec fn edge_bps_of(b_mid: Decimal, mexc: QuoteUpdate, diff_bps: Decimal) -> Option<
    Decimal,
> {
    if !b_mid.positive() {
        Some(zero_spec())
    } else {
        let gain = if diff_bps.negative() {
            decimal_difference(b_mid, mexc.ask)
        } else {
            decimal_difference(mexc.bid, b_mid)
        };
        match gain {
            Some(gain) => in_bps(gain, b_mid),
            None => None,
        }
    }
}

/// `bps` basis points of `notional`.
pub open spec fn pnl_of(notional: Decimal, bps: Decimal) -> Option<Decimal> {
    match decimal_product(notional, bps) {
        Some(p) => decimal_quotient(p, whole(10_000)),
        None => None,
    }
}

/// What a trade of `notional_usdt` on the difference would bring, without fees.
pub open spec fn edge_of(
    binance: QuoteUpdate,
    mexc: QuoteUpdate,
    diff_bps: Decimal,
    notional_usdt: Decimal,
) -> Option<DiffEdgeEstimate> {
    match (binance.mid_spec(), spread_bps_of(mexc.bid, mexc.ask)) {
        (Some(b_mid), Some(mexc_spread_bps)) => match edge_bps_of(b_mid, mexc, diff_bps) {
            Some(edge_zero_fee_bps) => match pnl_of(notional_usdt, edge_zero_fee_bps) {
                Some(pnl_zero_fee_usdt) => Some(
                    DiffEdgeEstimate { mexc_spread_bps, edge_zero_fee_bps, pnl_zero_fee_usdt },
                ),
                None => None,
            },
            None => None,
        },
        _ => None,
    }
}

/// `bps` basis points of `notional`, or nothing where that is too large.
pub fn pnl(notional: Decimal, bps: Decimal) -> (money: Option<Decimal>)
    ensures
        money == pnl_of(notional, bps),
        right_product(notional, bps, decimal_product(notional, bps)),
        decimal_product(notional, bps) matches Some(p) ==> right_quotient(p, whole(10_000), money),
{
    let p = notional.times(bps)?;
    p.over(Decimal::of_int(10_000))
}

/// What a trade of `notional_usdt` on the difference would bring, without fees, or nothing where a
/// number is too large.
pub fn estimate_diff_edge(
    binance: &QuoteUpdate,
    mexc: &QuoteUpdate,
    diff_bps: Decimal,
    notional_usdt: Decimal,
) -> (estimate: Option<DiffEdgeEstimate>)
    ensures
        estimate == edge_of(*binance, *mexc, diff_bps, notional_usdt),
{
    let b_mid = binance.mid()?;
    let mexc_spread_bps = spread_bps(mexc.bid, mexc.ask)?;
    let edge_zero_fee_bps = if !b_mid.is_positive() {
        Decimal::zero()
    } else if diff_bps.is_negative() {
        bps(b_mid.minus(mexc.ask)?, b_mid)?
    } else {
        bps(mexc.bid.minus(b_mid)?, b_mid)?
    };
    let pnl_zero_fee_usdt = pnl(notional_usdt, edge_zero_fee_bps)?;
    Some(DiffEdgeEstimate { mexc_spread_bps, edge_zero_fee_bps, pnl_zero_fee_usdt })
}

/// The difference between the two exchanges.
#[derive(Clone, Copy, Debug, PartialEq, Eq, Structural)]
pub struct Gap {
    pub b_mid: Decimal,
    pub m_mid: Decimal,
    pub diff_usdt: Decimal,
    pub diff_bps: Decimal,
    pub edge: DiffEdgeEstimate,
}

/// The difference between two middles, where all its numbers are small enough.
pub open spec fn gap_between(
    binance: QuoteUpdate,
    mexc: QuoteUpdate,
    b_mid: Decimal,
    m_mid: Decimal,
    live: LiveConfig,
) -> Option<Gap> {
    match decimal_difference(m_mid, b_mid) {
        Some(diff_usdt) => match (
            in_bps(diff_usdt, b_mid),
            decimal_product(live.trade_margin_usdt, whole(live.trade_leverage as int)),
        ) {
            (Some(diff_bps), Some(notional)) => match edge_of(binance, mexc, diff_bps, notional) {
                Some(edge) => Some(Gap { b_mid, m_mid, diff_usdt, diff_bps, edge }),
                None => None,
            },
            _ => None,
        },
        None => None,
    }
}

/// The difference between the exchanges, if both have quoted, alerts are wanted, and both middles
/// are above zero.
pub open spec fn gap_in(state: SymbolState, live: LiveConfig) -> Result<Option<Gap>, Overflow> {
    match (state.last_binance, state.last_mexc) {
        (Some(binance), Some(mexc)) => if !live.alert_diff_bps.positive() {
            Ok(None)
        } else {
            match (binance.mid_spec(), mexc.mid_spec()) {
                (Some(b_mid), Some(m_mid)) => if !b_mid.positive() || !m_mid.positive() {
                    Ok(None)
                } else {
                    match gap_between(binance, mexc, b_mid, m_mid, live) {
                        Some(gap) => Ok(Some(gap)),
                        None => Err(Overflow),
                    }
                },
                _ => Err(Overflow),
            }
        },
        _ => Ok(None),
    }
}

fn measured(
    binance: &QuoteUpdate,
    mexc: &QuoteUpdate,
    b_mid: Decimal,
    m_mid: Decimal,
    live: &LiveConfig,
) -> (gap: Option<Gap>)
    ensures
        gap == gap_between(*binance, *mexc, b_mid, m_mid, *live),
{
    let diff_usdt = m_mid.minus(b_mid)?;
    let diff_bps = bps(diff_usdt, b_mid)?;
    let notional = live.trade_margin_usdt.times(Decimal::of_int(live.trade_leverage as i64))?;
    let edge = estimate_diff_edge(binance, mexc, diff_bps, notional)?;
    Some(Gap { b_mid, m_mid, diff_usdt, diff_bps, edge })
}

/// The difference between the exchanges, if there is one to watch.
pub fn current_gap(state: &SymbolState, live: &LiveConfig) -> (gap: Result<Option<Gap>, Overflow>)
    ensures
        gap == gap_in(*state, *live),
{
    match (&state.last_binance, &state.last_mexc) {
        (Some(binance), Some(mexc)) => {
            if !live.alert_diff_bps.is_positive() {
                return Ok(None);
            }
            match (binance.mid(), mexc.mid()) {
                (Some(b_mid), Some(m_mid)) => {
                    if !b_mid.is_positive() || !m_mid.is_positive() {
                        return Ok(None);
                    }
                    match measured(binance, mexc, b_mid, m_mid, live) {
                        Some(gap) => Ok(Some(gap)),
                        None => Err(Overflow),
                    }
                },
                _ => Err(Overflow),
            }
        },
        _ => Ok(None),
    }
}

// What follows from a difference.

/// A trade to open: `direction` is 1 to buy on MEXC and -1 to sell.
#[derive(Clone, Copy, Debug, PartialEq, Eq, Structural)]
pub struct TradeOrder {
    pub direction: i32,
    pub entry_price: Decimal,
    pub target_price: Decimal,
    pub leverage: i32,
}

/// What the subscribers are told.
#[derive(Clone, Copy, Debug, PartialEq, Eq, Structural)]
pub enum Notice {
    /// A difference pays, and lasts.
    Valuable {
        active: ActiveDiffAlert,
        gap: Gap,
        duration_ms: i64,
        mexc_bid: Decimal,
        mexc_ask: Decimal,
        threshold_bps: Decimal,
    },
    /// A difference of which they were told is gone.
    Closed { active: ActiveDiffAlert, gap: Gap, duration_ms: i64 },
}

/// What is to be done.
#[derive(Clone, Copy, Debug, PartialEq, Eq)]
pub struct AlertOutcome {
    /// The open trade gets the sign to close.
    pub close_trade: bool,
    /// A trade is opened.
    pub open_trade: Option<TradeOrder>,
    /// The subscribers are told.
    pub notice: Option<Notice>,
    /// A difference is no longer watched since a quote is too old: the ages of both quotes.
    pub stale_ages: Option<(i64, i64)>,
}

/// Nothing is to be done.
pub open spec fn quiet() -> AlertOutcome {
    AlertOutcome { close_trade: false, open_trade: None, notice: None, stale_ages: None }
}

/// How long after a difference is gone no new one is watched.
pub const REST_MS: i64 = 60_000;

/// Whether `n` is a 64-bit integer.
pub open spec fn is_i64(n: int) -> bool {
    i64::MIN <= n <= i64::MAX
}

/// Whether an age shows that a quote cannot be used.
pub open spec fn unusable(age: int, max_age: int) -> bool {
    age < 0 || age > max_age
}

/// The trade to open on a difference, if trades are wanted and possible and none is open.
pub open spec fn trade_on(
    gap: Gap,
    live: LiveConfig,
    trade_open: bool,
    client_active: bool,
) -> Option<TradeOrder> {
    if live.trade_enabled && !trade_open && client_active {
        Some(
            TradeOrder {
                direction: if gap.diff_usdt.negative() { 1i32 } else { -1i32 },
                entry_price: gap.m_mid,
                target_price: gap.b_mid,
                leverage: live.trade_leverage,
            },
        )
    } else {
        None
    }
}

/// The larger of two numbers, and the first where they are equal.
pub open spec fn larger_of(a: Decimal, b: Decimal) -> Decimal {
    if below(a, b) {
        b
    } else {
        a
    }
}

/// A watched difference after a look at it.
pub open spec fn grown(active: ActiveDiffAlert, gap: Gap) -> ActiveDiffAlert {
    ActiveDiffAlert {
        max_abs_diff_bps: larger_of(active.max_abs_diff_bps, gap.diff_bps.abs_spec()),
        max_edge_zero_fee_bps: larger_of(
            active.max_edge_zero_fee_bps,
            gap.edge.edge_zero_fee_bps,
        ),
        ..active
    }
}

/// Whether the subscribers are now told of a watched difference, which lasts for `duration` yet.
pub open spec fn fires(config: Config, active: ActiveDiffAlert, gap: Gap, duration: int) -> bool {
    &&& !active.notified
    &&& duration >= config.alert_min_duration_ms
    &&& !below(gap.edge.edge_zero_fee_bps, config.alert_min_edge_bps)
    &&& !below(active.max_edge_zero_fee_bps, config.alert_min_edge_bps)
}

/// Whether a trade on a new difference is made at once.
pub open spec fn fires_at_once(config: Config, gap: Gap) -> bool {
    config.alert_min_duration_ms <= 0 && !below(
        gap.edge.edge_zero_fee_bps,
        config.alert_min_edge_bps,
    )
}

/// A difference that is watched from now on.
pub open spec fn started(config: Config, gap: Gap, now: i64) -> ActiveDiffAlert {
    ActiveDiffAlert {
        started_ms: now,
        side: if gap.diff_usdt.positive() { Side::Above } else { Side::Below },
        start_diff_bps: gap.diff_bps,
        start_diff_usdt: gap.diff_usdt,
        max_abs_diff_bps: gap.diff_bps.abs_spec(),
        start_edge_zero_fee_bps: gap.edge.edge_zero_fee_bps,
        max_edge_zero_fee_bps: gap.edge.edge_zero_fee_bps,
        notified: fires_at_once(config, gap),
    }
}

/// What follows where a quote is too old: nothing is watched any longer, and a trade is closed.
pub open spec fn after_stale(state: SymbolState, now: i64, b_age: i64, m_age: i64) -> (
    SymbolState,
    AlertOutcome,
) {
    let watched = state.active_diff_alert is Some;
    (
        SymbolState {
            active_diff_alert: None,
            trade_open: false,
            last_diff_alert_closed_ms: if watched {
                now
            } else {
                state.last_diff_alert_closed_ms
            },
            ..state
        },
        AlertOutcome {
            close_trade: state.trade_open,
            stale_ages: if watched {
                Some((b_age, m_age))
            } else {
                None
            },
            ..quiet()
        },
    )
}

/// What follows where a watched difference is still wide.
pub open spec fn after_wide(
    config: Config,
    live: LiveConfig,
    state: SymbolState,
    active: ActiveDiffAlert,
    gap: Gap,
    client_active: bool,
    now: i64,
) -> Result<(SymbolState, AlertOutcome), Overflow> {
    let seen = grown(active, gap);
    let duration = now - active.started_ms;
    if !is_i64(duration) {
        Err(Overflow)
    } else if fires(config, seen, gap, duration) {
        let told = ActiveDiffAlert { notified: true, ..seen };
        let trade = trade_on(gap, live, state.trade_open, client_active);
        Ok(
            (
                SymbolState {
                    active_diff_alert: Some(told),
                    trade_open: state.trade_open || trade is Some,
                    ..state
                },
                AlertOutcome {
                    open_trade: trade,
                    notice: Some(
                        Notice::Valuable {
                            active: told,
                            gap,
                            duration_ms: duration as i64,
                            mexc_bid: state.last_mexc->0.bid,
                            mexc_ask: state.last_mexc->0.ask,
                            threshold_bps: live.alert_diff_bps,
                        },
                    ),
                    ..quiet()
                },
            ),
        )
    } else {
        Ok((SymbolState { active_diff_alert: Some(seen), ..state }, quiet()))
    }
}

/// What follows where a difference is wide that was not watched yet.
pub open spec fn after_new(
    config: Config,
    live: LiveConfig,
    state: SymbolState,
    gap: Gap,
    client_active: bool,
    now: i64,
) -> Result<(SymbolState, AlertOutcome), Overflow> {
    let rested = now - state.last_diff_alert_closed_ms;
    if !is_i64(rested) {
        Err(Overflow)
    } else if rested < REST_MS {
        Ok((state, quiet()))
    } else {
        let trade = if fires_at_once(config, gap) {
            trade_on(gap, live, state.trade_open, client_active)
        } else {
            None
        };
        Ok(
            (
                SymbolState {
                    active_diff_alert: Some(started(config, gap, now)),
                    trade_open: state.trade_open || trade is Some,
                    ..state
                },
                AlertOutcome { open_trade: trade, ..quiet() },
            ),
        )
    }
}

/// What follows where a watched difference is no longer wide: it is not watched any longer, and a
/// trade is closed.
pub open spec fn after_narrow(
    state: SymbolState,
    active: ActiveDiffAlert,
    gap: Gap,
    now: i64,
) -> Result<(SymbolState, AlertOutcome), Overflow> {
    let duration = now - active.started_ms;
    if active.notified && !is_i64(duration) {
        Err(Overflow)
    } else {
        Ok(
            (
                SymbolState {
                    active_diff_alert: None,
                    trade_open: false,
                    last_diff_alert_closed_ms: now,
                    ..state
                },
                AlertOutcome {
                    close_trade: state.trade_open,
                    notice: if active.notified {
                        Some(Notice::Closed { active, gap, duration_ms: duration as i64 })
                    } else {
                        None
                    },
                    ..quiet()
                },
            ),
        )
    }
}

/// What follows from the quotes of a symbol at the time `now`. `client_active` says whether orders
/// can be sent.
pub open spec fn alert_step(
    config: Config,
    live: LiveConfig,
    state: SymbolState,
    client_active: bool,
    now: i64,
) -> Result<(SymbolState, AlertOutcome), Overflow> {
    match gap_in(state, live) {
        Err(e) => Err(e),
        Ok(None) => Ok((state, quiet())),
        Ok(Some(gap)) => {
            let b_age = now - state.last_binance->0.recv_ts_ms;
            let m_age = now - state.last_mexc->0.recv_ts_ms;
            if !is_i64(b_age) || !is_i64(m_age) {
                Err(Overflow)
            } else if unusable(b_age, config.max_quote_age_ms as int) || unusable(
                m_age,
                config.max_quote_age_ms as int,
            ) {
                Ok(after_stale(state, now, b_age as i64, m_age as i64))
            } else if !below(gap.diff_bps.abs_spec(), live.alert_diff_bps) {
                match state.active_diff_alert {
                    Some(active) => after_wide(
                        config,
                        live,
                        state,
                        active,
                        gap,
                        client_active,
                        now,
                    ),
                    None => after_new(config, live, state, gap, client_active, now),
                }
            } else {
                match state.active_diff_alert {
                    Some(active) => after_narrow(state, active, gap, now),
                    None => Ok((state, quiet())),
                }
            }
        },
    }
}

fn no_action() -> (outcome: AlertOutcome)
    ensures
        outcome == quiet(),
{
    AlertOutcome { close_trade: false, open_trade: None, notice: None, stale_ages: None }
}

fn larger(a: Decimal, b: Decimal) -> (d: Decimal)
    ensures
        d == larger_of(a, b),
{
    if a.less(&b) {
        b
    } else {
        a
    }
}

fn order_on(gap: &Gap, live: &LiveConfig, trade_open: bool, client_active: bool) -> (order: Option<
    TradeOrder,
>)
    ensures
        order == trade_on(*gap, *live, trade_open, client_active),
{
    if live.trade_enabled && !trade_open && client_active {
        let direction: i32 = if gap.diff_usdt.is_negative() {
            1
        } else {
            -1
        };
        Some(
            TradeOrder {
                direction,
                entry_price: gap.m_mid,
                target_price: gap.b_mid,
                leverage: live.trade_leverage,
            },
        )
    } else {
        None
    }
}

fn close_stale(state: &mut SymbolState, now: i64, b_age: i64, m_age: i64) -> (outcome: AlertOutcome)
    ensures
        (*final(state), outcome) == after_stale(*old(state), now, b_age, m_age),
{
    let mut outcome = no_action();
    outcome.close_trade = state.trade_open;
    state.trade_open = false;
    if state.active_diff_alert.is_some() {
        state.active_diff_alert = None;
        state.last_diff_alert_closed_ms = now;
        outcome.stale_ages = Some((b_age, m_age));
    }
    outcome
}

fn watch_on(
    config: &Config,
    live: &LiveConfig,
    state: &mut SymbolState,
    active: ActiveDiffAlert,
    gap: Gap,
    client_active: bool,
    now: i64,
) -> (outcome: Result<AlertOutcome, Overflow>)
    requires
        old(state).last_mexc is Some,
    ensures
        outcome is Err <==> after_wide(
            *config,
            *live,
            *old(state),
            active,
            gap,
            client_active,
            now,
        ) is Err,
        outcome is Err ==> *final(state) == *old(state),
        outcome matches Ok(done) ==> after_wide(
            *config,
            *live,
            *old(state),
            active,
            gap,
            client_active,
            now,
        ) == Ok::<_, Overflow>((*final(state), done)),
{
    let duration_ms: i64 = match now.checked_sub(active.started_ms) {
        Some(ms) => ms,
        None => {
            return Err(Overflow);
        },
    };
    let mut seen = active;
    seen.max_abs_diff_bps = larger(active.max_abs_diff_bps, gap.diff_bps.abs());
    seen.max_edge_zero_fee_bps = larger(active.max_edge_zero_fee_bps, gap.edge.edge_zero_fee_bps);
    let mut outcome = no_action();
    if !seen.notified && duration_ms >= config.alert_min_duration_ms
        && !gap.edge.edge_zero_fee_bps.less(&config.alert_min_edge_bps)
        && !seen.max_edge_zero_fee_bps.less(&config.alert_min_edge_bps) {
        seen.notified = true;
        let trade = order_on(&gap, live, state.trade_open, client_active);
        match &state.last_mexc {
            Some(mexc) => {
                outcome.notice = Some(
                    Notice::Valuable {
                        active: seen,
                        gap,
                        duration_ms,
                        mexc_bid: mexc.bid,
                        mexc_ask: mexc.ask,
                        threshold_bps: live.alert_diff_bps,
                    },
                );
            },
            None => {},
        }
        outcome.open_trade = trade;
        if trade.is_some() {
            state.trade_open = true;
        }
    }
    state.active_diff_alert = Some(seen);
    Ok(outcome)
}

fn watch_new(
    config: &Config,
    live: &LiveConfig,
    state: &mut SymbolState,
    gap: Gap,
    client_active: bool,
    now: i64,
) -> (outcome: Result<AlertOutcome, Overflow>)
    requires
        old(state).active_diff_alert is None,
    ensures
        outcome is Err <==> after_new(
            *config,
            *live,
            *old(state),
            gap,
            client_active,
            now,
        ) is Err,
        outcome is Err ==> *final(state) == *old(state),
        outcome matches Ok(done) ==> after_new(
            *config,
            *live,
            *old(state),
            gap,
            client_active,
            now,
        ) == Ok::<_, Overflow>((*final(state), done)),
{
    let rested: i64 = match now.checked_sub(state.last_diff_alert_closed_ms) {
        Some(ms) => ms,
        None => {
            return Err(Overflow);
        },
    };
    let mut outcome = no_action();
    if rested < REST_MS {
        return Ok(outcome);
    }
    let at_once = config.alert_min_duration_ms <= 0 && !gap.edge.edge_zero_fee_bps.less(
        &config.alert_min_edge_bps,
    );
    let side = if gap.diff_usdt.is_positive() {
        Side::Above
    } else {
        Side::Below
    };
    state.active_diff_alert = Some(
        ActiveDiffAlert {
            started_ms: now,
            side,
            start_diff_bps: gap.diff_bps,
            start_diff_usdt: gap.diff_usdt,
            max_abs_diff_bps: gap.diff_bps.abs(),
            start_edge_zero_fee_bps: gap.edge.edge_zero_fee_bps,
            max_edge_zero_fee_bps: gap.edge.edge_zero_fee_bps,
            notified: at_once,
        },
    );
    if at_once {
        let trade = order_on(&gap, live, state.trade_open, client_active);
        outcome.open_trade = trade;
        if trade.is_some() {
            state.trade_open = true;
        }
    }
    Ok(outcome)
}

fn watch_no_more(state: &mut SymbolState, active: ActiveDiffAlert, gap: Gap, now: i64) -> (outcome:
    Result<AlertOutcome, Overflow>)
    ensures
        outcome is Err <==> after_narrow(*old(state), active, gap, now) is Err,
        outcome is Err ==> *final(state) == *old(state),
        outcome matches Ok(done) ==> after_narrow(*old(state), active, gap, now) == Ok::<
            _,
            Overflow,
        >((*final(state), done)),
{
    let mut outcome = no_action();
    if active.notified {
        let duration_ms: i64 = match now.checked_sub(active.started_ms) {
            Some(ms) => ms,
            None => {
                return Err(Overflow);
            },
        };
        outcome.notice = Some(Notice::Closed { active, gap, duration_ms });
    }
    outcome.close_trade = state.trade_open;
    state.active_diff_alert = None;
    state.last_diff_alert_closed_ms = now;
    state.trade_open = false;
    Ok(outcome)
}

/// Takes in what the quotes of a symbol show at the time `now`. Where a number is too large,
/// nothing changes.
pub fn check_price_diff_alert_at(
    config: &Config,
    live: &LiveConfig,
    state: &mut SymbolState,
    client_active: bool,
    now: i64,
) -> (outcome: Result<AlertOutcome, Overflow>)
    ensures
        outcome is Err <==> alert_step(*config, *live, *old(state), client_active, now) is Err,
        outcome is Err ==> *final(state) == *old(state),
        outcome matches Ok(done) ==> alert_step(*config, *live, *old(state), client_active, now)
            == Ok::<_, Overflow>((*final(state), done)),
{
    let gap = match current_gap(state, live) {
        Err(e) => {
            return Err(e);
        },
        Ok(None) => {
            return Ok(no_action());
        },
        Ok(Some(gap)) => gap,
    };
    let (b_time, m_time): (i64, i64) = match (&state.last_binance, &state.last_mexc) {
        (Some(binance), Some(mexc)) => (binance.recv_ts_ms, mexc.recv_ts_ms),
        _ => {
            return Err(Overflow);
        },
    };
    match (now.checked_sub(b_time), now.checked_sub(m_time)) {
        (Some(b_age), Some(m_age)) => {
            if b_age < 0 || m_age < 0 || b_age > config.max_quote_age_ms || m_age
                > config.max_quote_age_ms {
                return Ok(close_stale(state, now, b_age, m_age));
            }
        },
        _ => {
            return Err(Overflow);
        },
    }
    if !gap.diff_bps.abs().less(&live.alert_diff_bps) {
        match state.active_diff_alert {
            Some(active) => watch_on(config, live, state, active, gap, client_active, now),
            None => watch_new(config, live, state, gap, client_active, now),
        }
    } else {
        match state.active_diff_alert {
            Some(active) => watch_no_more(state, active, gap, now),
            None => Ok(no_action()),
        }
    }
}

/// Takes in what the quotes of a symbol show now. Where a number is too large, nothing changes.
pub fn check_price_diff_alert(
    config: &Config,
    live: &LiveConfig,
    state: &mut SymbolState,
    client_active: bool,
) -> (outcome: Result<AlertOutcome, Overflow>)
    ensures
        outcome is Err ==> *final(state) == *old(state),
        exists|now: i64|
            {
                &&& clock_shows(now as int)
                &&& outcome is Err <==> (#[trigger] alert_step(
                    *config,
                    *live,
                    *old(state),
                    client_active,
                    now,
                )) is Err
                &&& outcome matches Ok(done) ==> alert_step(
                    *config,
                    *live,
                    *old(state),
                    client_active,
                    now,
                ) == Ok::<_, Overflow>((*final(state), done))
            },
{
    let now: i64 = now_ms();
    let ghost before = *state;
    let outcome = check_price_diff_alert_at(config, live, state, client_active, now);
    assert(clock_shows(now as int) && (outcome is Err <==> alert_step(
        *config,
        *live,
        before,
        client_active,
        now,
    ) is Err));
    outcome
}

// What the subscribers read.

/// The side in words.
pub open spec fn side_text(side: Side) -> Seq<char> {
    match side {
        Side::Above => "MEXC выше Binance"@,
        Side::Below => "MEXC ниже Binance"@,
    }
}

/// `bps` basis points in percent.
pub open spec fn percent(bps: Decimal) -> Decimal {
    decimal_quotient(bps, whole(100))->0
}

/// A number with at most `places` digits behind the point.
pub open spec fn shown(d: Decimal, places: nat) -> Seq<char> {
    decimal_text(d.rounded(places))
}

/// What the subscribers read about `symbol`. `secs` is the duration in seconds, as it is to be
/// shown.
pub open spec fn notice_text(notice: Notice, symbol: Seq<char>, secs: Seq<char>) -> Seq<char> {
    match notice {
        Notice::Valuable { active, gap, duration_ms, mexc_bid, mexc_ask, threshold_bps } => {
            "💎 Ценная разница "@
            + symbol
            + "\n"@
            + side_text(active.side)
            + "\nДержится: "@
            + secs
            + " сек\nBinance mid: "@
            + shown(gap.b_mid, 6)
            + "\nMEXC mid: "@
            + shown(gap.m_mid, 6)
            + "\nMEXC bid/ask: "@
            + shown(mexc_bid, 8)
            + " / "@
            + shown(mexc_ask, 8)
            + "\nРазница сейчас: "@
            + shown(gap.diff_usdt, 6)
            + " USDT / "@
            + shown(percent(gap.diff_bps), 4)
            + "% ("@
            + shown(gap.diff_bps, 3)
            + " bps)\nПорог: "@
            + shown(percent(threshold_bps), 4)
            + "%\nСпред MEXC: "@
            + shown(gap.edge.mexc_spread_bps, 3)
            + " bps\n0 fee edge старт/макс/сейчас: "@
            + shown(active.start_edge_zero_fee_bps, 3)
            + " / "@
            + shown(active.max_edge_zero_fee_bps, 3)
            + " / "@
            + shown(gap.edge.edge_zero_fee_bps, 3)
            + " bps\nPnL 0 fee сейчас: "@
            + shown(gap.edge.pnl_zero_fee_usdt, 4)
            + " USDT"@
        },
        Notice::Closed { active, gap, duration_ms } => {
            "Разница закрылась "@
            + symbol
            + "\nНаправление: "@
            + side_text(active.side)
            + "\nДержалась: "@
            + secs
            + " сек\nСтарт: "@
            + shown(active.start_diff_usdt, 6)
            + " USDT / "@
            + shown(percent(active.start_diff_bps), 4)
            + "% ("@
            + shown(active.start_diff_bps, 3)
            + " bps)\nМакс: "@
            + shown(percent(active.max_abs_diff_bps), 4)
            + "% ("@
            + shown(active.max_abs_diff_bps, 3)
            + " bps)\nФинал: "@
            + shown(gap.diff_usdt, 6)
            + " USDT / "@
            + shown(percent(gap.diff_bps), 4)
            + "% ("@
            + shown(gap.diff_bps, 3)
            + " bps)\nСпред MEXC сейчас: "@
            + shown(gap.edge.mexc_spread_bps, 3)
            + " bps\nОценка 0 fee старт/макс/финал: "@
            + shown(active.start_edge_zero_fee_bps, 3)
            + " / "@
            + shown(active.max_edge_zero_fee_bps, 3)
            + " / "@
            + shown(gap.edge.edge_zero_fee_bps, 3)
            + " bps\nPnL 0 fee финал: "@
            + shown(gap.edge.pnl_zero_fee_usdt, 4)
            + " USDT"@
        },
    }
}

fn side_name(side: Side) -> (text: &'static str)
    ensures
        text@ == side_text(side),
{
    match side {
        Side::Above => "MEXC выше Binance",
        Side::Below => "MEXC ниже Binance",
    }
}

fn in_percent(bps: Decimal) -> (d: Decimal)
    ensures
        d == percent(bps),
{
    match bps.over(Decimal::of_int(100)) {
        Some(d) => d,
        None => bps,
    }
}

/// A number with at most `places` digits behind the point, as a text.
pub fn round_text(d: Decimal, places: u32) -> (text: String)
    ensures
        text@ == shown(d, places as nat),
{
    d.round_dp(places).text()
}

impl Notice {
    /// How long the difference lasts or lasted.
    pub fn duration_ms(&self) -> (ms: i64)
        ensures
            ms == (match *self {
                Notice::Valuable { duration_ms, .. } => duration_ms,
                Notice::Closed { duration_ms, .. } => duration_ms,
            }),
    {
        match *self {
            Notice::Valuable { duration_ms, .. } => duration_ms,
            Notice::Closed { duration_ms, .. } => duration_ms,
        }
    }

    /// What the subscribers read about `symbol`. `secs` is the duration in seconds, as it is to be
    /// shown.
    pub fn text(&self, symbol: &str, secs: &str) -> (text: String)
        ensures
            text@ == notice_text(*self, symbol@, secs@),
    {
        match *self {
            Notice::Valuable { active, gap, duration_ms: _, mexc_bid, mexc_ask, threshold_bps } => {
                "💎 Ценная разница ".to_string()
            .concat(symbol)
            .concat("\n")
            .concat(side_name(active.side))
            .concat("\nДержится: ")
            .concat(secs)
            .concat(" сек\nBinance mid: ")
            .concat(round_text(gap.b_mid, 6).as_str())
            .concat("\nMEXC mid: ")
            .concat(round_text(gap.m_mid, 6).as_str())
            .concat("\nMEXC bid/ask: ")
            .concat(round_text(mexc_bid, 8).as_str())
            .concat(" / ")
            .concat(round_text(mexc_ask, 8).as_str())
            .concat("\nРазница сейчас: ")
            .concat(round_text(gap.diff_usdt, 6).as_str())
            .concat(" USDT / ")
            .concat(round_text(in_percent(gap.diff_bps), 4).as_str())
            .concat("% (")
            .concat(round_text(gap.diff_bps, 3).as_str())
            .concat(" bps)\nПорог: ")
            .concat(round_text(in_percent(threshold_bps), 4).as_str())
            .concat("%\nСпред MEXC: ")
            .concat(round_text(gap.edge.mexc_spread_bps, 3).as_str())
            .concat(" bps\n0 fee edge старт/макс/сейчас: ")
            .concat(round_text(active.start_edge_zero_fee_bps, 3).as_str())
            .concat(" / ")
            .concat(round_text(active.max_edge_zero_fee_bps, 3).as_str())
            .concat(" / ")
            .concat(round_text(gap.edge.edge_zero_fee_bps, 3).as_str())
            .concat(" bps\nPnL 0 fee сейчас: ")
            .concat(round_text(gap.edge.pnl_zero_fee_usdt, 4).as_str())
            .concat(" USDT")
            },
            Notice::Closed { active, gap, duration_ms: _ } => {
                "Разница закрылась ".to_string()
            .concat(symbol)
            .concat("\nНаправление: ")
            .concat(side_name(active.side))
            .concat("\nДержалась: ")
            .concat(secs)
            .concat(" сек\nСтарт: ")
            .concat(round_text(active.start_diff_usdt, 6).as_str())
            .concat(" USDT / ")
            .concat(round_text(in_percent(active.start_diff_bps), 4).as_str())
            .concat("% (")
            .concat(round_text(active.start_diff_bps, 3).as_str())
            .concat(" bps)\nМакс: ")
            .concat(round_text(in_percent(active.max_abs_diff_bps), 4).as_str())
            .concat("% (")
            .concat(round_text(active.max_abs_diff_bps, 3).as_str())
            .concat(" bps)\nФинал: ")
            .concat(round_text(gap.diff_usdt, 6).as_str())
            .concat(" USDT / ")
            .concat(round_text(in_percent(gap.diff_bps), 4).as_str())
            .concat("% (")
            .concat(round_text(gap.diff_bps, 3).as_str())
            .concat(" bps)\nСпред MEXC сейчас: ")
            .concat(round_text(gap.edge.mexc_spread_bps, 3).as_str())
            .concat(" bps\nОценка 0 fee старт/макс/финал: ")
            .concat(round_text(active.start_edge_zero_fee_bps, 3).as_str())
            .concat(" / ")
            .concat(round_text(active.max_edge_zero_fee_bps, 3).as_str())
            .concat(" / ")
            .concat(round_text(gap.edge.edge_zero_fee_bps, 3).as_str())
            .concat(" bps\nPnL 0 fee финал: ")
            .concat(round_text(gap.edge.pnl_zero_fee_usdt, 4).as_str())
            .concat(" USDT")
            },
        }
    }
}

// What holds of each step.

/// A trade is opened only where trades are wanted, orders can be sent and no trade is open, and
/// never together with the sign to close. It goes from the middle at MEXC to the middle at
/// Binance: up where MEXC quotes below.
pub proof fn trade_needs_leave(
    config: Config,
    live: LiveConfig,
    state: SymbolState,
    client_active: bool,
    now: i64,
)
    ensures
        alert_step(config, live, state, client_active, now) matches Ok((after, done)) ==> {
            done.open_trade matches Some(order) ==> {
                &&& live.trade_enabled
                &&& client_active
                &&& !state.trade_open
                &&& !done.close_trade
                &&& after.trade_open
                &&& gap_in(state, live) matches Ok(Some(gap)) && order.entry_price == gap.m_mid
                    && order.target_price == gap.b_mid && (order.direction == 1
                    <==> gap.diff_usdt.negative())
                &&& order.direction == 1 || order.direction == -1
            }
        },
{
}

/// Without leave to trade the monitor only watches: no step opens a trade.
pub proof fn watches_only(
    config: Config,
    live: LiveConfig,
    state: SymbolState,
    client_active: bool,
    now: i64,
)
    requires
        !live.trade_enabled || !client_active,
    ensures
        alert_step(config, live, state, client_active, now) matches Ok((after, done)) ==> {
            &&& done.open_trade is None
            &&& after.trade_open ==> state.trade_open
        },
{
}

/// Whether an open trade belongs to a difference that is watched and has fired.
pub open spec fn trade_belongs(state: SymbolState) -> bool {
    state.trade_open ==> (state.active_diff_alert matches Some(active) && active.notified)
}

/// An open trade always belongs to a watched difference that has fired. It gets the sign to close
/// exactly when that difference is no longer watched, and `trade_open` follows each sign.
pub proof fn trade_closes_with_its_difference(
    config: Config,
    live: LiveConfig,
    state: SymbolState,
    client_active: bool,
    now: i64,
)
    requires
        trade_belongs(state),
    ensures
        alert_step(config, live, state, client_active, now) matches Ok((after, done)) ==> {
            &&& trade_belongs(after)
            &&& done.close_trade <==> state.trade_open && after.active_diff_alert is None
            &&& after.trade_open <==> (state.trade_open && !done.close_trade)
                || done.open_trade is Some
        },
{
}

/// The subscribers are told of a difference once: a step that tells them finds it not told and
/// leaves it told. They are told that it is gone exactly when it was told, and is no longer
/// watched since it is no longer wide.
pub proof fn told_once(
    config: Config,
    live: LiveConfig,
    state: SymbolState,
    client_active: bool,
    now: i64,
)
    ensures
        alert_step(config, live, state, client_active, now) matches Ok((after, done)) ==> {
            &&& done.notice is Some && done.notice->0 is Valuable ==> {
                &&& state.active_diff_alert matches Some(before) && !before.notified
                &&& after.active_diff_alert matches Some(active) && active.notified
            }
            &&& done.notice is Some && done.notice->0 is Closed <==> {
                &&& state.active_diff_alert matches Some(before) && before.notified
                &&& after.active_diff_alert is None
                &&& done.stale_ages is None
            }
            &&& state.active_diff_alert is Some && state.active_diff_alert->0.notified
                && after.active_diff_alert is Some ==> after.active_diff_alert->0.notified
        },
{
}

/// When a difference is no longer watched, no other one of the symbol is watched for a minute.
pub proof fn rests_for_a_minute(
    config: Config,
    live: LiveConfig,
    state: SymbolState,
    client_active: bool,
    now: i64,
)
    ensures
        alert_step(config, live, state, client_active, now) matches Ok((after, done)) ==> {
            &&& state.active_diff_alert is Some && after.active_diff_alert is None
                ==> after.last_diff_alert_closed_ms == now
            &&& state.active_diff_alert is None && after.active_diff_alert is Some ==> now
                - state.last_diff_alert_closed_ms >= 60_000 && after.active_diff_alert->0.started_ms
                == now
            &&& state.active_diff_alert is None ==> after.last_diff_alert_closed_ms
                == state.last_diff_alert_closed_ms
        },
{
}

/// The largest difference and the largest edge of a watched difference never fall, and are not
/// below those of now. Its start stays as it was.
pub proof fn largest_never_falls(
    config: Config,
    live: LiveConfig,
    state: SymbolState,
    client_active: bool,
    now: i64,
)
    ensures
        alert_step(config, live, state, client_active, now) matches Ok((after, done)) ==> {
            state.active_diff_alert matches Some(before) ==> (after.active_diff_alert matches Some(
                active,
            ) ==> {
                &&& !below(active.max_abs_diff_bps, before.max_abs_diff_bps)
                &&& !below(active.max_edge_zero_fee_bps, before.max_edge_zero_fee_bps)
                &&& gap_in(state, live) matches Ok(Some(gap)) ==> !below(
                    active.max_abs_diff_bps,
                    gap.diff_bps.abs_spec(),
                ) && !below(active.max_edge_zero_fee_bps, gap.edge.edge_zero_fee_bps)
                &&& active.started_ms == before.started_ms
                &&& active.side == before.side
                &&& active.start_diff_bps == before.start_diff_bps
                &&& active.start_diff_usdt == before.start_diff_usdt
                &&& active.start_edge_zero_fee_bps == before.start_edge_zero_fee_bps
            })
        },
{
    if let Some(before) = state.active_diff_alert {
        below_is_irreflexive(before.max_abs_diff_bps);
        below_is_irreflexive(before.max_edge_zero_fee_bps);
        if let Ok(Some(gap)) = gap_in(state, live) {
            let d = gap.diff_bps.abs_spec();
            let e = gap.edge.edge_zero_fee_bps;
            below_is_irreflexive(d);
            below_is_irreflexive(e);
            below_is_transitive(d, before.max_abs_diff_bps, d);
            below_is_transitive(e, before.max_edge_zero_fee_bps, e);
        }
    }
}

/// A step leaves the quotes and the pending move of the symbol as they are.
pub proof fn alerts_only_look(
    config: Config,
    live: LiveConfig,
    state: SymbolState,
    client_active: bool,
    now: i64,
)
    ensures
        alert_step(config, live, state, client_active, now) matches Ok((after, done)) ==> {
            &&& after.last_binance == state.last_binance
            &&& after.last_mexc == state.last_mexc
            &&& after.pending == state.pending
            &&& after.last_event_ts_ms == state.last_event_ts_ms
        },
{
}

} // verus!
