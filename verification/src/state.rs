//! What is known of a symbol.

use vstd::prelude::*;

use crate::decimal::Decimal;
use crate::quotes::QuoteUpdate;
use crate::stats::Direction;

verus! {

/// A move on Binance that MEXC has not followed yet.
#[derive(Clone, Copy, Debug, PartialEq, Eq, Structural)]
pub struct PendingEvent {
    pub direction: Direction,
    pub binance_start_mid: Decimal,
    pub binance_end_mid: Decimal,
    pub mexc_start_mid: Decimal,
    pub mexc_start_bid: Decimal,
    pub mexc_start_ask: Decimal,
    pub binance_event_ts_ms: i64,
    pub created_recv_ts_ms: i64,
}

/// On which side of Binance MEXC quotes.
#[derive(Clone, Copy, Debug, PartialEq, Eq, Structural)]
pub enum Side {
    Above,
    Below,
}

/// A difference between the exchanges that is watched.
#[derive(Clone, Copy, Debug, PartialEq, Eq, Structural)]
pub struct ActiveDiffAlert {
    pub started_ms: i64,
    pub side: Side,
    pub start_diff_bps: Decimal,
    pub start_diff_usdt: Decimal,
    pub max_abs_diff_bps: Decimal,
    pub start_edge_zero_fee_bps: Decimal,
    pub max_edge_zero_fee_bps: Decimal,
    pub notified: bool,
}

/// What is known of a symbol. `trade_open` says whether a trade waits for the sign to close.
#[derive(Debug)]
pub struct SymbolState {
    pub last_binance: Option<QuoteUpdate>,
    pub last_mexc: Option<QuoteUpdate>,
    pub pending: Option<PendingEvent>,
    pub last_event_ts_ms: i64,
    pub active_diff_alert: Option<ActiveDiffAlert>,
    pub trade_open: bool,
    pub last_diff_alert_closed_ms: i64,
}

/// Nothing known yet.
pub open spec fn unknown() -> SymbolState {
    SymbolState {
        last_binance: None,
        last_mexc: None,
        pending: None,
        last_event_ts_ms: 0,
        active_diff_alert: None,
        trade_open: false,
        last_diff_alert_closed_ms: 0,
    }
}

impl SymbolState {
    /// Nothing known yet.
    pub fn new() -> (state: SymbolState)
        ensures
            state == unknown(),
    {
        SymbolState {
            last_binance: None,
            last_mexc: None,
            pending: None,
            last_event_ts_ms: 0,
            active_diff_alert: None,
            trade_open: false,
            last_diff_alert_closed_ms: 0,
        }
    }
}

impl Clone for SymbolState {
    fn clone(&self) -> (copy: Self)
        ensures
            copy == *self,
    {
        SymbolState {
            last_binance: match &self.last_binance {
                Some(q) => Some(q.clone()),
                None => None,
            },
            last_mexc: match &self.last_mexc {
                Some(q) => Some(q.clone()),
                None => None,
            },
            pending: self.pending,
            last_event_ts_ms: self.last_event_ts_ms,
            active_diff_alert: self.active_diff_alert,
            trade_open: self.trade_open,
            last_diff_alert_closed_ms: self.last_diff_alert_closed_ms,
        }
    }
}

} // verus!
