//! Reports: the dashboard, the screen, and the file of the statistics.

use vstd::prelude::*;

use crate::alert::{is_i64, round_text, shown};
use crate::clock::{clock_shows, is_rfc3339, is_shown_time, now_ms, rfc3339_now, utc_now};
use crate::config::{Config, LiveConfig};
use crate::decimal::{decimal_difference, decimal_text, Decimal, Overflow};
use crate::quotes::{bps, in_bps, QuoteUpdate};
use crate::state::SymbolState;
use crate::stats::{
    summary_line, summary_of, Direction, LagSummary, LastTradeEstimate, Stats, Tally,
};
use crate::table::Table;
use crate::text::{
    digits, int_text, join, joined, pad_left, pad_right, padded_left, padded_right, text_of_i64,
    text_of_u64, texts,
};

verus! {

/// What the dashboard shows.
#[derive(Debug)]
pub struct DashboardSnapshot {
    pub updated_at: String,
    pub summary: String,
    pub impulse_bps: String,
    pub confirm_bps: String,
    pub max_lag_ms: i64,
    pub symbols: Vec<DashboardSymbolRow>,
}

/// What the dashboard shows of a symbol.
#[derive(Debug)]
pub struct DashboardSymbolRow {
    pub symbol: String,
    pub binance_quotes: u64,
    pub mexc_quotes: u64,
    pub impulses: u64,
    pub matched: u64,
    pub expired: u64,
    pub lag: Option<LagSummary>,
    pub binance_mid: Option<String>,
    pub mexc_mid: Option<String>,
    pub price_diff_usdt: Option<String>,
    pub price_diff_bps: Option<String>,
    pub pending: Option<String>,
    pub last_direction: Option<String>,
    pub last_lag_ms: Option<i64>,
    pub gross_bps: Option<String>,
    pub net_fee_bps: Option<String>,
    pub net_zero_fee_bps: Option<String>,
    pub pnl_fee_usdt: Option<String>,
    pub pnl_zero_fee_usdt: Option<String>,
}

/// What a row of the dashboard says.
#[verifier::ext_equal]
pub struct RowView {
    pub symbol: Seq<char>,
    pub binance_quotes: int,
    pub mexc_quotes: int,
    pub impulses: int,
    pub matched: int,
    pub expired: int,
    pub lag: Option<LagSummary>,
    pub binance_mid: Option<Seq<char>>,
    pub mexc_mid: Option<Seq<char>>,
    pub price_diff_usdt: Option<Seq<char>>,
    pub price_diff_bps: Option<Seq<char>>,
    pub pending: Option<Seq<char>>,
    pub last_direction: Option<Seq<char>>,
    pub last_lag_ms: Option<i64>,
    pub gross_bps: Option<Seq<char>>,
    pub net_fee_bps: Option<Seq<char>>,
    pub net_zero_fee_bps: Option<Seq<char>>,
    pub pnl_fee_usdt: Option<Seq<char>>,
    pub pnl_zero_fee_usdt: Option<Seq<char>>,
}

/// What a text says that may be missing.
pub open spec fn said(text: Option<String>) -> Option<Seq<char>> {
    match text {
        Some(t) => Some(t@),
        None => None,
    }
}

impl DashboardSymbolRow {
    /// What the row says.
    pub open spec fn view(self) -> RowView {
        RowView {
            symbol: self.symbol@,
            binance_quotes: self.binance_quotes as int,
            mexc_quotes: self.mexc_quotes as int,
            impulses: self.impulses as int,
            matched: self.matched as int,
            expired: self.expired as int,
            lag: self.lag,
            binance_mid: said(self.binance_mid),
            mexc_mid: said(self.mexc_mid),
            price_diff_usdt: said(self.price_diff_usdt),
            price_diff_bps: said(self.price_diff_bps),
            pending: said(self.pending),
            last_direction: said(self.last_direction),
            last_lag_ms: self.last_lag_ms,
            gross_bps: said(self.gross_bps),
            net_fee_bps: said(self.net_fee_bps),
            net_zero_fee_bps: said(self.net_zero_fee_bps),
            pnl_fee_usdt: said(self.pnl_fee_usdt),
            pnl_zero_fee_usdt: said(self.pnl_zero_fee_usdt),
        }
    }
}

/// What is known of `symbol`, if it is watched.
pub open spec fn state_of(states: Map<Seq<char>, SymbolState>, symbol: Seq<char>) -> Option<
    SymbolState,
> {
    if states.contains_key(symbol) {
        Some(states[symbol])
    } else {
        None
    }
}

/// The last quote of Binance, if there is one.
pub open spec fn binance_of(state: Option<SymbolState>) -> Option<QuoteUpdate> {
    match state {
        Some(s) => s.last_binance,
        None => None,
    }
}

/// The last quote of MEXC, if there is one.
pub open spec fn mexc_of(state: Option<SymbolState>) -> Option<QuoteUpdate> {
    match state {
        Some(s) => s.last_mexc,
        None => None,
    }
}

/// The direction of the pending move, if there is one.
pub open spec fn pending_of(state: Option<SymbolState>) -> Option<Direction> {
    match state {
        Some(s) => match s.pending {
            Some(p) => Some(p.direction),
            None => None,
        },
        None => None,
    }
}

/// The middle of a quote that may be missing.
pub open spec fn mid_in(quote: Option<QuoteUpdate>) -> Result<Option<Decimal>, Overflow> {
    match quote {
        Some(q) => match q.mid_spec() {
            Some(mid) => Ok(Some(mid)),
            None => Err(Overflow),
        },
        None => Ok(None),
    }
}

/// A direction on the dashboard and the screen.
pub open spec fn direction_shown(direction: Direction) -> Seq<char> {
    match direction {
        Direction::Up => "UP"@,
        Direction::Down => "DOWN"@,
    }
}

/// The difference between the middles in money and in basis points, as far as there is one.
pub open spec fn diff_of(b: Option<Decimal>, m: Option<Decimal>) -> Result<
    (Option<Decimal>, Option<Decimal>),
    Overflow,
> {
    match (b, m) {
        (Some(b), Some(m)) => match decimal_difference(m, b) {
            Some(d) => if b.positive() {
                match in_bps(d, b) {
                    Some(part) => Ok((Some(d), Some(part))),
                    None => Err(Overflow),
                }
            } else {
                Ok((Some(d), None))
            },
            None => Err(Overflow),
        },
        _ => Ok((None, None)),
    }
}

/// A number that may be missing, with at most `places` digits behind the point.
pub open spec fn shown_if(d: Option<Decimal>, places: nat) -> Option<Seq<char>> {
    match d {
        Some(d) => Some(shown(d, places)),
        None => None,
    }
}

/// What the dashboard says of `symbol`.
pub open spec fn row_of(
    symbol: Seq<char>,
    state: Option<SymbolState>,
    t: Tally,
    estimate: Option<LastTradeEstimate>,
) -> Result<RowView, Overflow> {
    match (mid_in(binance_of(state)), mid_in(mexc_of(state))) {
        (Ok(b), Ok(m)) => match diff_of(b, m) {
            Ok((usdt, part)) => Ok(
                RowView {
                    symbol,
                    binance_quotes: t.binance_quotes,
                    mexc_quotes: t.mexc_quotes,
                    impulses: t.impulses,
                    matched: t.matched,
                    expired: t.expired,
                    lag: summary_of(t.lags),
                    binance_mid: shown_if(b, 6),
                    mexc_mid: shown_if(m, 6),
                    price_diff_usdt: shown_if(usdt, 6),
                    price_diff_bps: shown_if(part, 3),
                    pending: match pending_of(state) {
                        Some(d) => Some(direction_shown(d)),
                        None => None,
                    },
                    last_direction: match estimate {
                        Some(e) => Some(direction_shown(e.direction)),
                        None => None,
                    },
                    last_lag_ms: match estimate {
                        Some(e) => Some(e.lag_ms),
                        None => None,
                    },
                    gross_bps: match estimate {
                        Some(e) => Some(shown(e.gross_cross_bps, 3)),
                        None => None,
                    },
                    net_fee_bps: match estimate {
                        Some(e) => Some(shown(e.net_fee_bps, 3)),
                        None => None,
                    },
                    net_zero_fee_bps: match estimate {
                        Some(e) => Some(shown(e.net_zero_fee_bps, 3)),
                        None => None,
                    },
                    pnl_fee_usdt: match estimate {
                        Some(e) => Some(shown(e.pnl_fee_usdt, 4)),
                        None => None,
                    },
                    pnl_zero_fee_usdt: match estimate {
                        Some(e) => Some(shown(e.pnl_zero_fee_usdt, 4)),
                        None => None,
                    },
                },
            ),
            Err(e) => Err(e),
        },
        _ => Err(Overflow),
    }
}

/// What the dashboard says of one of the watched symbols.
pub open spec fn row_in(
    states: Map<Seq<char>, SymbolState>,
    stats: Stats,
    symbol: Seq<char>,
) -> Result<RowView, Overflow> {
    row_of(symbol, state_of(states, symbol), stats.of(symbol), stats.estimate(symbol))
}

/// What is known of a symbol, taken apart.
struct Known {
    binance: Option<QuoteUpdate>,
    mexc: Option<QuoteUpdate>,
    pending: Option<Direction>,
    binance_mid: Option<Decimal>,
    mexc_mid: Option<Decimal>,
}

/// What was counted of a symbol.
struct Counted {
    binance_quotes: u64,
    mexc_quotes: u64,
    impulses: u64,
    matched: u64,
    expired: u64,
    lag: Option<LagSummary>,
    estimate: Option<LastTradeEstimate>,
}

fn counted(stats: &Stats, symbol: &str) -> (c: Counted)
    ensures
        c.binance_quotes == stats.of(symbol@).binance_quotes,
        c.mexc_quotes == stats.of(symbol@).mexc_quotes,
        c.impulses == stats.of(symbol@).impulses,
        c.matched == stats.of(symbol@).matched,
        c.expired == stats.of(symbol@).expired,
        c.lag == summary_of(stats.of(symbol@).lags),
        c.estimate == stats.estimate(symbol@),
{
    match stats.by_symbol.get(symbol) {
        Some(s) => Counted {
            binance_quotes: s.binance_quotes,
            mexc_quotes: s.mexc_quotes,
            impulses: s.impulses,
            matched: s.matched,
            expired: s.expired,
            lag: s.lag_summary(),
            estimate: s.last_trade,
        },
        None => Counted {
            binance_quotes: 0,
            mexc_quotes: 0,
            impulses: 0,
            matched: 0,
            expired: 0,
            lag: None,
            estimate: None,
        },
    }
}

fn copied(quote: &Option<QuoteUpdate>) -> (copy: Option<QuoteUpdate>)
    ensures
        copy == *quote,
{
    match quote {
        Some(q) => Some(q.clone()),
        None => None,
    }
}

fn mid_of_quote(quote: &Option<QuoteUpdate>) -> (mid: Result<Option<Decimal>, Overflow>)
    ensures
        mid == mid_in(*quote),
{
    match quote {
        Some(q) => match q.mid() {
            Some(mid) => Ok(Some(mid)),
            None => Err(Overflow),
        },
        None => Ok(None),
    }
}

fn known(states: &Table<SymbolState>, symbol: &str) -> (k: Result<Known, Overflow>)
    ensures
        k is Err <==> mid_in(binance_of(state_of(states@, symbol@))) is Err || mid_in(
            mexc_of(state_of(states@, symbol@)),
        ) is Err,
        k matches Ok(k) ==> {
            &&& k.binance == binance_of(state_of(states@, symbol@))
            &&& k.mexc == mexc_of(state_of(states@, symbol@))
            &&& k.pending == pending_of(state_of(states@, symbol@))
            &&& mid_in(k.binance) == Ok::<_, Overflow>(k.binance_mid)
            &&& mid_in(k.mexc) == Ok::<_, Overflow>(k.mexc_mid)
        },
{
    let (binance, mexc, pending) = match states.get(symbol) {
        Some(s) => (
            copied(&s.last_binance),
            copied(&s.last_mexc),
            match &s.pending {
                Some(p) => Some(p.direction),
                None => None,
            },
        ),
        None => (None, None, None),
    };
    match (mid_of_quote(&binance), mid_of_quote(&mexc)) {
        (Ok(binance_mid), Ok(mexc_mid)) => Ok(
            Known { binance, mexc, pending, binance_mid, mexc_mid },
        ),
        _ => Err(Overflow),
    }
}

fn direction_label(direction: Direction) -> (text: String)
    ensures
        text@ == direction_shown(direction),
{
    match direction {
        Direction::Up => "UP".to_string(),
        Direction::Down => "DOWN".to_string(),
    }
}

fn text_if(d: Option<Decimal>, places: u32) -> (text: Option<String>)
    ensures
        said(text) == shown_if(d, places as nat),
{
    match d {
        Some(d) => Some(round_text(d, places)),
        None => None,
    }
}

fn diff(b: Option<Decimal>, m: Option<Decimal>) -> (d: Result<
    (Option<Decimal>, Option<Decimal>),
    Overflow,
>)
    ensures
        d == diff_of(b, m),
{
    match (b, m) {
        (Some(b), Some(m)) => match m.minus(b) {
            Some(d) => {
                if b.is_positive() {
                    match bps(d, b) {
                        Some(part) => Ok((Some(d), Some(part))),
                        None => Err(Overflow),
                    }
                } else {
                    Ok((Some(d), None))
                }
            },
            None => Err(Overflow),
        },
        _ => Ok((None, None)),
    }
}

/// What the dashboard shows of `symbol`, or an error where a number is too large.
pub fn dashboard_row(states: &Table<SymbolState>, stats: &Stats, symbol: &str) -> (row: Result<
    DashboardSymbolRow,
    Overflow,
>)
    ensures
        row is Err <==> row_in(states@, *stats, symbol@) is Err,
        row matches Ok(r) ==> row_in(states@, *stats, symbol@) == Ok::<_, Overflow>(r@),
{
    let c = counted(stats, symbol);
    let k = match known(states, symbol) {
        Ok(k) => k,
        Err(e) => {
            return Err(e);
        },
    };
    let (usdt, part) = match diff(k.binance_mid, k.mexc_mid) {
        Ok(d) => d,
        Err(e) => {
            return Err(e);
        },
    };
    let e = c.estimate;
    let row = DashboardSymbolRow {
        symbol: symbol.to_string(),
        binance_quotes: c.binance_quotes,
        mexc_quotes: c.mexc_quotes,
        impulses: c.impulses,
        matched: c.matched,
        expired: c.expired,
        lag: c.lag,
        binance_mid: text_if(k.binance_mid, 6),
        mexc_mid: text_if(k.mexc_mid, 6),
        price_diff_usdt: text_if(usdt, 6),
        price_diff_bps: text_if(part, 3),
        pending: match k.pending {
            Some(d) => Some(direction_label(d)),
            None => None,
        },
        last_direction: match e {
            Some(e) => Some(direction_label(e.direction)),
            None => None,
        },
        last_lag_ms: match e {
            Some(e) => Some(e.lag_ms),
            None => None,
        },
        gross_bps: match e {
            Some(e) => Some(round_text(e.gross_cross_bps, 3)),
            None => None,
        },
        net_fee_bps: match e {
            Some(e) => Some(round_text(e.net_fee_bps, 3)),
            None => None,
        },
        net_zero_fee_bps: match e {
            Some(e) => Some(round_text(e.net_zero_fee_bps, 3)),
            None => None,
        },
        pnl_fee_usdt: match e {
            Some(e) => Some(round_text(e.pnl_fee_usdt, 4)),
            None => None,
        },
        pnl_zero_fee_usdt: match e {
            Some(e) => Some(round_text(e.pnl_zero_fee_usdt, 4)),
            None => None,
        },
    };
    assert(Ok::<_, Overflow>(row@) == row_in(states@, *stats, symbol@));
    Ok(row)
}

/// Whether the numbers of one of `symbols` are too large for the dashboard.
pub open spec fn rows_overflow(
    states: Map<Seq<char>, SymbolState>,
    stats: Stats,
    symbols: Seq<Seq<char>>,
) -> bool {
    exists|i: int| 0 <= i < symbols.len() && row_in(states, stats, #[trigger] symbols[i]) is Err
}

/// Whether `d` is what the dashboard shows. `average` is the average lag, as it is to be shown.
pub open spec fn shows(
    d: DashboardSnapshot,
    config: Config,
    live: LiveConfig,
    states: Map<Seq<char>, SymbolState>,
    stats: Stats,
    average: Seq<char>,
) -> bool {
    &&& d.summary@ == summary_line(stats.total(), average)
    &&& d.impulse_bps@ == decimal_text(live.impulse_bps)
    &&& d.confirm_bps@ == decimal_text(live.confirm_bps)
    &&& d.max_lag_ms == live.max_lag_ms
    &&& d.symbols@.len() == config.symbols@.len()
    &&& forall|i: int|
        0 <= i < d.symbols@.len() ==> Ok::<_, Overflow>((#[trigger] d.symbols@[i])@) == row_in(
            states,
            stats,
            config.symbols@[i]@,
        )
}

/// What the dashboard shows at the time `updated_at`, or an error where a number is too large.
/// `average` is the average lag, as it is to be shown.
pub fn dashboard_at(
    config: &Config,
    live: &LiveConfig,
    states: &Table<SymbolState>,
    stats: &Stats,
    average: &str,
    updated_at: String,
) -> (snapshot: Result<DashboardSnapshot, Overflow>)
    ensures
        snapshot is Err <==> rows_overflow(states@, *stats, texts(config.symbols@)),
        snapshot matches Ok(d) ==> d.updated_at == updated_at && shows(
            d,
            *config,
            *live,
            states@,
            *stats,
            average@,
        ),
{
    let mut symbols: Vec<DashboardSymbolRow> = Vec::new();
    let mut i: usize = 0;
    while i < config.symbols.len()
        invariant
            i <= config.symbols@.len(),
            symbols@.len() == i,
            forall|k: int|
                0 <= k < i ==> Ok::<_, Overflow>((#[trigger] symbols@[k])@) == row_in(
                    states@,
                    *stats,
                    config.symbols@[k]@,
                ),
        decreases config.symbols@.len() - i,
    {
        match dashboard_row(states, stats, config.symbols[i].as_str()) {
            Ok(row) => {
                symbols.push(row);
            },
            Err(e) => {
                assert(row_in(states@, *stats, texts(config.symbols@)[i as int]) is Err);
                return Err(e);
            },
        }
        i += 1;
    }
    assert(!rows_overflow(states@, *stats, texts(config.symbols@))) by {
        assert forall|k: int| 0 <= k < texts(config.symbols@).len() implies row_in(
            states@,
            *stats,
            #[trigger] texts(config.symbols@)[k],
        ) is Ok by {
            assert(Ok::<_, Overflow>(symbols@[k]@) == row_in(
                states@,
                *stats,
                config.symbols@[k]@,
            ));
        }
    }
    Ok(
        DashboardSnapshot {
            updated_at,
            summary: stats.summary(average),
            impulse_bps: live.impulse_bps.text(),
            confirm_bps: live.confirm_bps.text(),
            max_lag_ms: live.max_lag_ms,
            symbols,
        },
    )
}

/// What the dashboard shows now, or an error where a number is too large. `average` is the average
/// lag, as it is to be shown.
pub fn build_dashboard_snapshot(
    config: &Config,
    live: &LiveConfig,
    states: &Table<SymbolState>,
    stats: &Stats,
    average: &str,
) -> (snapshot: Result<DashboardSnapshot, Overflow>)
    ensures
        snapshot is Err <==> rows_overflow(states@, *stats, texts(config.symbols@)),
        snapshot matches Ok(d) ==> is_shown_time(d.updated_at@) && shows(
            d,
            *config,
            *live,
            states@,
            *stats,
            average@,
        ),
{
    dashboard_at(config, live, states, stats, average, utc_now())
}

// The screen.

/// The widths of the columns on the screen behind the first one.
pub open spec fn widths() -> Seq<int> {
    seq![8, 8, 7, 7, 7, 8, 8, 8, 12, 12, 8]
}

/// A line of the table on the screen: the first cell stands at the left of its column, each other
/// one at the right.
pub open spec fn table_line(cells: Seq<Seq<char>>) -> Seq<char> {
    joined(
        Seq::new(
            cells.len(),
            |i: int|
                if i == 0 {
                    padded_left(cells[0], 12)
                } else {
                    padded_right(cells[i], widths()[i - 1])
                },
        ),
        " "@,
    )
}

/// The heads of the table on the screen.
pub open spec fn heads() -> Seq<Seq<char>> {
    seq![
        "symbol"@,
        "bnc_q"@,
        "mexc_q"@,
        "imp"@,
        "match"@,
        "exp"@,
        "avg"@,
        "p50"@,
        "p95"@,
        "bnc_mid"@,
        "mexc_mid"@,
        "pending"@,
    ]
}

/// A text that may be missing, with a dash where it is.
pub open spec fn or_dash(text: Option<Seq<char>>) -> Seq<char> {
    match text {
        Some(t) => t,
        None => "-"@,
    }
}

/// The cells of a symbol on the screen. `average` is the average lag, as it is to be shown.
pub open spec fn cells_of(
    symbol: Seq<char>,
    state: Option<SymbolState>,
    t: Tally,
    average: Seq<char>,
) -> Result<Seq<Seq<char>>, Overflow> {
    match (mid_in(binance_of(state)), mid_in(mexc_of(state))) {
        (Ok(b), Ok(m)) => Ok(
            seq![
                symbol,
                digits(t.binance_quotes as nat),
                digits(t.mexc_quotes as nat),
                digits(t.impulses as nat),
                digits(t.matched as nat),
                digits(t.expired as nat),
                match summary_of(t.lags) {
                    Some(s) => average,
                    None => "-"@,
                },
                match summary_of(t.lags) {
                    Some(s) => int_text(s.p50 as int),
                    None => "-"@,
                },
                match summary_of(t.lags) {
                    Some(s) => int_text(s.p95 as int),
                    None => "-"@,
                },
                or_dash(shown_if(b, 4)),
                or_dash(shown_if(m, 4)),
                match pending_of(state) {
                    Some(d) => direction_shown(d),
                    None => "-"@,
                },
            ],
        ),
        _ => Err(Overflow),
    }
}

/// The cells of one of the watched symbols on the screen.
pub open spec fn cells_in(
    states: Map<Seq<char>, SymbolState>,
    stats: Stats,
    symbol: Seq<char>,
    average: Seq<char>,
) -> Result<Seq<Seq<char>>, Overflow> {
    cells_of(symbol, state_of(states, symbol), stats.of(symbol), average)
}

/// The line of the screen with the thresholds.
pub open spec fn thresholds_line(config: Config, live: LiveConfig) -> Seq<char> {
    "thresholds: impulse>="@ + decimal_text(live.impulse_bps) + "bps confirm>="@ + decimal_text(
        live.confirm_bps,
    ) + "bps max_lag="@ + int_text(live.max_lag_ms as int) + "ms window="@ + int_text(
        config.impulse_window_ms as int,
    ) + "ms"@
}

/// The first line of the screen.
pub open spec fn title_line(utc: Seq<char>, count: nat) -> Seq<char> {
    "=== MEXC LAG MONITOR "@ + utc + " | symbols="@ + digits(count) + " ==="@
}

fn table_text(cells: &Vec<String>) -> (line: String)
    requires
        cells@.len() == 12,
    ensures
        line@ == table_line(texts(cells@)),
{
    let mut padded: Vec<String> = Vec::new();
    padded.push(pad_left(cells[0].as_str(), 12));
    padded.push(pad_right(cells[1].as_str(), 8));
    padded.push(pad_right(cells[2].as_str(), 8));
    padded.push(pad_right(cells[3].as_str(), 7));
    padded.push(pad_right(cells[4].as_str(), 7));
    padded.push(pad_right(cells[5].as_str(), 7));
    padded.push(pad_right(cells[6].as_str(), 8));
    padded.push(pad_right(cells[7].as_str(), 8));
    padded.push(pad_right(cells[8].as_str(), 8));
    padded.push(pad_right(cells[9].as_str(), 12));
    padded.push(pad_right(cells[10].as_str(), 12));
    padded.push(pad_right(cells[11].as_str(), 8));
    assert(texts(padded@) =~= Seq::new(
        12,
        |i: int|
            if i == 0 {
                padded_left(texts(cells@)[0], 12)
            } else {
                padded_right(texts(cells@)[i], widths()[i - 1])
            },
    ));
    join(&padded, " ")
}

fn heads_text() -> (line: String)
    ensures
        line@ == table_line(heads()),
{
    let mut cells: Vec<String> = Vec::new();
    cells.push("symbol".to_string());
    cells.push("bnc_q".to_string());
    cells.push("mexc_q".to_string());
    cells.push("imp".to_string());
    cells.push("match".to_string());
    cells.push("exp".to_string());
    cells.push("avg".to_string());
    cells.push("p50".to_string());
    cells.push("p95".to_string());
    cells.push("bnc_mid".to_string());
    cells.push("mexc_mid".to_string());
    cells.push("pending".to_string());
    assert(texts(cells@) =~= heads());
    table_text(&cells)
}

fn dash_if_none(text: Option<String>) -> (shown: String)
    ensures
        shown@ == or_dash(said(text)),
{
    match text {
        Some(t) => t,
        None => "-".to_string(),
    }
}

/// The line of the screen for `symbol`, or an error where a number is too large. `average` is the
/// average lag, as it is to be shown.
pub fn symbol_line(states: &Table<SymbolState>, stats: &Stats, symbol: &str, average: &str) -> (line:
    Result<String, Overflow>)
    ensures
        line is Err <==> cells_in(states@, *stats, symbol@, average@) is Err,
        line matches Ok(l) ==> cells_in(states@, *stats, symbol@, average@) matches Ok(cells)
            && l@ == table_line(cells),
{
    let c = counted(stats, symbol);
    let k = match known(states, symbol) {
        Ok(k) => k,
        Err(e) => {
            return Err(e);
        },
    };
    let (avg, p50, p95) = match c.lag {
        Some(s) => (average.to_string(), text_of_i64(s.p50), text_of_i64(s.p95)),
        None => ("-".to_string(), "-".to_string(), "-".to_string()),
    };
    let pending = match k.pending {
        Some(d) => direction_label(d),
        None => "-".to_string(),
    };
    let mut cells: Vec<String> = Vec::new();
    cells.push(symbol.to_string());
    cells.push(text_of_u64(c.binance_quotes));
    cells.push(text_of_u64(c.mexc_quotes));
    cells.push(text_of_u64(c.impulses));
    cells.push(text_of_u64(c.matched));
    cells.push(text_of_u64(c.expired));
    cells.push(avg);
    cells.push(p50);
    cells.push(p95);
    cells.push(dash_if_none(text_if(k.binance_mid, 4)));
    cells.push(dash_if_none(text_if(k.mexc_mid, 4)));
    cells.push(pending);
    assert(texts(cells@) =~= cells_in(states@, *stats, symbol@, average@)->Ok_0);
    Ok(table_text(&cells))
}

/// Whether the middle of one of the quotes of `symbols` is too large.
pub open spec fn mids_overflow(states: Map<Seq<char>, SymbolState>, symbols: Seq<Seq<char>>) -> bool {
    exists|i: int|
        0 <= i < symbols.len() && (mid_in(
            binance_of(state_of(states, #[trigger] symbols[i])),
        ) is Err || mid_in(mexc_of(state_of(states, symbols[i]))) is Err)
}

/// Whether `lines` are those of the screen. `average` is the average lag, and `averages` are those
/// of the symbols, as they are to be shown.
pub open spec fn on_screen(
    lines: Seq<Seq<char>>,
    config: Config,
    live: LiveConfig,
    states: Map<Seq<char>, SymbolState>,
    stats: Stats,
    average: Seq<char>,
    averages: Seq<Seq<char>>,
    utc: Seq<char>,
) -> bool {
    &&& lines.len() == config.symbols@.len() + 4
    &&& lines[0] == title_line(utc, config.symbols@.len())
    &&& lines[1] == summary_line(stats.total(), average)
    &&& lines[2] == thresholds_line(config, live)
    &&& lines[3] == table_line(heads())
    &&& forall|i: int|
        0 <= i < config.symbols@.len() ==> (cells_in(
            states,
            stats,
            (#[trigger] config.symbols@[i])@,
            averages[i],
        ) matches Ok(cells) && lines[i + 4] == table_line(cells))
}

/// The lines of the screen at the time `utc`, or an error where a number is too large.
pub fn screen_at(
    config: &Config,
    live: &LiveConfig,
    states: &Table<SymbolState>,
    stats: &Stats,
    average: &str,
    averages: &Vec<String>,
    utc: &str,
) -> (lines: Result<Vec<String>, Overflow>)
    requires
        averages@.len() == config.symbols@.len(),
    ensures
        lines is Err <==> mids_overflow(states@, texts(config.symbols@)),
        lines matches Ok(l) ==> on_screen(
            texts(l@),
            *config,
            *live,
            states@,
            *stats,
            average@,
            texts(averages@),
            utc@,
        ),
{
    let mut lines: Vec<String> = Vec::new();
    lines.push(
        "=== MEXC LAG MONITOR ".to_string().concat(utc).concat(" | symbols=").concat(
            text_of_u64(config.symbols.len() as u64).as_str(),
        ).concat(" ==="),
    );
    lines.push(stats.summary(average));
    lines.push(
        "thresholds: impulse>=".to_string().concat(live.impulse_bps.text().as_str()).concat(
            "bps confirm>=",
        ).concat(live.confirm_bps.text().as_str()).concat("bps max_lag=").concat(
            text_of_i64(live.max_lag_ms).as_str(),
        ).concat("ms window=").concat(text_of_i64(config.impulse_window_ms).as_str()).concat("ms"),
    );
    lines.push(heads_text());
    let mut i: usize = 0;
    while i < config.symbols.len()
        invariant
            i <= config.symbols@.len(),
            averages@.len() == config.symbols@.len(),
            lines@.len() == i + 4,
            lines@[0]@ == title_line(utc@, config.symbols@.len()),
            lines@[1]@ == summary_line(stats.total(), average@),
            lines@[2]@ == thresholds_line(*config, *live),
            lines@[3]@ == table_line(heads()),
            forall|k: int|
                0 <= k < i ==> (cells_in(
                    states@,
                    *stats,
                    (#[trigger] config.symbols@[k])@,
                    averages@[k]@,
                ) matches Ok(cells) && lines@[k + 4]@ == table_line(cells)),
        decreases config.symbols@.len() - i,
    {
        match symbol_line(states, stats, config.symbols[i].as_str(), averages[i].as_str()) {
            Ok(line) => {
                lines.push(line);
            },
            Err(e) => {
                assert(texts(config.symbols@)[i as int] == config.symbols@[i as int]@);
                return Err(e);
            },
        }
        i += 1;
    }
    assert(!mids_overflow(states@, texts(config.symbols@))) by {
        assert forall|k: int| 0 <= k < texts(config.symbols@).len() implies mid_in(
            binance_of(state_of(states@, #[trigger] texts(config.symbols@)[k])),
        ) is Ok && mid_in(mexc_of(state_of(states@, texts(config.symbols@)[k]))) is Ok by {
            assert(cells_in(states@, *stats, config.symbols@[k]@, averages@[k]@) is Ok);
        }
    }
    assert forall|k: int| 0 <= k < config.symbols@.len() implies (cells_in(
        states@,
        *stats,
        (#[trigger] config.symbols@[k])@,
        texts(averages@)[k],
    ) matches Ok(cells) && texts(lines@)[k + 4] == table_line(cells)) by {
        assert(texts(averages@)[k] == averages@[k]@);
        assert(texts(lines@)[k + 4] == lines@[k + 4]@);
    }
    Ok(lines)
}

/// The lines of the screen now, or an error where a number is too large.
pub fn print_stats(
    config: &Config,
    live: &LiveConfig,
    states: &Table<SymbolState>,
    stats: &Stats,
    average: &str,
    averages: &Vec<String>,
) -> (lines: Result<Vec<String>, Overflow>)
    requires
        averages@.len() == config.symbols@.len(),
    ensures
        lines is Err <==> mids_overflow(states@, texts(config.symbols@)),
        lines matches Ok(l) ==> exists|utc: Seq<char>|
            is_shown_time(utc) && #[trigger] on_screen(
                texts(l@),
                *config,
                *live,
                states@,
                *stats,
                average@,
                texts(averages@),
                utc,
            ),
{
    let utc = utc_now();
    screen_at(config, live, states, stats, average, averages, utc.as_str())
}

// The file of the statistics.

/// The age of a quote that may be missing.
pub open spec fn age_in(quote: Option<QuoteUpdate>, now: int) -> Result<Option<int>, Overflow> {
    match quote {
        Some(q) => if is_i64(now - q.recv_ts_ms) {
            Ok(Some(now - q.recv_ts_ms))
        } else {
            Err(Overflow)
        },
        None => Ok(None),
    }
}

/// The age in a file.
pub open spec fn age_text(age: Option<int>) -> Seq<char> {
    match age {
        Some(ms) => int_text(ms),
        None => Seq::empty(),
    }
}

/// A number in a file that may be missing.
pub open spec fn number_text(d: Option<Decimal>) -> Seq<char> {
    match d {
        Some(d) => decimal_text(d),
        None => Seq::empty(),
    }
}

/// The values of the line for a symbol in the file of the statistics.
pub open spec fn stats_values(
    symbol: Seq<char>,
    state: Option<SymbolState>,
    t: Tally,
    average: Seq<char>,
    utc: Seq<char>,
    now: int,
) -> Result<Seq<Seq<char>>, Overflow> {
    match (
        mid_in(binance_of(state)),
        mid_in(mexc_of(state)),
        age_in(binance_of(state), now),
        age_in(mexc_of(state), now),
    ) {
        (Ok(b), Ok(m), Ok(b_age), Ok(m_age)) => {
            let lag = summary_of(t.lags);
            Ok(
                seq![
                    utc,
                    symbol,
                    digits(t.binance_quotes as nat),
                    digits(t.mexc_quotes as nat),
                    digits(t.impulses as nat),
                    digits(t.matched as nat),
                    digits(t.expired as nat),
                    match lag {
                        Some(s) => average,
                        None => Seq::empty(),
                    },
                    match lag {
                        Some(s) => int_text(s.p50 as int),
                        None => Seq::empty(),
                    },
                    match lag {
                        Some(s) => int_text(s.p95 as int),
                        None => Seq::empty(),
                    },
                    match lag {
                        Some(s) => int_text(s.min as int),
                        None => Seq::empty(),
                    },
                    match lag {
                        Some(s) => int_text(s.max as int),
                        None => Seq::empty(),
                    },
                    number_text(b),
                    number_text(m),
                    age_text(b_age),
                    age_text(m_age),
                    if pending_of(state) is Some {
                        "true"@
                    } else {
                        "false"@
                    },
                ],
            )
        },
        _ => Err(Overflow),
    }
}

/// The values of the line for one of the watched symbols.
pub open spec fn stats_values_in(
    states: Map<Seq<char>, SymbolState>,
    stats: Stats,
    symbol: Seq<char>,
    average: Seq<char>,
    utc: Seq<char>,
    now: int,
) -> Result<Seq<Seq<char>>, Overflow> {
    stats_values(symbol, state_of(states, symbol), stats.of(symbol), average, utc, now)
}

fn age_of(quote: &Option<QuoteUpdate>, now: i64) -> (age: Result<String, Overflow>)
    ensures
        age is Err <==> age_in(*quote, now as int) is Err,
        age matches Ok(t) ==> age_in(*quote, now as int) matches Ok(a) && t@ == age_text(a),
{
    match quote {
        Some(q) => match now.checked_sub(q.recv_ts_ms) {
            Some(ms) => Ok(text_of_i64(ms)),
            None => Err(Overflow),
        },
        None => {
            let t = String::new();
            assert(t@ =~= Seq::<char>::empty());
            Ok(t)
        },
    }
}

fn number_of(d: Option<Decimal>) -> (text: String)
    ensures
        text@ == number_text(d),
{
    match d {
        Some(d) => d.text(),
        None => String::new(),
    }
}

/// The line for `symbol` in the file of the statistics, or an error where a number is too large.
pub fn stats_line(
    states: &Table<SymbolState>,
    stats: &Stats,
    symbol: &str,
    average: &str,
    utc: &str,
    now: i64,
) -> (line: Result<String, Overflow>)
    ensures
        line is Err <==> stats_values_in(
            states@,
            *stats,
            symbol@,
            average@,
            utc@,
            now as int,
        ) is Err,
        line matches Ok(l) ==> stats_values_in(
            states@,
            *stats,
            symbol@,
            average@,
            utc@,
            now as int,
        ) matches Ok(values) && l@ == joined(values, ","@),
{
    let c = counted(stats, symbol);
    let k = match known(states, symbol) {
        Ok(k) => k,
        Err(e) => {
            return Err(e);
        },
    };
    let b_age = match age_of(&k.binance, now) {
        Ok(age) => age,
        Err(e) => {
            return Err(e);
        },
    };
    let m_age = match age_of(&k.mexc, now) {
        Ok(age) => age,
        Err(e) => {
            return Err(e);
        },
    };
    let mut cols: Vec<String> = Vec::new();
    cols.push(utc.to_string());
    cols.push(symbol.to_string());
    cols.push(text_of_u64(c.binance_quotes));
    cols.push(text_of_u64(c.mexc_quotes));
    cols.push(text_of_u64(c.impulses));
    cols.push(text_of_u64(c.matched));
    cols.push(text_of_u64(c.expired));
    match c.lag {
        Some(s) => {
            cols.push(average.to_string());
            cols.push(text_of_i64(s.p50));
            cols.push(text_of_i64(s.p95));
            cols.push(text_of_i64(s.min));
            cols.push(text_of_i64(s.max));
        },
        None => {
            cols.push(String::new());
            cols.push(String::new());
            cols.push(String::new());
            cols.push(String::new());
            cols.push(String::new());
        },
    }
    cols.push(number_of(k.binance_mid));
    cols.push(number_of(k.mexc_mid));
    cols.push(b_age);
    cols.push(m_age);
    cols.push(
        if k.pending.is_some() {
            "true".to_string()
        } else {
            "false".to_string()
        },
    );
    assert(texts(cols@) =~= stats_values_in(
        states@,
        *stats,
        symbol@,
        average@,
        utc@,
        now as int,
    )->Ok_0);
    Ok(join(&cols, ","))
}

/// Whether `lines` are those that the file of the statistics gets.
pub open spec fn in_file(
    lines: Seq<Seq<char>>,
    config: Config,
    states: Map<Seq<char>, SymbolState>,
    stats: Stats,
    averages: Seq<Seq<char>>,
    utc: Seq<char>,
    now: int,
) -> bool {
    &&& lines.len() == config.symbols@.len()
    &&& forall|i: int|
        0 <= i < config.symbols@.len() ==> (stats_values_in(
            states,
            stats,
            (#[trigger] config.symbols@[i])@,
            averages[i],
            utc,
            now,
        ) matches Ok(values) && lines[i] == joined(values, ","@))
}

/// Whether a middle or an age of the quotes of `symbols` is too large.
pub open spec fn file_overflow(
    states: Map<Seq<char>, SymbolState>,
    symbols: Seq<Seq<char>>,
    now: int,
) -> bool {
    exists|i: int| #![trigger symbols[i]]
        0 <= i < symbols.len() && {
            let state = state_of(states, symbols[i]);
            ||| mid_in(binance_of(state)) is Err
            ||| mid_in(mexc_of(state)) is Err
            ||| age_in(binance_of(state), now) is Err
            ||| age_in(mexc_of(state), now) is Err
        }
}

/// The lines that the file of the statistics gets at the time `now`, or an error where a number is
/// too large. `averages` are the average lags of the symbols, as they are to be shown.
pub fn stats_lines_at(
    config: &Config,
    states: &Table<SymbolState>,
    stats: &Stats,
    averages: &Vec<String>,
    utc: &str,
    now: i64,
) -> (lines: Result<Vec<String>, Overflow>)
    requires
        averages@.len() == config.symbols@.len(),
    ensures
        lines is Err <==> file_overflow(states@, texts(config.symbols@), now as int),
        lines matches Ok(l) ==> in_file(
            texts(l@),
            *config,
            states@,
            *stats,
            texts(averages@),
            utc@,
            now as int,
        ),
{
    let mut lines: Vec<String> = Vec::new();
    let mut i: usize = 0;
    while i < config.symbols.len()
        invariant
            i <= config.symbols@.len(),
            averages@.len() == config.symbols@.len(),
            lines@.len() == i,
            forall|k: int|
                0 <= k < i ==> (stats_values_in(
                    states@,
                    *stats,
                    (#[trigger] config.symbols@[k])@,
                    averages@[k]@,
                    utc@,
                    now as int,
                ) matches Ok(values) && lines@[k]@ == joined(values, ","@)),
        decreases config.symbols@.len() - i,
    {
        match stats_line(
            states,
            stats,
            config.symbols[i].as_str(),
            averages[i].as_str(),
            utc,
            now,
        ) {
            Ok(line) => {
                lines.push(line);
            },
            Err(e) => {
                assert(texts(config.symbols@)[i as int] == config.symbols@[i as int]@);
                return Err(e);
            },
        }
        i += 1;
    }
    assert(!file_overflow(states@, texts(config.symbols@), now as int)) by {
        assert forall|k: int| 0 <= k < texts(config.symbols@).len() implies {
            let state = state_of(states@, #[trigger] texts(config.symbols@)[k]);
            &&& mid_in(binance_of(state)) is Ok
            &&& mid_in(mexc_of(state)) is Ok
            &&& age_in(binance_of(state), now as int) is Ok
            &&& age_in(mexc_of(state), now as int) is Ok
        } by {
            assert(stats_values_in(
                states@,
                *stats,
                config.symbols@[k]@,
                averages@[k]@,
                utc@,
                now as int,
            ) is Ok);
        }
    }
    assert forall|k: int| 0 <= k < config.symbols@.len() implies (stats_values_in(
        states@,
        *stats,
        (#[trigger] config.symbols@[k])@,
        texts(averages@)[k],
        utc@,
        now as int,
    ) matches Ok(values) && texts(lines@)[k] == joined(values, ","@)) by {
        assert(texts(averages@)[k] == averages@[k]@);
        assert(texts(lines@)[k] == lines@[k]@);
    }
    Ok(lines)
}

/// The lines that the file of the statistics gets now, or an error where a number is too large.
/// `averages` are the average lags of the symbols, as they are to be shown.
pub fn write_stats_snapshot(
    config: &Config,
    states: &Table<SymbolState>,
    stats: &Stats,
    averages: &Vec<String>,
) -> (lines: Result<Vec<String>, Overflow>)
    requires
        averages@.len() == config.symbols@.len(),
    ensures
        lines is Err ==> exists|now: int|
            clock_shows(now) && #[trigger] file_overflow(states@, texts(config.symbols@), now),
        lines matches Ok(l) ==> exists|utc: Seq<char>, now: int|
            is_rfc3339(utc) && clock_shows(now) && !file_overflow(
                states@,
                texts(config.symbols@),
                now,
            ) && #[trigger] in_file(
                texts(l@),
                *config,
                states@,
                *stats,
                texts(averages@),
                utc,
                now,
            ),
{
    let now: i64 = now_ms();
    let utc = rfc3339_now();
    stats_lines_at(config, states, stats, averages, utc.as_str(), now)
}

} // verus!
