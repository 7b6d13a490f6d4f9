//! The files of comma-separated values: the lags, and what a trade on each would have brought.

use vstd::prelude::*;

use crate::clock::{clock_text, is_rfc3339, rfc3339_now};
use crate::decimal::{decimal_text, numbers_hold_no_comma};
use crate::monitor::{LagRecord, Slippage};
use crate::stats::Direction;
use crate::text::{
    free_of, int_text, is_digit, join, joined, pieces, reading_undoes_writing, split_undoes_join,
    text_of_i64, texts, written_i64,
};

verus! {

/// The first line of the file of the lags.
pub open spec fn lag_header() -> Seq<char> {
    "utc,symbol,direction,lag_ms,binance_move_bps,mexc_move_bps,binance_start_mid,binance_end_mid,mexc_start_mid,mexc_confirm_mid,binance_event_ts_ms,mexc_recv_ts_ms"@
}

/// The first line of the file of the slippage.
pub open spec fn slippage_header() -> Seq<char> {
    "utc,symbol,direction,lag_ms,entry_bid,entry_ask,exit_bid,exit_ask,entry_spread_bps,exit_spread_bps,gross_cross_bps,fees_bps,net_cross_bps,estimated_pnl_usdt,binance_move_bps,mexc_move_bps"@
}

/// The first line of the file of the statistics.
pub open spec fn stats_header() -> Seq<char> {
    "utc,symbol,binance_quotes,mexc_quotes,impulses,matched,expired,avg_lag_ms,p50_lag_ms,p95_lag_ms,min_lag_ms,max_lag_ms,binance_mid,mexc_mid,binance_age_ms,mexc_age_ms,pending"@
}

/// What is written when the file of the lags is opened: its first line, where it is new.
pub fn open_csv(exists: bool) -> (line: Option<&'static str>)
    ensures
        line is None <==> exists,
        line matches Some(l) ==> l@ == lag_header(),
{
    if exists {
        return None;
    }
    Some("utc,symbol,direction,lag_ms,binance_move_bps,mexc_move_bps,binance_start_mid,binance_end_mid,mexc_start_mid,mexc_confirm_mid,binance_event_ts_ms,mexc_recv_ts_ms")
}

/// What is written when the file of the slippage is opened: its first line, where it is new.
pub fn open_slippage_csv(exists: bool) -> (line: Option<&'static str>)
    ensures
        line is None <==> exists,
        line matches Some(l) ==> l@ == slippage_header(),
{
    if exists {
        return None;
    }
    Some("utc,symbol,direction,lag_ms,entry_bid,entry_ask,exit_bid,exit_ask,entry_spread_bps,exit_spread_bps,gross_cross_bps,fees_bps,net_cross_bps,estimated_pnl_usdt,binance_move_bps,mexc_move_bps")
}

/// What is written when the file of the statistics is opened: its first line, where it is new.
pub fn open_stats_csv(exists: bool) -> (line: Option<&'static str>)
    ensures
        line is None <==> exists,
        line matches Some(l) ==> l@ == stats_header(),
{
    if exists {
        return None;
    }
    Some("utc,symbol,binance_quotes,mexc_quotes,impulses,matched,expired,avg_lag_ms,p50_lag_ms,p95_lag_ms,min_lag_ms,max_lag_ms,binance_mid,mexc_mid,binance_age_ms,mexc_age_ms,pending")
}

/// A direction in a file.
pub open spec fn direction_text(direction: Direction) -> Seq<char> {
    match direction {
        Direction::Up => "up"@,
        Direction::Down => "down"@,
    }
}

fn direction_name(direction: Direction) -> (text: String)
    ensures
        text@ == direction_text(direction),
{
    match direction {
        Direction::Up => "up".to_string(),
        Direction::Down => "down".to_string(),
    }
}

/// The values of a line of the file of the lags.
pub open spec fn lag_values(r: LagRecord, utc: Seq<char>) -> Seq<Seq<char>> {
    seq![
        utc,
        r.symbol@,
        direction_text(r.direction),
        int_text(r.lag_ms as int),
        decimal_text(r.binance_move_bps),
        decimal_text(r.mexc_move_bps),
        decimal_text(r.binance_start_mid),
        decimal_text(r.binance_end_mid),
        decimal_text(r.mexc_start_mid),
        decimal_text(r.mexc_confirm_mid),
        int_text(r.binance_event_ts_ms as int),
        int_text(r.mexc_recv_ts_ms as int),
    ]
}

/// The values of a line of the file of the slippage.
pub open spec fn slippage_values(r: LagRecord, s: Slippage, utc: Seq<char>) -> Seq<Seq<char>> {
    seq![
        utc,
        r.symbol@,
        direction_text(r.direction),
        int_text(r.lag_ms as int),
        decimal_text(s.entry_bid),
        decimal_text(s.entry_ask),
        decimal_text(s.exit_bid),
        decimal_text(s.exit_ask),
        decimal_text(s.entry_spread_bps),
        decimal_text(s.exit_spread_bps),
        decimal_text(s.gross_cross_bps),
        decimal_text(s.fees_bps),
        decimal_text(s.net_cross_bps),
        decimal_text(s.estimated_pnl_usdt),
        decimal_text(r.binance_move_bps),
        decimal_text(r.mexc_move_bps),
    ]
}

/// The line of the file of the lags for a record that is written at `utc`.
pub fn record_line(r: &LagRecord, utc: &str) -> (line: String)
    ensures
        line@ == joined(lag_values(*r, utc@), ","@),
{
    let mut cols: Vec<String> = Vec::new();
    cols.push(utc.to_string());
    cols.push(r.symbol.clone());
    cols.push(direction_name(r.direction));
    cols.push(text_of_i64(r.lag_ms));
    cols.push(r.binance_move_bps.text());
    cols.push(r.mexc_move_bps.text());
    cols.push(r.binance_start_mid.text());
    cols.push(r.binance_end_mid.text());
    cols.push(r.mexc_start_mid.text());
    cols.push(r.mexc_confirm_mid.text());
    cols.push(text_of_i64(r.binance_event_ts_ms));
    cols.push(text_of_i64(r.mexc_recv_ts_ms));
    assert(texts(cols@) =~= lag_values(*r, utc@));
    join(&cols, ",")
}

/// The line of the file of the slippage for a record that is written at `utc`.
pub fn slippage_line(r: &LagRecord, s: &Slippage, utc: &str) -> (line: String)
    ensures
        line@ == joined(slippage_values(*r, *s, utc@), ","@),
{
    let mut cols: Vec<String> = Vec::new();
    cols.push(utc.to_string());
    cols.push(r.symbol.clone());
    cols.push(direction_name(r.direction));
    cols.push(text_of_i64(r.lag_ms));
    cols.push(s.entry_bid.text());
    cols.push(s.entry_ask.text());
    cols.push(s.exit_bid.text());
    cols.push(s.exit_ask.text());
    cols.push(s.entry_spread_bps.text());
    cols.push(s.exit_spread_bps.text());
    cols.push(s.gross_cross_bps.text());
    cols.push(s.fees_bps.text());
    cols.push(s.net_cross_bps.text());
    cols.push(s.estimated_pnl_usdt.text());
    cols.push(r.binance_move_bps.text());
    cols.push(r.mexc_move_bps.text());
    assert(texts(cols@) =~= slippage_values(*r, *s, utc@));
    join(&cols, ",")
}

/// The line of the file of the lags for a record that is written now.
pub fn write_record(r: &LagRecord) -> (line: String)
    ensures
        exists|utc: Seq<char>|
            is_rfc3339(utc) && line@ == joined(#[trigger] lag_values(*r, utc), ","@),
{
    let utc = rfc3339_now();
    assert(is_rfc3339(utc@));
    record_line(r, utc.as_str())
}

/// The line of the file of the slippage for a record that is written now.
pub fn write_slippage_record(r: &LagRecord, s: &Slippage) -> (line: String)
    ensures
        exists|utc: Seq<char>|
            is_rfc3339(utc) && line@ == joined(#[trigger] slippage_values(*r, *s, utc), ","@),
{
    let utc = rfc3339_now();
    assert(is_rfc3339(utc@));
    slippage_line(r, s, utc.as_str())
}

proof fn lemma_numbers_free(n: i64)
    ensures
        free_of(int_text(n as int), ','),
{
    reading_undoes_writing(n);
    let t = int_text(n as int);
    assert forall|i: int| 0 <= i < t.len() implies #[trigger] t[i] != ',' by {
        assert(is_digit(t[i]) || t[i] == '-');
    }
}

proof fn lemma_direction_free(direction: Direction)
    ensures
        free_of(direction_text(direction), ','),
{
    reveal_strlit("up");
    reveal_strlit("down");
}

/// A line of the file of the lags splits into the values that were written, as many as its first
/// line names, and the lag is read back, where the symbol holds no comma.
pub proof fn lag_line_splits(r: LagRecord, utc: Seq<char>)
    requires
        clock_text(utc),
        free_of(r.symbol@, ','),
    ensures
        pieces(joined(lag_values(r, utc), ","@), ',') == lag_values(r, utc),
        written_i64(pieces(joined(lag_values(r, utc), ","@), ',')[3]) == Some(r.lag_ms),
{
    reveal_strlit(",");
    assert(","@ =~= seq![',']);
    let values = lag_values(r, utc);
    lemma_direction_free(r.direction);
    lemma_numbers_free(r.lag_ms);
    lemma_numbers_free(r.binance_event_ts_ms);
    lemma_numbers_free(r.mexc_recv_ts_ms);
    numbers_hold_no_comma(r.binance_move_bps);
    numbers_hold_no_comma(r.mexc_move_bps);
    numbers_hold_no_comma(r.binance_start_mid);
    numbers_hold_no_comma(r.binance_end_mid);
    numbers_hold_no_comma(r.mexc_start_mid);
    numbers_hold_no_comma(r.mexc_confirm_mid);
    assert(free_of(utc, ','));
    split_undoes_join(values, ',');
    reading_undoes_writing(r.lag_ms);
}

/// A line of the file of the slippage splits into the values that were written, and the lag is
/// read back, where the symbol holds no comma.
pub proof fn slippage_line_splits(r: LagRecord, s: Slippage, utc: Seq<char>)
    requires
        clock_text(utc),
        free_of(r.symbol@, ','),
    ensures
        pieces(joined(slippage_values(r, s, utc), ","@), ',') == slippage_values(r, s, utc),
        written_i64(pieces(joined(slippage_values(r, s, utc), ","@), ',')[3]) == Some(r.lag_ms),
{
    reveal_strlit(",");
    assert(","@ =~= seq![',']);
    let values = slippage_values(r, s, utc);
    lemma_direction_free(r.direction);
    lemma_numbers_free(r.lag_ms);
    numbers_hold_no_comma(s.entry_bid);
    numbers_hold_no_comma(s.entry_ask);
    numbers_hold_no_comma(s.exit_bid);
    numbers_hold_no_comma(s.exit_ask);
    numbers_hold_no_comma(s.entry_spread_bps);
    numbers_hold_no_comma(s.exit_spread_bps);
    numbers_hold_no_comma(s.gross_cross_bps);
    numbers_hold_no_comma(s.fees_bps);
    numbers_hold_no_comma(s.net_cross_bps);
    numbers_hold_no_comma(s.estimated_pnl_usdt);
    numbers_hold_no_comma(r.binance_move_bps);
    numbers_hold_no_comma(r.mexc_move_bps);
    assert(free_of(utc, ','));
    split_undoes_join(values, ',');
    reading_undoes_writing(r.lag_ms);
}

} // verus!
