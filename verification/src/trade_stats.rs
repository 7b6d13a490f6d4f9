//! What the file of the slippage says about trades that could have been made.

use vstd::prelude::*;

use crate::clock::clock_text;
use crate::csv::{slippage_line_splits, slippage_values};
use crate::decimal::decimal_text;
use crate::monitor::{LagRecord, Slippage};
use crate::text::{
    free_of, joined, lines, lines_of, parse_i64, pieces, split, texts, written_i64,
};

verus! {

/// How long MEXC must lag for a trade, where nothing else is asked for.
pub const DEFAULT_MIN_LAG_MS: i64 = 200;

/// How long MEXC must lag for a trade.
pub fn min_lag(asked: Option<i64>) -> (ms: i64)
    ensures
        ms == (match asked {
            Some(ms) => ms,
            None => 200,
        }),
{
    match asked {
        Some(ms) => ms,
        None => DEFAULT_MIN_LAG_MS,
    }
}

/// The symbols on which MEXC takes a fee from every order. Trades on them are left out.
pub open spec fn is_major(symbol: Seq<char>) -> bool {
    symbol == "BTC_USDT"@ || symbol == "ETH_USDT"@ || symbol == "SOL_USDT"@
}

/// Whether a line of the file is about a symbol that counts.
pub open spec fn counts(line: Seq<char>) -> bool {
    let cols = pieces(line, ',');
    cols.len() > 1 && !is_major(cols[1])
}

/// The gain in a line of the file, where its symbol counts and MEXC lagged for `min_lag_ms` or
/// longer.
pub open spec fn gain_in(line: Seq<char>, min_lag_ms: int) -> Option<Seq<char>> {
    let cols = pieces(line, ',');
    if counts(line) && cols.len() > 10 {
        match written_i64(cols[3]) {
            Some(lag) => if lag >= min_lag_ms {
                Some(cols[10])
            } else {
                None
            },
            None => None,
        }
    } else {
        None
    }
}

/// How many of `lines` count.
pub open spec fn count_of(lines: Seq<Seq<char>>) -> nat
    decreases lines.len(),
{
    if lines.len() == 0 {
        0
    } else if counts(lines.last()) {
        count_of(lines.drop_last()) + 1
    } else {
        count_of(lines.drop_last())
    }
}

/// The gains in those of `lines` that have one.
pub open spec fn gains_of(lines: Seq<Seq<char>>, min_lag_ms: int) -> Seq<Seq<char>>
    decreases lines.len(),
{
    if lines.len() == 0 {
        Seq::empty()
    } else {
        match gain_in(lines.last(), min_lag_ms) {
            Some(gain) => gains_of(lines.drop_last(), min_lag_ms).push(gain),
            None => gains_of(lines.drop_last(), min_lag_ms),
        }
    }
}

/// The lines of the file behind the first one.
pub open spec fn data_lines(text: Seq<char>) -> Seq<Seq<char>> {
    let all = lines_of(text);
    if all.len() == 0 {
        all
    } else {
        all.skip(1)
    }
}

/// What the file says: how many lines count, and the gains in basis points, as they stand there, of
/// those with a lag that is long enough.
#[derive(Debug)]
pub struct TradeRows {
    pub total_detected: usize,
    pub gross_bps: Vec<String>,
}

fn counts_line(cols: &Vec<String>) -> (yes: bool)
    ensures
        yes == (cols@.len() > 1 && !is_major(cols@[1]@)),
{
    if cols.len() <= 1 {
        return false;
    }
    let symbol = cols[1].as_str();
    !(*symbol == *"BTC_USDT" || *symbol == *"ETH_USDT" || *symbol == *"SOL_USDT")
}

/// The gain in a line of the file, where its symbol counts and MEXC lagged for `min_lag_ms` or
/// longer.
pub fn line_gain(line: &str, min_lag_ms: i64) -> (gain: Option<String>)
    ensures
        gain is Some <==> gain_in(line@, min_lag_ms as int) is Some,
        gain matches Some(g) ==> gain_in(line@, min_lag_ms as int) == Some(g@),
{
    let cols = split(line, ',');
    assert(forall|i: int| 0 <= i < cols@.len() ==> texts(cols@)[i] == (#[trigger] cols@[i])@);
    if !counts_line(&cols) || cols.len() <= 10 {
        return None;
    }
    match parse_i64(cols[3].as_str()) {
        Some(lag) => {
            if lag >= min_lag_ms {
                Some(cols[10].clone())
            } else {
                None
            }
        },
        None => None,
    }
}

/// Reads the file of the slippage for trades on lags of `min_lag_ms` or longer.
pub fn trade_rows(text: &str, min_lag_ms: i64) -> (rows: TradeRows)
    ensures
        rows.total_detected == count_of(data_lines(text@)),
        texts(rows.gross_bps@) == gains_of(data_lines(text@), min_lag_ms as int),
{
    let all = lines(text);
    let ghost data = data_lines(text@);
    let mut total_detected: usize = 0;
    let mut gross_bps: Vec<String> = Vec::new();
    assert(texts(gross_bps@) =~= Seq::<Seq<char>>::empty());
    if all.len() == 0 {
        return TradeRows { total_detected, gross_bps };
    }
    let mut i: usize = 1;
    assert(data.take(0) =~= Seq::<Seq<char>>::empty());
    while i < all.len()
        invariant
            1 <= i <= all@.len(),
            data == texts(all@).skip(1),
            total_detected == count_of(data.take(i - 1)),
            total_detected < i,
            texts(gross_bps@) == gains_of(data.take(i - 1), min_lag_ms as int),
        decreases all@.len() - i,
    {
        let ghost line = all@[i as int]@;
        assert(data.take(i as int).drop_last() =~= data.take(i - 1));
        assert(data.take(i as int).last() == line);
        let cols = split(all[i].as_str(), ',');
        assert(forall|k: int| 0 <= k < cols@.len() ==> texts(cols@)[k] == (#[trigger] cols@[k])@);
        if counts_line(&cols) {
            total_detected += 1;
        }
        match line_gain(all[i].as_str(), min_lag_ms) {
            Some(gain) => {
                let ghost before = texts(gross_bps@);
                let ghost shown = gain@;
                gross_bps.push(gain);
                assert(texts(gross_bps@) =~= before.push(shown));
            },
            None => {},
        }
        i += 1;
    }
    assert(data.take(data.len() as int) =~= data);
    TradeRows { total_detected, gross_bps }
}

/// What is written to the file is read from it: a line counts exactly where its symbol does, and
/// gives its gain exactly where MEXC lagged long enough as well. No symbol holds a comma.
pub proof fn written_lines_are_read(r: LagRecord, s: Slippage, utc: Seq<char>, min_lag_ms: int)
    requires
        clock_text(utc),
        free_of(r.symbol@, ','),
    ensures
        counts(joined(slippage_values(r, s, utc), ","@)) <==> !is_major(r.symbol@),
        gain_in(joined(slippage_values(r, s, utc), ","@), min_lag_ms) == (if !is_major(r.symbol@)
            && r.lag_ms >= min_lag_ms {
            Some(decimal_text(s.gross_cross_bps))
        } else {
            None
        }),
{
    slippage_line_splits(r, s, utc);
    let line = joined(slippage_values(r, s, utc), ","@);
    let values = slippage_values(r, s, utc);
    assert(pieces(line, ',') == values);
    assert(values.len() == 16);
    assert(values[1] == r.symbol@);
    assert(values[10] == decimal_text(s.gross_cross_bps));
}

proof fn lemma_gains(lines: Seq<Seq<char>>, min_lag_ms: int)
    ensures
        gains_of(lines, min_lag_ms).len() <= count_of(lines),
    decreases lines.len(),
{
    if lines.len() > 0 {
        lemma_gains(lines.drop_last(), min_lag_ms);
    }
}

/// No more trades come out than lines count.
pub proof fn no_more_trades_than_lines(text: Seq<char>, min_lag_ms: int)
    ensures
        gains_of(data_lines(text), min_lag_ms).len() <= count_of(data_lines(text)),
{
    lemma_gains(data_lines(text), min_lag_ms);
}

proof fn lemma_fewer_gains(
    lines: Seq<Seq<char>>,
    shorter: int,
    longer: int,
    wanted: spec_fn(Seq<char>) -> bool,
)
    requires
        shorter <= longer,
    ensures
        gains_of(lines, longer).len() <= gains_of(lines, shorter).len(),
        gains_of(lines, longer).filter(wanted).len() <= gains_of(lines, shorter).filter(
            wanted,
        ).len(),
        gains_of(lines, shorter).filter(wanted).len() <= gains_of(lines, shorter).len(),
    decreases lines.len(),
{
    if lines.len() > 0 {
        let rest = lines.drop_last();
        lemma_fewer_gains(rest, shorter, longer, wanted);
        reveal(Seq::filter);
        if let Some(gain) = gain_in(lines.last(), longer) {
            assert(gain_in(lines.last(), shorter) == Some(gain));
            assert(gains_of(rest, longer).push(gain).drop_last() =~= gains_of(rest, longer));
        }
        if let Some(gain) = gain_in(lines.last(), shorter) {
            assert(gains_of(rest, shorter).push(gain).drop_last() =~= gains_of(rest, shorter));
        }
    } else {
        reveal(Seq::filter);
    }
}

/// To ask for a longer lag never adds a trade, nor one of those whose gains have some property, and
/// of these there are no more than lines that count.
pub proof fn longer_lags_add_no_trade(
    text: Seq<char>,
    shorter: int,
    longer: int,
    wanted: spec_fn(Seq<char>) -> bool,
)
    requires
        shorter <= longer,
    ensures
        gains_of(data_lines(text), longer).len() <= gains_of(data_lines(text), shorter).len(),
        gains_of(data_lines(text), longer).filter(wanted).len() <= gains_of(
            data_lines(text),
            shorter,
        ).filter(wanted).len(),
        gains_of(data_lines(text), shorter).filter(wanted).len() <= count_of(data_lines(text)),
{
    lemma_fewer_gains(data_lines(text), shorter, longer, wanted);
    no_more_trades_than_lines(text, shorter);
}

} // verus!
