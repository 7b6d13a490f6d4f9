//! Which value stands under which name in the files.

use vstd::prelude::*;

use crate::csv::{
    direction_text, lag_header, lag_values, slippage_header, slippage_values, stats_header,
};
use crate::decimal::{decimal_text, Decimal, Overflow};
use crate::laws::measures::{is_middle, measures_mean_what_they_say};
use crate::monitor::{LagRecord, Slippage};
use crate::quotes::QuoteUpdate;
use crate::report::stats_values;
use crate::state::SymbolState;
use crate::stats::{summary_of, Direction, Tally};
use crate::text::{digits, int_text, joined};

verus! {

/// The names of columns.
pub open spec fn names(columns: Seq<(Seq<char>, Seq<char>)>) -> Seq<Seq<char>> {
    columns.map_values(|c: (Seq<char>, Seq<char>)| c.0)
}

/// The values of columns.
pub open spec fn values(columns: Seq<(Seq<char>, Seq<char>)>) -> Seq<Seq<char>> {
    columns.map_values(|c: (Seq<char>, Seq<char>)| c.1)
}

/// A direction as it stands in a file.
pub open spec fn way(direction: Direction) -> Seq<char> {
    if direction == Direction::Up {
        seq!['u', 'p']
    } else {
        seq!['d', 'o', 'w', 'n']
    }
}

/// The columns of the file of the lags.
pub open spec fn lag_columns(r: LagRecord, utc: Seq<char>) -> Seq<(Seq<char>, Seq<char>)> {
    seq![
        ("utc"@, utc),
        ("symbol"@, r.symbol@),
        ("direction"@, way(r.direction)),
        ("lag_ms"@, int_text(r.lag_ms as int)),
        ("binance_move_bps"@, decimal_text(r.binance_move_bps)),
        ("mexc_move_bps"@, decimal_text(r.mexc_move_bps)),
        ("binance_start_mid"@, decimal_text(r.binance_start_mid)),
        ("binance_end_mid"@, decimal_text(r.binance_end_mid)),
        ("mexc_start_mid"@, decimal_text(r.mexc_start_mid)),
        ("mexc_confirm_mid"@, decimal_text(r.mexc_confirm_mid)),
        ("binance_event_ts_ms"@, int_text(r.binance_event_ts_ms as int)),
        ("mexc_recv_ts_ms"@, int_text(r.mexc_recv_ts_ms as int)),
    ]
}

/// The columns of the file of the slippage.
pub open spec fn slippage_columns(r: LagRecord, s: Slippage, utc: Seq<char>) -> Seq<
    (Seq<char>, Seq<char>),
> {
    seq![
        ("utc"@, utc),
        ("symbol"@, r.symbol@),
        ("direction"@, way(r.direction)),
        ("lag_ms"@, int_text(r.lag_ms as int)),
        ("entry_bid"@, decimal_text(s.entry_bid)),
        ("entry_ask"@, decimal_text(s.entry_ask)),
        ("exit_bid"@, decimal_text(s.exit_bid)),
        ("exit_ask"@, decimal_text(s.exit_ask)),
        ("entry_spread_bps"@, decimal_text(s.entry_spread_bps)),
        ("exit_spread_bps"@, decimal_text(s.exit_spread_bps)),
        ("gross_cross_bps"@, decimal_text(s.gross_cross_bps)),
        ("fees_bps"@, decimal_text(s.fees_bps)),
        ("net_cross_bps"@, decimal_text(s.net_cross_bps)),
        ("estimated_pnl_usdt"@, decimal_text(s.estimated_pnl_usdt)),
        ("binance_move_bps"@, decimal_text(r.binance_move_bps)),
        ("mexc_move_bps"@, decimal_text(r.mexc_move_bps)),
    ]
}

proof fn lemma_joined_push(parts: Seq<Seq<char>>, last: Seq<char>)
    requires
        parts.len() > 0,
    ensures
        joined(parts.push(last), seq![',']) == joined(parts, seq![',']) + seq![','] + last,
{
    assert(parts.push(last).drop_last() =~= parts);
}

#[verifier::rlimit(60)]
proof fn lemma_lag_header()
    ensures
        lag_header() == joined(
            seq![
                "utc"@,
                "symbol"@,
                "direction"@,
                "lag_ms"@,
                "binance_move_bps"@,
                "mexc_move_bps"@,
                "binance_start_mid"@,
                "binance_end_mid"@,
                "mexc_start_mid"@,
                "mexc_confirm_mid"@,
                "binance_event_ts_ms"@,
                "mexc_recv_ts_ms"@,
            ],
            seq![','],
        ),
{
    reveal_strlit("utc");
    reveal_strlit("symbol");
    reveal_strlit("direction");
    reveal_strlit("lag_ms");
    reveal_strlit("binance_move_bps");
    reveal_strlit("mexc_move_bps");
    reveal_strlit("binance_start_mid");
    reveal_strlit("binance_end_mid");
    reveal_strlit("mexc_start_mid");
    reveal_strlit("mexc_confirm_mid");
    reveal_strlit("binance_event_ts_ms");
    reveal_strlit("mexc_recv_ts_ms");
    let n1 = seq!["utc"@];
    let n2 = n1.push("symbol"@);
    let n3 = n2.push("direction"@);
    let n4 = n3.push("lag_ms"@);
    let n5 = n4.push("binance_move_bps"@);
    let n6 = n5.push("mexc_move_bps"@);
    let n7 = n6.push("binance_start_mid"@);
    let n8 = n7.push("binance_end_mid"@);
    let n9 = n8.push("mexc_start_mid"@);
    let n10 = n9.push("mexc_confirm_mid"@);
    let n11 = n10.push("binance_event_ts_ms"@);
    let n12 = n11.push("mexc_recv_ts_ms"@);
    lemma_joined_push(n1, "symbol"@);
    lemma_joined_push(n2, "direction"@);
    lemma_joined_push(n3, "lag_ms"@);
    lemma_joined_push(n4, "binance_move_bps"@);
    lemma_joined_push(n5, "mexc_move_bps"@);
    lemma_joined_push(n6, "binance_start_mid"@);
    lemma_joined_push(n7, "binance_end_mid"@);
    lemma_joined_push(n8, "mexc_start_mid"@);
    lemma_joined_push(n9, "mexc_confirm_mid"@);
    lemma_joined_push(n10, "binance_event_ts_ms"@);
    lemma_joined_push(n11, "mexc_recv_ts_ms"@);
    reveal_strlit(
        "utc,symbol,direction,lag_ms,binance_move_bps,mexc_move_bps,binance_start_mid,binance_end_mid,mexc_start_mid,mexc_confirm_mid,binance_event_ts_ms,mexc_recv_ts_ms",
    );
    assert(lag_header() =~= joined(n12, seq![',']));
    assert(n12 =~= seq![
        "utc"@,
        "symbol"@,
        "direction"@,
        "lag_ms"@,
        "binance_move_bps"@,
        "mexc_move_bps"@,
        "binance_start_mid"@,
        "binance_end_mid"@,
        "mexc_start_mid"@,
        "mexc_confirm_mid"@,
        "binance_event_ts_ms"@,
        "mexc_recv_ts_ms"@,
    ]);
}

/// Each value of a record of a lag stands in its file under its name.
pub proof fn lags_stand_under_their_names(r: LagRecord, utc: Seq<char>)
    ensures
        lag_values(r, utc) == values(lag_columns(r, utc)),
        lag_header() == joined(names(lag_columns(r, utc)), seq![',']),
{
    reveal_strlit("up");
    reveal_strlit("down");
    assert("up"@ =~= seq!['u', 'p']);
    assert("down"@ =~= seq!['d', 'o', 'w', 'n']);
    assert(lag_values(r, utc) =~= values(lag_columns(r, utc)));
    lemma_lag_header();
    assert(names(lag_columns(r, utc)) =~= seq![
        "utc"@,
        "symbol"@,
        "direction"@,
        "lag_ms"@,
        "binance_move_bps"@,
        "mexc_move_bps"@,
        "binance_start_mid"@,
        "binance_end_mid"@,
        "mexc_start_mid"@,
        "mexc_confirm_mid"@,
        "binance_event_ts_ms"@,
        "mexc_recv_ts_ms"@,
    ]);
}

#[verifier::rlimit(60)]
proof fn lemma_slippage_header()
    ensures
        slippage_header() == joined(
            seq![
                "utc"@,
                "symbol"@,
                "direction"@,
                "lag_ms"@,
                "entry_bid"@,
                "entry_ask"@,
                "exit_bid"@,
                "exit_ask"@,
                "entry_spread_bps"@,
                "exit_spread_bps"@,
                "gross_cross_bps"@,
                "fees_bps"@,
                "net_cross_bps"@,
                "estimated_pnl_usdt"@,
                "binance_move_bps"@,
                "mexc_move_bps"@,
            ],
            seq![','],
        ),
{
    reveal_strlit("utc");
    reveal_strlit("symbol");
    reveal_strlit("direction");
    reveal_strlit("lag_ms");
    reveal_strlit("entry_bid");
    reveal_strlit("entry_ask");
    reveal_strlit("exit_bid");
    reveal_strlit("exit_ask");
    reveal_strlit("entry_spread_bps");
    reveal_strlit("exit_spread_bps");
    reveal_strlit("gross_cross_bps");
    reveal_strlit("fees_bps");
    reveal_strlit("net_cross_bps");
    reveal_strlit("estimated_pnl_usdt");
    reveal_strlit("binance_move_bps");
    reveal_strlit("mexc_move_bps");
    let n1 = seq!["utc"@];
    let n2 = n1.push("symbol"@);
    let n3 = n2.push("direction"@);
    let n4 = n3.push("lag_ms"@);
    let n5 = n4.push("entry_bid"@);
    let n6 = n5.push("entry_ask"@);
    let n7 = n6.push("exit_bid"@);
    let n8 = n7.push("exit_ask"@);
    let n9 = n8.push("entry_spread_bps"@);
    let n10 = n9.push("exit_spread_bps"@);
    let n11 = n10.push("gross_cross_bps"@);
    let n12 = n11.push("fees_bps"@);
    let n13 = n12.push("net_cross_bps"@);
    let n14 = n13.push("estimated_pnl_usdt"@);
    let n15 = n14.push("binance_move_bps"@);
    let n16 = n15.push("mexc_move_bps"@);
    lemma_joined_push(n1, "symbol"@);
    lemma_joined_push(n2, "direction"@);
    lemma_joined_push(n3, "lag_ms"@);
    lemma_joined_push(n4, "entry_bid"@);
    lemma_joined_push(n5, "entry_ask"@);
    lemma_joined_push(n6, "exit_bid"@);
    lemma_joined_push(n7, "exit_ask"@);
    lemma_joined_push(n8, "entry_spread_bps"@);
    lemma_joined_push(n9, "exit_spread_bps"@);
    lemma_joined_push(n10, "gross_cross_bps"@);
    lemma_joined_push(n11, "fees_bps"@);
    lemma_joined_push(n12, "net_cross_bps"@);
    lemma_joined_push(n13, "estimated_pnl_usdt"@);
    lemma_joined_push(n14, "binance_move_bps"@);
    lemma_joined_push(n15, "mexc_move_bps"@);
    reveal_strlit(
        "utc,symbol,direction,lag_ms,entry_bid,entry_ask,exit_bid,exit_ask,entry_spread_bps,exit_spread_bps,gross_cross_bps,fees_bps,net_cross_bps,estimated_pnl_usdt,binance_move_bps,mexc_move_bps",
    );
    assert(slippage_header() =~= joined(n16, seq![',']));
    assert(n16 =~= seq![
        "utc"@,
        "symbol"@,
        "direction"@,
        "lag_ms"@,
        "entry_bid"@,
        "entry_ask"@,
        "exit_bid"@,
        "exit_ask"@,
        "entry_spread_bps"@,
        "exit_spread_bps"@,
        "gross_cross_bps"@,
        "fees_bps"@,
        "net_cross_bps"@,
        "estimated_pnl_usdt"@,
        "binance_move_bps"@,
        "mexc_move_bps"@,
    ]);
}

/// Each value of the estimate of a trade stands in its file under its name.
#[verifier::rlimit(60)]
pub proof fn estimates_stand_under_their_names(r: LagRecord, s: Slippage, utc: Seq<char>)
    ensures
        slippage_values(r, s, utc) == values(slippage_columns(r, s, utc)),
        slippage_header() == joined(names(slippage_columns(r, s, utc)), seq![',']),
{
    reveal_strlit("up");
    reveal_strlit("down");
    assert("up"@ =~= seq!['u', 'p']);
    assert("down"@ =~= seq!['d', 'o', 'w', 'n']);
    assert(direction_text(r.direction) == way(r.direction));
    let columns = slippage_columns(r, s, utc);
    assert(columns.len() == 16);
    assert(slippage_values(r, s, utc) =~= values(columns));
    lemma_slippage_header();
    assert(names(columns) =~= seq![
        "utc"@,
        "symbol"@,
        "direction"@,
        "lag_ms"@,
        "entry_bid"@,
        "entry_ask"@,
        "exit_bid"@,
        "exit_ask"@,
        "entry_spread_bps"@,
        "exit_spread_bps"@,
        "gross_cross_bps"@,
        "fees_bps"@,
        "net_cross_bps"@,
        "estimated_pnl_usdt"@,
        "binance_move_bps"@,
        "mexc_move_bps"@,
    ]);
}

/// The text of the middle of a quote, and nothing where there is no quote.
pub open spec fn writes_middle(quote: Option<QuoteUpdate>, text: Seq<char>) -> bool {
    match quote {
        Some(q) => exists|mid: Decimal| #[trigger] is_middle(q, mid) && text == decimal_text(mid),
        None => text == Seq::<char>::empty(),
    }
}

/// The text of the age of a quote, and nothing where there is no quote.
pub open spec fn age_shown(quote: Option<QuoteUpdate>, now: int) -> Seq<char> {
    match quote {
        Some(q) => int_text(now - q.recv_ts_ms),
        None => Seq::empty(),
    }
}

/// The columns of the file of the statistics.
pub open spec fn stats_columns(
    symbol: Seq<char>,
    state: SymbolState,
    t: Tally,
    average: Seq<char>,
    utc: Seq<char>,
    now: int,
    binance_mid: Seq<char>,
    mexc_mid: Seq<char>,
) -> Seq<(Seq<char>, Seq<char>)> {
    let any = t.lags.len() > 0;
    let s = summary_of(t.lags)->0;
    let none = Seq::<char>::empty();
    seq![
        ("utc"@, utc),
        ("symbol"@, symbol),
        ("binance_quotes"@, digits(t.binance_quotes as nat)),
        ("mexc_quotes"@, digits(t.mexc_quotes as nat)),
        ("impulses"@, digits(t.impulses as nat)),
        ("matched"@, digits(t.matched as nat)),
        ("expired"@, digits(t.expired as nat)),
        ("avg_lag_ms"@, if any { average } else { none }),
        ("p50_lag_ms"@, if any { int_text(s.p50 as int) } else { none }),
        ("p95_lag_ms"@, if any { int_text(s.p95 as int) } else { none }),
        ("min_lag_ms"@, if any { int_text(s.min as int) } else { none }),
        ("max_lag_ms"@, if any { int_text(s.max as int) } else { none }),
        ("binance_mid"@, binance_mid),
        ("mexc_mid"@, mexc_mid),
        ("binance_age_ms"@, age_shown(state.last_binance, now)),
        ("mexc_age_ms"@, age_shown(state.last_mexc, now)),
        (
            "pending"@,
            if state.pending is Some {
                seq!['t', 'r', 'u', 'e']
            } else {
                seq!['f', 'a', 'l', 's', 'e']
            },
        ),
    ]
}

#[verifier::rlimit(60)]
proof fn lemma_stats_header()
    ensures
        stats_header() == joined(
            seq![
                "utc"@,
                "symbol"@,
                "binance_quotes"@,
                "mexc_quotes"@,
                "impulses"@,
                "matched"@,
                "expired"@,
                "avg_lag_ms"@,
                "p50_lag_ms"@,
                "p95_lag_ms"@,
                "min_lag_ms"@,
                "max_lag_ms"@,
                "binance_mid"@,
                "mexc_mid"@,
                "binance_age_ms"@,
                "mexc_age_ms"@,
                "pending"@,
            ],
            seq![','],
        ),
{
    reveal_strlit("utc");
    reveal_strlit("symbol");
    reveal_strlit("binance_quotes");
    reveal_strlit("mexc_quotes");
    reveal_strlit("impulses");
    reveal_strlit("matched");
    reveal_strlit("expired");
    reveal_strlit("avg_lag_ms");
    reveal_strlit("p50_lag_ms");
    reveal_strlit("p95_lag_ms");
    reveal_strlit("min_lag_ms");
    reveal_strlit("max_lag_ms");
    reveal_strlit("binance_mid");
    reveal_strlit("mexc_mid");
    reveal_strlit("binance_age_ms");
    reveal_strlit("mexc_age_ms");
    reveal_strlit("pending");
    let n1 = seq!["utc"@];
    let n2 = n1.push("symbol"@);
    let n3 = n2.push("binance_quotes"@);
    let n4 = n3.push("mexc_quotes"@);
    let n5 = n4.push("impulses"@);
    let n6 = n5.push("matched"@);
    let n7 = n6.push("expired"@);
    let n8 = n7.push("avg_lag_ms"@);
    let n9 = n8.push("p50_lag_ms"@);
    let n10 = n9.push("p95_lag_ms"@);
    let n11 = n10.push("min_lag_ms"@);
    let n12 = n11.push("max_lag_ms"@);
    let n13 = n12.push("binance_mid"@);
    let n14 = n13.push("mexc_mid"@);
    let n15 = n14.push("binance_age_ms"@);
    let n16 = n15.push("mexc_age_ms"@);
    let n17 = n16.push("pending"@);
    lemma_joined_push(n1, "symbol"@);
    lemma_joined_push(n2, "binance_quotes"@);
    lemma_joined_push(n3, "mexc_quotes"@);
    lemma_joined_push(n4, "impulses"@);
    lemma_joined_push(n5, "matched"@);
    lemma_joined_push(n6, "expired"@);
    lemma_joined_push(n7, "avg_lag_ms"@);
    lemma_joined_push(n8, "p50_lag_ms"@);
    lemma_joined_push(n9, "p95_lag_ms"@);
    lemma_joined_push(n10, "min_lag_ms"@);
    lemma_joined_push(n11, "max_lag_ms"@);
    lemma_joined_push(n12, "binance_mid"@);
    lemma_joined_push(n13, "mexc_mid"@);
    lemma_joined_push(n14, "binance_age_ms"@);
    lemma_joined_push(n15, "mexc_age_ms"@);
    lemma_joined_push(n16, "pending"@);
    reveal_strlit(
        "utc,symbol,binance_quotes,mexc_quotes,impulses,matched,expired,avg_lag_ms,p50_lag_ms,p95_lag_ms,min_lag_ms,max_lag_ms,binance_mid,mexc_mid,binance_age_ms,mexc_age_ms,pending",
    );
    assert(stats_header() =~= joined(n17, seq![',']));
    assert(n17 =~= seq![
        "utc"@,
        "symbol"@,
        "binance_quotes"@,
        "mexc_quotes"@,
        "impulses"@,
        "matched"@,
        "expired"@,
        "avg_lag_ms"@,
        "p50_lag_ms"@,
        "p95_lag_ms"@,
        "min_lag_ms"@,
        "max_lag_ms"@,
        "binance_mid"@,
        "mexc_mid"@,
        "binance_age_ms"@,
        "mexc_age_ms"@,
        "pending"@,
    ]);
}

/// Each value of the statistics of a symbol stands in their file under its name. What is not known
/// yet is left empty.
pub proof fn statistics_stand_under_their_names(
    symbol: Seq<char>,
    state: SymbolState,
    t: Tally,
    average: Seq<char>,
    utc: Seq<char>,
    now: int,
    line: Seq<Seq<char>>,
)
    requires
        stats_values(symbol, Some(state), t, average, utc, now) == Ok::<_, Overflow>(line),
    ensures
        line.len() == 17,
        writes_middle(state.last_binance, line[12]),
        writes_middle(state.last_mexc, line[13]),
        line == values(
            stats_columns(symbol, state, t, average, utc, now, line[12], line[13]),
        ),
        stats_header() == joined(
            names(stats_columns(symbol, state, t, average, utc, now, line[12], line[13])),
            seq![','],
        ),
{
    if let Some(q) = state.last_binance {
        measures_mean_what_they_say(q, q.bid, q.ask);
        assert(is_middle(q, q.mid_spec()->0));
    }
    if let Some(q) = state.last_mexc {
        measures_mean_what_they_say(q, q.bid, q.ask);
        assert(is_middle(q, q.mid_spec()->0));
    }
    reveal_strlit("true");
    reveal_strlit("false");
    assert("true"@ =~= seq!['t', 'r', 'u', 'e']);
    assert("false"@ =~= seq!['f', 'a', 'l', 's', 'e']);
    let columns = stats_columns(symbol, state, t, average, utc, now, line[12], line[13]);
    assert(line =~= values(columns));
    lemma_stats_header();
    assert(names(columns) =~= seq![
        "utc"@,
        "symbol"@,
        "binance_quotes"@,
        "mexc_quotes"@,
        "impulses"@,
        "matched"@,
        "expired"@,
        "avg_lag_ms"@,
        "p50_lag_ms"@,
        "p95_lag_ms"@,
        "min_lag_ms"@,
        "max_lag_ms"@,
        "binance_mid"@,
        "mexc_mid"@,
        "binance_age_ms"@,
        "mexc_age_ms"@,
        "pending"@,
    ]);
}

/// A symbol of which nothing is known yet has a line with its counts alone.
pub proof fn unknown_symbols_have_empty_columns(
    symbol: Seq<char>,
    t: Tally,
    average: Seq<char>,
    utc: Seq<char>,
    now: int,
    line: Seq<Seq<char>>,
)
    requires
        stats_values(symbol, None, t, average, utc, now) == Ok::<_, Overflow>(line),
    ensures
        line.len() == 17,
        line[0] == utc && line[1] == symbol,
        forall|i: int| 12 <= i < 16 ==> (#[trigger] line[i]).len() == 0,
        line[16] == "false"@,
        t.lags.len() == 0 ==> forall|i: int| 7 <= i < 12 ==> (#[trigger] line[i]).len() == 0,
{
}

} // verus!
