//! What the subscribers read, and what the dashboard and the screen show.

use vstd::prelude::*;

use crate::alert::{notice_text, Gap, Notice};
use crate::config::{Config, LiveConfig};
use crate::decimal::{
    decimal_difference, decimal_quotient, decimal_sum, decimal_text, Decimal, Overflow,
};
use crate::laws::measures::{is_middle, is_share, measures_mean_what_they_say};
use crate::laws::objects::{labelled, lemma_first_label, lemma_label_follows};
use crate::quotes::QuoteUpdate;
use crate::report::{
    cells_of, file_overflow, heads, in_file, mids_overflow, on_screen, row_of, shows, state_of,
    stats_values, table_line, thresholds_line, title_line,
    DashboardSnapshot, RowView,
};
use crate::state::{ActiveDiffAlert, Side, SymbolState};
use crate::stats::{summary_line, summary_of, Direction, LastTradeEstimate, Stats, Tally};
use crate::text::{digits, int_text, joined, padded_left, padded_right};

verus! {

/// Where MEXC quotes, in words.
pub open spec fn side_in_words(side: Side) -> Seq<char> {
    if side == Side::Above {
        "MEXC выше Binance"@
    } else {
        "MEXC ниже Binance"@
    }
}

/// What is told of a difference that pays has each number behind its name.
pub proof fn valuable_differences_are_told(
    active: ActiveDiffAlert,
    gap: Gap,
    duration_ms: i64,
    mexc_bid: Decimal,
    mexc_ask: Decimal,
    threshold_bps: Decimal,
    symbol: Seq<char>,
    secs: Seq<char>,
)
    ensures
        notice_text(
            Notice::Valuable { active, gap, duration_ms, mexc_bid, mexc_ask, threshold_bps },
            symbol,
            secs,
        ) == labelled(
            seq![
                ("💎 Ценная разница "@, symbol),
                ("\n"@, side_in_words(active.side)),
                ("\nДержится: "@, secs),
                (" сек\nBinance mid: "@, decimal_text(gap.b_mid.rounded(6))),
                ("\nMEXC mid: "@, decimal_text(gap.m_mid.rounded(6))),
                ("\nMEXC bid/ask: "@, decimal_text(mexc_bid.rounded(8))),
                (" / "@, decimal_text(mexc_ask.rounded(8))),
                ("\nРазница сейчас: "@, decimal_text(gap.diff_usdt.rounded(6))),
                (" USDT / "@, decimal_text(decimal_quotient(gap.diff_bps, Decimal::made(100, 0))->0.rounded(4))),
                ("% ("@, decimal_text(gap.diff_bps.rounded(3))),
                (" bps)\nПорог: "@, decimal_text(decimal_quotient(threshold_bps, Decimal::made(100, 0))->0.rounded(4))),
                ("%\nСпред MEXC: "@, decimal_text(gap.edge.mexc_spread_bps.rounded(3))),
                (" bps\n0 fee edge старт/макс/сейчас: "@, decimal_text(active.start_edge_zero_fee_bps.rounded(3))),
                (" / "@, decimal_text(active.max_edge_zero_fee_bps.rounded(3))),
                (" / "@, decimal_text(gap.edge.edge_zero_fee_bps.rounded(3))),
                (" bps\nPnL 0 fee сейчас: "@, decimal_text(gap.edge.pnl_zero_fee_usdt.rounded(4))),
                (" USDT"@, Seq::empty()),
            ],
        ),
{
    let p1 = seq![("💎 Ценная разница "@, symbol)];
    lemma_first_label("💎 Ценная разница "@, symbol);
    lemma_label_follows(p1, "\n"@, side_in_words(active.side));
    let p2 = p1.push(("\n"@, side_in_words(active.side)));
    lemma_label_follows(p2, "\nДержится: "@, secs);
    let p3 = p2.push(("\nДержится: "@, secs));
    lemma_label_follows(p3, " сек\nBinance mid: "@, decimal_text(gap.b_mid.rounded(6)));
    let p4 = p3.push((" сек\nBinance mid: "@, decimal_text(gap.b_mid.rounded(6))));
    lemma_label_follows(p4, "\nMEXC mid: "@, decimal_text(gap.m_mid.rounded(6)));
    let p5 = p4.push(("\nMEXC mid: "@, decimal_text(gap.m_mid.rounded(6))));
    lemma_label_follows(p5, "\nMEXC bid/ask: "@, decimal_text(mexc_bid.rounded(8)));
    let p6 = p5.push(("\nMEXC bid/ask: "@, decimal_text(mexc_bid.rounded(8))));
    lemma_label_follows(p6, " / "@, decimal_text(mexc_ask.rounded(8)));
    let p7 = p6.push((" / "@, decimal_text(mexc_ask.rounded(8))));
    lemma_label_follows(p7, "\nРазница сейчас: "@, decimal_text(gap.diff_usdt.rounded(6)));
    let p8 = p7.push(("\nРазница сейчас: "@, decimal_text(gap.diff_usdt.rounded(6))));
    lemma_label_follows(p8, " USDT / "@, decimal_text(decimal_quotient(gap.diff_bps, Decimal::made(100, 0))->0.rounded(4)));
    let p9 = p8.push((" USDT / "@, decimal_text(decimal_quotient(gap.diff_bps, Decimal::made(100, 0))->0.rounded(4))));
    lemma_label_follows(p9, "% ("@, decimal_text(gap.diff_bps.rounded(3)));
    let p10 = p9.push(("% ("@, decimal_text(gap.diff_bps.rounded(3))));
    lemma_label_follows(p10, " bps)\nПорог: "@, decimal_text(decimal_quotient(threshold_bps, Decimal::made(100, 0))->0.rounded(4)));
    let p11 = p10.push((" bps)\nПорог: "@, decimal_text(decimal_quotient(threshold_bps, Decimal::made(100, 0))->0.rounded(4))));
    lemma_label_follows(p11, "%\nСпред MEXC: "@, decimal_text(gap.edge.mexc_spread_bps.rounded(3)));
    let p12 = p11.push(("%\nСпред MEXC: "@, decimal_text(gap.edge.mexc_spread_bps.rounded(3))));
    lemma_label_follows(p12, " bps\n0 fee edge старт/макс/сейчас: "@, decimal_text(active.start_edge_zero_fee_bps.rounded(3)));
    let p13 = p12.push((" bps\n0 fee edge старт/макс/сейчас: "@, decimal_text(active.start_edge_zero_fee_bps.rounded(3))));
    lemma_label_follows(p13, " / "@, decimal_text(active.max_edge_zero_fee_bps.rounded(3)));
    let p14 = p13.push((" / "@, decimal_text(active.max_edge_zero_fee_bps.rounded(3))));
    lemma_label_follows(p14, " / "@, decimal_text(gap.edge.edge_zero_fee_bps.rounded(3)));
    let p15 = p14.push((" / "@, decimal_text(gap.edge.edge_zero_fee_bps.rounded(3))));
    lemma_label_follows(p15, " bps\nPnL 0 fee сейчас: "@, decimal_text(gap.edge.pnl_zero_fee_usdt.rounded(4)));
    let p16 = p15.push((" bps\nPnL 0 fee сейчас: "@, decimal_text(gap.edge.pnl_zero_fee_usdt.rounded(4))));
    lemma_label_follows(p16, " USDT"@, Seq::empty());
    let p17 = p16.push((" USDT"@, Seq::empty()));
    assert(p17 =~= seq![
        ("💎 Ценная разница "@, symbol),
        ("\n"@, side_in_words(active.side)),
        ("\nДержится: "@, secs),
        (" сек\nBinance mid: "@, decimal_text(gap.b_mid.rounded(6))),
        ("\nMEXC mid: "@, decimal_text(gap.m_mid.rounded(6))),
        ("\nMEXC bid/ask: "@, decimal_text(mexc_bid.rounded(8))),
        (" / "@, decimal_text(mexc_ask.rounded(8))),
        ("\nРазница сейчас: "@, decimal_text(gap.diff_usdt.rounded(6))),
        (" USDT / "@, decimal_text(decimal_quotient(gap.diff_bps, Decimal::made(100, 0))->0.rounded(4))),
        ("% ("@, decimal_text(gap.diff_bps.rounded(3))),
        (" bps)\nПорог: "@, decimal_text(decimal_quotient(threshold_bps, Decimal::made(100, 0))->0.rounded(4))),
        ("%\nСпред MEXC: "@, decimal_text(gap.edge.mexc_spread_bps.rounded(3))),
        (" bps\n0 fee edge старт/макс/сейчас: "@, decimal_text(active.start_edge_zero_fee_bps.rounded(3))),
        (" / "@, decimal_text(active.max_edge_zero_fee_bps.rounded(3))),
        (" / "@, decimal_text(gap.edge.edge_zero_fee_bps.rounded(3))),
        (" bps\nPnL 0 fee сейчас: "@, decimal_text(gap.edge.pnl_zero_fee_usdt.rounded(4))),
        (" USDT"@, Seq::empty()),
    ]);
    assert(notice_text(
            Notice::Valuable { active, gap, duration_ms, mexc_bid, mexc_ask, threshold_bps },
            symbol,
            secs,
        ) =~= labelled(p17));
}

/// What is told of a difference that is gone has each number behind its name.
pub proof fn closed_differences_are_told(
    active: ActiveDiffAlert,
    gap: Gap,
    duration_ms: i64,
    symbol: Seq<char>,
    secs: Seq<char>,
)
    ensures
        notice_text(Notice::Closed { active, gap, duration_ms }, symbol, secs) == labelled(
            seq![
                ("Разница закрылась "@, symbol),
                ("\nНаправление: "@, side_in_words(active.side)),
                ("\nДержалась: "@, secs),
                (" сек\nСтарт: "@, decimal_text(active.start_diff_usdt.rounded(6))),
                (" USDT / "@, decimal_text(decimal_quotient(active.start_diff_bps, Decimal::made(100, 0))->0.rounded(4))),
                ("% ("@, decimal_text(active.start_diff_bps.rounded(3))),
                (" bps)\nМакс: "@, decimal_text(decimal_quotient(active.max_abs_diff_bps, Decimal::made(100, 0))->0.rounded(4))),
                ("% ("@, decimal_text(active.max_abs_diff_bps.rounded(3))),
                (" bps)\nФинал: "@, decimal_text(gap.diff_usdt.rounded(6))),
                (" USDT / "@, decimal_text(decimal_quotient(gap.diff_bps, Decimal::made(100, 0))->0.rounded(4))),
                ("% ("@, decimal_text(gap.diff_bps.rounded(3))),
                (" bps)\nСпред MEXC сейчас: "@, decimal_text(gap.edge.mexc_spread_bps.rounded(3))),
                (" bps\nОценка 0 fee старт/макс/финал: "@, decimal_text(active.start_edge_zero_fee_bps.rounded(3))),
                (" / "@, decimal_text(active.max_edge_zero_fee_bps.rounded(3))),
                (" / "@, decimal_text(gap.edge.edge_zero_fee_bps.rounded(3))),
                (" bps\nPnL 0 fee финал: "@, decimal_text(gap.edge.pnl_zero_fee_usdt.rounded(4))),
                (" USDT"@, Seq::empty()),
            ],
        ),
{
    let p1 = seq![("Разница закрылась "@, symbol)];
    lemma_first_label("Разница закрылась "@, symbol);
    lemma_label_follows(p1, "\nНаправление: "@, side_in_words(active.side));
    let p2 = p1.push(("\nНаправление: "@, side_in_words(active.side)));
    lemma_label_follows(p2, "\nДержалась: "@, secs);
    let p3 = p2.push(("\nДержалась: "@, secs));
    lemma_label_follows(p3, " сек\nСтарт: "@, decimal_text(active.start_diff_usdt.rounded(6)));
    let p4 = p3.push((" сек\nСтарт: "@, decimal_text(active.start_diff_usdt.rounded(6))));
    lemma_label_follows(p4, " USDT / "@, decimal_text(decimal_quotient(active.start_diff_bps, Decimal::made(100, 0))->0.rounded(4)));
    let p5 = p4.push((" USDT / "@, decimal_text(decimal_quotient(active.start_diff_bps, Decimal::made(100, 0))->0.rounded(4))));
    lemma_label_follows(p5, "% ("@, decimal_text(active.start_diff_bps.rounded(3)));
    let p6 = p5.push(("% ("@, decimal_text(active.start_diff_bps.rounded(3))));
    lemma_label_follows(p6, " bps)\nМакс: "@, decimal_text(decimal_quotient(active.max_abs_diff_bps, Decimal::made(100, 0))->0.rounded(4)));
    let p7 = p6.push((" bps)\nМакс: "@, decimal_text(decimal_quotient(active.max_abs_diff_bps, Decimal::made(100, 0))->0.rounded(4))));
    lemma_label_follows(p7, "% ("@, decimal_text(active.max_abs_diff_bps.rounded(3)));
    let p8 = p7.push(("% ("@, decimal_text(active.max_abs_diff_bps.rounded(3))));
    lemma_label_follows(p8, " bps)\nФинал: "@, decimal_text(gap.diff_usdt.rounded(6)));
    let p9 = p8.push((" bps)\nФинал: "@, decimal_text(gap.diff_usdt.rounded(6))));
    lemma_label_follows(p9, " USDT / "@, decimal_text(decimal_quotient(gap.diff_bps, Decimal::made(100, 0))->0.rounded(4)));
    let p10 = p9.push((" USDT / "@, decimal_text(decimal_quotient(gap.diff_bps, Decimal::made(100, 0))->0.rounded(4))));
    lemma_label_follows(p10, "% ("@, decimal_text(gap.diff_bps.rounded(3)));
    let p11 = p10.push(("% ("@, decimal_text(gap.diff_bps.rounded(3))));
    lemma_label_follows(p11, " bps)\nСпред MEXC сейчас: "@, decimal_text(gap.edge.mexc_spread_bps.rounded(3)));
    let p12 = p11.push((" bps)\nСпред MEXC сейчас: "@, decimal_text(gap.edge.mexc_spread_bps.rounded(3))));
    lemma_label_follows(p12, " bps\nОценка 0 fee старт/макс/финал: "@, decimal_text(active.start_edge_zero_fee_bps.rounded(3)));
    let p13 = p12.push((" bps\nОценка 0 fee старт/макс/финал: "@, decimal_text(active.start_edge_zero_fee_bps.rounded(3))));
    lemma_label_follows(p13, " / "@, decimal_text(active.max_edge_zero_fee_bps.rounded(3)));
    let p14 = p13.push((" / "@, decimal_text(active.max_edge_zero_fee_bps.rounded(3))));
    lemma_label_follows(p14, " / "@, decimal_text(gap.edge.edge_zero_fee_bps.rounded(3)));
    let p15 = p14.push((" / "@, decimal_text(gap.edge.edge_zero_fee_bps.rounded(3))));
    lemma_label_follows(p15, " bps\nPnL 0 fee финал: "@, decimal_text(gap.edge.pnl_zero_fee_usdt.rounded(4)));
    let p16 = p15.push((" bps\nPnL 0 fee финал: "@, decimal_text(gap.edge.pnl_zero_fee_usdt.rounded(4))));
    lemma_label_follows(p16, " USDT"@, Seq::empty());
    let p17 = p16.push((" USDT"@, Seq::empty()));
    assert(p17 =~= seq![
        ("Разница закрылась "@, symbol),
        ("\nНаправление: "@, side_in_words(active.side)),
        ("\nДержалась: "@, secs),
        (" сек\nСтарт: "@, decimal_text(active.start_diff_usdt.rounded(6))),
        (" USDT / "@, decimal_text(decimal_quotient(active.start_diff_bps, Decimal::made(100, 0))->0.rounded(4))),
        ("% ("@, decimal_text(active.start_diff_bps.rounded(3))),
        (" bps)\nМакс: "@, decimal_text(decimal_quotient(active.max_abs_diff_bps, Decimal::made(100, 0))->0.rounded(4))),
        ("% ("@, decimal_text(active.max_abs_diff_bps.rounded(3))),
        (" bps)\nФинал: "@, decimal_text(gap.diff_usdt.rounded(6))),
        (" USDT / "@, decimal_text(decimal_quotient(gap.diff_bps, Decimal::made(100, 0))->0.rounded(4))),
        ("% ("@, decimal_text(gap.diff_bps.rounded(3))),
        (" bps)\nСпред MEXC сейчас: "@, decimal_text(gap.edge.mexc_spread_bps.rounded(3))),
        (" bps\nОценка 0 fee старт/макс/финал: "@, decimal_text(active.start_edge_zero_fee_bps.rounded(3))),
        (" / "@, decimal_text(active.max_edge_zero_fee_bps.rounded(3))),
        (" / "@, decimal_text(gap.edge.edge_zero_fee_bps.rounded(3))),
        (" bps\nPnL 0 fee финал: "@, decimal_text(gap.edge.pnl_zero_fee_usdt.rounded(4))),
        (" USDT"@, Seq::empty()),
    ]);
    assert(notice_text(Notice::Closed { active, gap, duration_ms }, symbol, secs) =~= labelled(p17));
}

/// The thresholds on the screen are those that are set, each behind its name.
pub proof fn thresholds_are_shown(config: Config, live: LiveConfig)
    ensures
        thresholds_line(config, live) == labelled(
            seq![
                ("thresholds: impulse>="@, decimal_text(live.impulse_bps)),
                ("bps confirm>="@, decimal_text(live.confirm_bps)),
                ("bps max_lag="@, int_text(live.max_lag_ms as int)),
                ("ms window="@, int_text(config.impulse_window_ms as int)),
                ("ms"@, Seq::empty()),
            ],
        ),
{
    let p1 = seq![("thresholds: impulse>="@, decimal_text(live.impulse_bps))];
    lemma_first_label("thresholds: impulse>="@, decimal_text(live.impulse_bps));
    lemma_label_follows(p1, "bps confirm>="@, decimal_text(live.confirm_bps));
    let p2 = p1.push(("bps confirm>="@, decimal_text(live.confirm_bps)));
    lemma_label_follows(p2, "bps max_lag="@, int_text(live.max_lag_ms as int));
    let p3 = p2.push(("bps max_lag="@, int_text(live.max_lag_ms as int)));
    lemma_label_follows(p3, "ms window="@, int_text(config.impulse_window_ms as int));
    let p4 = p3.push(("ms window="@, int_text(config.impulse_window_ms as int)));
    lemma_label_follows(p4, "ms"@, Seq::empty());
    let p5 = p4.push(("ms"@, Seq::empty()));
    assert(p5 =~= seq![
        ("thresholds: impulse>="@, decimal_text(live.impulse_bps)),
        ("bps confirm>="@, decimal_text(live.confirm_bps)),
        ("bps max_lag="@, int_text(live.max_lag_ms as int)),
        ("ms window="@, int_text(config.impulse_window_ms as int)),
        ("ms"@, Seq::empty()),
    ]);
    assert(thresholds_line(config, live) =~= labelled(p5));
}

/// The title of the screen has the time and the count of the symbols.
pub proof fn title_shows_the_time(utc: Seq<char>, count: nat)
    ensures
        title_line(utc, count) == labelled(
            seq![
                ("=== MEXC LAG MONITOR "@, utc),
                (" | symbols="@, digits(count)),
                (" ==="@, Seq::empty()),
            ],
        ),
{
    let p1 = seq![("=== MEXC LAG MONITOR "@, utc)];
    lemma_first_label("=== MEXC LAG MONITOR "@, utc);
    lemma_label_follows(p1, " | symbols="@, digits(count));
    let p2 = p1.push((" | symbols="@, digits(count)));
    lemma_label_follows(p2, " ==="@, Seq::empty());
    let p3 = p2.push((" ==="@, Seq::empty()));
    assert(p3 =~= seq![
        ("=== MEXC LAG MONITOR "@, utc),
        (" | symbols="@, digits(count)),
        (" ==="@, Seq::empty()),
    ]);
    assert(title_line(utc, count) =~= labelled(p3));
}

/// A text of a middle with at most `places` digits behind the point, where there is a quote.
pub open spec fn shows_middle(
    quote: Option<QuoteUpdate>,
    places: nat,
    text: Option<Seq<char>>,
) -> bool {
    match quote {
        Some(q) => exists|mid: Decimal| #[trigger]
            is_middle(q, mid) && text == Some(decimal_text(mid.rounded(places))),
        None => text is None,
    }
}

/// A direction as it is shown.
pub open spec fn way_shown(direction: Direction) -> Seq<char> {
    if direction == Direction::Up {
        seq!['U', 'P']
    } else {
        seq!['D', 'O', 'W', 'N']
    }
}

proof fn lemma_ways()
    ensures
        crate::report::direction_shown(Direction::Up) == way_shown(Direction::Up),
        crate::report::direction_shown(Direction::Down) == way_shown(Direction::Down),
{
    reveal_strlit("UP");
    reveal_strlit("DOWN");
    assert("UP"@ =~= seq!['U', 'P']);
    assert("DOWN"@ =~= seq!['D', 'O', 'W', 'N']);
}

proof fn lemma_middle_shown(quote: Option<QuoteUpdate>, places: nat)
    ensures
        crate::report::mid_in(quote) matches Ok(mid) ==> shows_middle(
            quote,
            places,
            crate::report::shown_if(mid, places),
        ),
{
    if let Some(q) = quote {
        measures_mean_what_they_say(q, q.bid, q.ask);
        if q.mid_spec() is Some {
            assert(is_middle(q, q.mid_spec()->0));
        }
    }
}

/// A row of the dashboard shows what was counted of its symbol, the middles of its last quotes and
/// their difference, the pending move, and the last estimate with and without fees, each in its
/// place.
pub proof fn rows_show_what_is_known(
    symbol: Seq<char>,
    state: SymbolState,
    t: Tally,
    estimate: Option<LastTradeEstimate>,
    row: RowView,
)
    requires
        row_of(symbol, Some(state), t, estimate) == Ok::<_, Overflow>(row),
    ensures
        row.symbol == symbol,
        row.binance_quotes == t.binance_quotes,
        row.mexc_quotes == t.mexc_quotes,
        row.impulses == t.impulses,
        row.matched == t.matched,
        row.expired == t.expired,
        row.lag == summary_of(t.lags),
        shows_middle(state.last_binance, 6, row.binance_mid),
        shows_middle(state.last_mexc, 6, row.mexc_mid),
        row.pending == (match state.pending {
            Some(p) => Some(way_shown(p.direction)),
            None => None,
        }),
        estimate is None ==> row.last_direction is None && row.last_lag_ms is None
            && row.gross_bps is None && row.net_fee_bps is None && row.net_zero_fee_bps is None
            && row.pnl_fee_usdt is None && row.pnl_zero_fee_usdt is None,
        estimate matches Some(e) ==> row.last_direction == Some(way_shown(e.direction))
            && row.last_lag_ms == Some(e.lag_ms) && row.gross_bps == Some(
            decimal_text(e.gross_cross_bps.rounded(3)),
        ) && row.net_fee_bps == Some(decimal_text(e.net_fee_bps.rounded(3)))
            && row.net_zero_fee_bps == Some(decimal_text(e.net_zero_fee_bps.rounded(3)))
            && row.pnl_fee_usdt == Some(decimal_text(e.pnl_fee_usdt.rounded(4)))
            && row.pnl_zero_fee_usdt == Some(decimal_text(e.pnl_zero_fee_usdt.rounded(4))),
        state.last_binance is None || state.last_mexc is None ==> row.price_diff_usdt is None
            && row.price_diff_bps is None,
        state.last_binance matches Some(b) ==> (state.last_mexc matches Some(m) ==> exists|
            b_mid: Decimal,
            m_mid: Decimal,
        |
            #![trigger is_middle(b, b_mid), is_middle(m, m_mid)]
            is_middle(b, b_mid) && is_middle(m, m_mid) && shows_difference(row, b_mid, m_mid)),
{
    lemma_ways();
    lemma_middle_shown(state.last_binance, 6);
    lemma_middle_shown(state.last_mexc, 6);
    if state.last_binance is Some && state.last_mexc is Some {
        let (b, m) = (state.last_binance->0, state.last_mexc->0);
        measures_mean_what_they_say(b, b.bid, b.ask);
        measures_mean_what_they_say(m, m.bid, m.ask);
        let (b_mid, m_mid) = (b.mid_spec()->0, m.mid_spec()->0);
        assert(is_middle(b, b_mid) && is_middle(m, m_mid));
        let d = decimal_difference(m_mid, b_mid)->0;
        measures_mean_what_they_say(b, d, b_mid);
        if b_mid.mantissa_spec() > 0 {
            assert(is_share(d, b_mid, crate::quotes::in_bps(d, b_mid)->0));
        }
    }
}

/// Whether a row shows the difference of the middle at MEXC to the one at Binance, in money and in
/// ten thousandths of the latter.
pub open spec fn shows_difference(row: RowView, b_mid: Decimal, m_mid: Decimal) -> bool {
    decimal_difference(m_mid, b_mid) matches Some(d) && row.price_diff_usdt == Some(
        decimal_text(d.rounded(6)),
    ) && (if b_mid.mantissa_spec() > 0 {
        exists|share: Decimal| #[trigger]
            is_share(d, b_mid, share) && row.price_diff_bps == Some(
                decimal_text(share.rounded(3)),
            )
    } else {
        row.price_diff_bps is None
    })
}

/// The dashboard shows the thresholds that are set, the summary of all symbols, and one row for each
/// watched symbol in its turn, from what is known and was counted of that very symbol.
pub proof fn dashboard_shows_each_symbol(
    d: DashboardSnapshot,
    config: Config,
    live: LiveConfig,
    states: Map<Seq<char>, SymbolState>,
    stats: Stats,
    average: Seq<char>,
    i: int,
)
    requires
        shows(d, config, live, states, stats, average),
        0 <= i < config.symbols@.len(),
    ensures
        d.symbols@.len() == config.symbols@.len(),
        d.symbols@[i].symbol@ == config.symbols@[i]@,
        d.symbols@[i].matched == stats.of(config.symbols@[i]@).matched,
        states.contains_key(config.symbols@[i]@) ==> row_of(
            config.symbols@[i]@,
            Some(states[config.symbols@[i]@]),
            stats.of(config.symbols@[i]@),
            stats.estimate(config.symbols@[i]@),
        ) == Ok::<_, Overflow>(d.symbols@[i]@),
        !states.contains_key(config.symbols@[i]@) ==> d.symbols@[i]@.binance_mid is None
            && d.symbols@[i]@.mexc_mid is None && d.symbols@[i]@.pending is None,
        d.summary@ == summary_line(stats.total(), average),
        d.impulse_bps@ == decimal_text(live.impulse_bps),
        d.confirm_bps@ == decimal_text(live.confirm_bps),
        d.max_lag_ms == live.max_lag_ms,
{
    assert(Ok::<_, Overflow>(d.symbols@[i]@) == crate::report::row_in(
        states,
        stats,
        config.symbols@[i]@,
    ));
}

/// The direction of the pending move, and a dash where none is pending.
pub open spec fn pending_shown(state: SymbolState) -> Seq<char> {
    match state.pending {
        Some(p) => way_shown(p.direction),
        None => seq!['-'],
    }
}

/// The columns of the table on the screen.
pub open spec fn screen_columns(
    symbol: Seq<char>,
    state: SymbolState,
    t: Tally,
    average: Seq<char>,
    binance_mid: Seq<char>,
    mexc_mid: Seq<char>,
) -> Seq<(Seq<char>, Seq<char>)> {
    let any = t.lags.len() > 0;
    let s = summary_of(t.lags)->0;
    let dash = seq!['-'];
    seq![
        ("symbol"@, symbol),
        ("bnc_q"@, digits(t.binance_quotes as nat)),
        ("mexc_q"@, digits(t.mexc_quotes as nat)),
        ("imp"@, digits(t.impulses as nat)),
        ("match"@, digits(t.matched as nat)),
        ("exp"@, digits(t.expired as nat)),
        ("avg"@, if any { average } else { dash }),
        ("p50"@, if any { int_text(s.p50 as int) } else { dash }),
        ("p95"@, if any { int_text(s.p95 as int) } else { dash }),
        ("bnc_mid"@, binance_mid),
        ("mexc_mid"@, mexc_mid),
        ("pending"@, pending_shown(state)),
    ]
}

/// The text of a middle with four digits behind the point, and a dash where there is no quote.
pub open spec fn middle_or_dash(quote: Option<QuoteUpdate>, text: Seq<char>) -> bool {
    match quote {
        Some(q) => exists|mid: Decimal| #[trigger]
            is_middle(q, mid) && text == decimal_text(mid.rounded(4)),
        None => text == seq!['-'],
    }
}

/// The screen shows each value of a symbol under its head.
pub proof fn cells_stand_under_their_heads(
    symbol: Seq<char>,
    state: SymbolState,
    t: Tally,
    average: Seq<char>,
    cells: Seq<Seq<char>>,
)
    requires
        cells_of(symbol, Some(state), t, average) == Ok::<_, Overflow>(cells),
    ensures
        cells.len() == 12,
        middle_or_dash(state.last_binance, cells[9]),
        middle_or_dash(state.last_mexc, cells[10]),
        ({
            let columns = screen_columns(symbol, state, t, average, cells[9], cells[10]);
            &&& heads() == columns.map_values(|c: (Seq<char>, Seq<char>)| c.0)
            &&& cells == columns.map_values(|c: (Seq<char>, Seq<char>)| c.1)
        }),
{
    lemma_ways();
    lemma_middle_shown(state.last_binance, 4);
    lemma_middle_shown(state.last_mexc, 4);
    reveal_strlit("-");
    assert("-"@ =~= seq!['-']);
    let columns = screen_columns(symbol, state, t, average, cells[9], cells[10]);
    assert(heads() =~= columns.map_values(|c: (Seq<char>, Seq<char>)| c.0));
    assert(cells =~= columns.map_values(|c: (Seq<char>, Seq<char>)| c.1));
}

/// The screen shows the title, the summary, the thresholds and the heads, and one line for each
/// watched symbol in its turn, from what is known and was counted of that very symbol.
pub proof fn screen_shows_each_symbol(
    lines: Seq<Seq<char>>,
    config: Config,
    live: LiveConfig,
    states: Map<Seq<char>, SymbolState>,
    stats: Stats,
    average: Seq<char>,
    averages: Seq<Seq<char>>,
    utc: Seq<char>,
    i: int,
)
    requires
        on_screen(lines, config, live, states, stats, average, averages, utc),
        0 <= i < config.symbols@.len(),
        states.contains_key(config.symbols@[i]@),
    ensures
        lines.len() == config.symbols@.len() + 4,
        lines[0] == title_line(utc, config.symbols@.len()),
        lines[1] == summary_line(stats.total(), average),
        lines[2] == thresholds_line(config, live),
        lines[3] == table_line(heads()),
        cells_of(
            config.symbols@[i]@,
            Some(states[config.symbols@[i]@]),
            stats.of(config.symbols@[i]@),
            averages[i],
        ) matches Ok(cells) && lines[4 + i] == table_line(cells),
{
    assert(config.symbols@[i] == config.symbols@[i]);
}

/// The columns of the screen have fixed widths: the symbol stands at the left of twelve characters,
/// the counts and lags at the right of seven or eight, and the middles at the right of twelve.
pub proof fn columns_have_fixed_widths(cells: Seq<Seq<char>>)
    requires
        cells.len() == 12,
    ensures
        table_line(cells) == joined(
            seq![
                padded_left(cells[0], 12),
                padded_right(cells[1], 8),
                padded_right(cells[2], 8),
                padded_right(cells[3], 7),
                padded_right(cells[4], 7),
                padded_right(cells[5], 7),
                padded_right(cells[6], 8),
                padded_right(cells[7], 8),
                padded_right(cells[8], 8),
                padded_right(cells[9], 12),
                padded_right(cells[10], 12),
                padded_right(cells[11], 8),
            ],
            seq![' '],
        ),
{
    reveal_strlit(" ");
    assert(" "@ =~= seq![' ']);
    let columns = seq![
        padded_left(cells[0], 12),
        padded_right(cells[1], 8),
        padded_right(cells[2], 8),
        padded_right(cells[3], 7),
        padded_right(cells[4], 7),
        padded_right(cells[5], 7),
        padded_right(cells[6], 8),
        padded_right(cells[7], 8),
        padded_right(cells[8], 8),
        padded_right(cells[9], 12),
        padded_right(cells[10], 12),
        padded_right(cells[11], 8),
    ];
    assert(columns =~= Seq::new(
        cells.len(),
        |i: int|
            if i == 0 {
                padded_left(cells[0], 12)
            } else {
                padded_right(cells[i], crate::report::widths()[i - 1])
            },
    ));
}

/// Whether a quote has no middle that can be written down.
pub open spec fn too_large(quote: Option<QuoteUpdate>) -> bool {
    quote matches Some(q) && (decimal_sum(q.bid, q.ask) matches Some(both) ==> decimal_quotient(
        both,
        Decimal::made(2, 0),
    ) is None)
}

/// The screen cannot be shown exactly where a watched symbol has a quote without a middle. The file
/// of the statistics cannot be written there, nor where the age of a quote is too large.
pub proof fn only_large_numbers_are_not_shown(
    states: Map<Seq<char>, SymbolState>,
    symbols: Seq<Seq<char>>,
    now: int,
)
    ensures
        mids_overflow(states, symbols) <==> exists|i: int|
            0 <= i < symbols.len() && states.contains_key(#[trigger] symbols[i]) && (too_large(
                states[symbols[i]].last_binance,
            ) || too_large(states[symbols[i]].last_mexc)),
        mids_overflow(states, symbols) ==> file_overflow(states, symbols, now),
        file_overflow(states, symbols, now) && !mids_overflow(states, symbols) ==> exists|i: int|
            0 <= i < symbols.len() && states.contains_key(#[trigger] symbols[i]) && ((
            states[symbols[i]].last_binance matches Some(q) && !(i64::MIN <= now - q.recv_ts_ms
                <= i64::MAX)) || (states[symbols[i]].last_mexc matches Some(q) && !(i64::MIN <= now
                - q.recv_ts_ms <= i64::MAX))),
{
    if mids_overflow(states, symbols) {
        let i = choose|i: int|
            0 <= i < symbols.len() && (crate::report::mid_in(
                crate::report::binance_of(state_of(states, #[trigger] symbols[i])),
            ) is Err || crate::report::mid_in(
                crate::report::mexc_of(state_of(states, symbols[i])),
            ) is Err);
        assert(states.contains_key(symbols[i]));
    }
    if exists|i: int|
        0 <= i < symbols.len() && states.contains_key(#[trigger] symbols[i]) && (too_large(
            states[symbols[i]].last_binance,
        ) || too_large(states[symbols[i]].last_mexc)) {
        let i = choose|i: int|
            0 <= i < symbols.len() && states.contains_key(#[trigger] symbols[i]) && (too_large(
                states[symbols[i]].last_binance,
            ) || too_large(states[symbols[i]].last_mexc));
        assert(state_of(states, symbols[i]) == Some(states[symbols[i]]));
    }
    if file_overflow(states, symbols, now) && !mids_overflow(states, symbols) {
        let i = choose|i: int|
            #![trigger symbols[i]]
            0 <= i < symbols.len() && {
                let state = state_of(states, symbols[i]);
                ||| crate::report::mid_in(crate::report::binance_of(state)) is Err
                ||| crate::report::mid_in(crate::report::mexc_of(state)) is Err
                ||| crate::report::age_in(crate::report::binance_of(state), now) is Err
                ||| crate::report::age_in(crate::report::mexc_of(state), now) is Err
            };
        assert(states.contains_key(symbols[i]));
    }
}

/// A row of the dashboard cannot be shown only where a quote has no middle, or the difference of the
/// middles or its share is too large.
pub proof fn rows_fail_only_on_large_numbers(
    symbol: Seq<char>,
    state: SymbolState,
    t: Tally,
    estimate: Option<LastTradeEstimate>,
)
    ensures
        too_large(state.last_binance) || too_large(state.last_mexc) ==> row_of(
            symbol,
            Some(state),
            t,
            estimate,
        ) is Err,
        state.last_binance is None && !too_large(state.last_mexc) ==> row_of(
            symbol,
            Some(state),
            t,
            estimate,
        ) is Ok,
        state.last_mexc is None && !too_large(state.last_binance) ==> row_of(
            symbol,
            Some(state),
            t,
            estimate,
        ) is Ok,
        row_of(symbol, None, t, estimate) is Ok,
{
}

/// The file of the statistics gets one line for each watched symbol in its turn, from what is known
/// and was counted of that very symbol.
pub proof fn file_gets_a_line_for_each_symbol(
    lines: Seq<Seq<char>>,
    config: Config,
    states: Map<Seq<char>, SymbolState>,
    stats: Stats,
    averages: Seq<Seq<char>>,
    utc: Seq<char>,
    now: int,
    i: int,
)
    requires
        in_file(lines, config, states, stats, averages, utc, now),
        0 <= i < config.symbols@.len(),
    ensures
        lines.len() == config.symbols@.len(),
        stats_values(
            config.symbols@[i]@,
            if states.contains_key(config.symbols@[i]@) {
                Some(states[config.symbols@[i]@])
            } else {
                None
            },
            stats.of(config.symbols@[i]@),
            averages[i],
            utc,
            now,
        ) matches Ok(values) && lines[i] == joined(values, seq![',']),
{
    reveal_strlit(",");
    assert(","@ =~= seq![',']);
    assert(config.symbols@[i] == config.symbols@[i]);
}

} // verus!
