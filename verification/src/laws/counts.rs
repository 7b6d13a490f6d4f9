//! What is counted, and what sums it up.

use vstd::prelude::*;
use vstd::relations::{sorted_by, total_ordering};
use vstd::seq_lib::lemma_sorted_unique;

use crate::laws::objects::{labelled, lemma_first_label, lemma_label_follows};
use crate::quotes::Exchange;
use crate::stats::{
    ascending, lags_in_order, nothing, percentile, sum, summary_line, summary_of, sums_up, LagSummary,
    Tally,
};
use crate::text::{digits, int_text};

verus! {

/// Each event raises its own count by one, and leaves the others and the lags.
pub proof fn each_event_raises_its_count(t: Tally)
    ensures
        t.quoted(Exchange::Binance) == (Tally { binance_quotes: t.binance_quotes + 1, ..t }),
        t.quoted(Exchange::Mexc) == (Tally { mexc_quotes: t.mexc_quotes + 1, ..t }),
        t.moved() == (Tally { impulses: t.impulses + 1, ..t }),
        t.missed() == (Tally { expired: t.expired + 1, ..t }),
{
}

/// A move that was followed raises its count by one, and its lag is the last one that is kept. Until
/// the limit is passed, all lags are kept; and then the oldest go.
pub proof fn followed_moves_keep_their_lags(t: Tally, lag: i64, limit: nat, drop: nat)
    requires
        drop <= limit,
        t.lags.len() <= limit,
    ensures
        t.followed(lag, limit, drop).matched == t.matched + 1,
        t.followed(lag, limit, drop).binance_quotes == t.binance_quotes,
        t.followed(lag, limit, drop).mexc_quotes == t.mexc_quotes,
        t.followed(lag, limit, drop).impulses == t.impulses,
        t.followed(lag, limit, drop).expired == t.expired,
        t.followed(lag, limit, drop).lags.len() > 0,
        t.followed(lag, limit, drop).lags.last() == lag,
        t.lags.len() < limit ==> t.followed(lag, limit, drop).lags == t.lags.push(lag),
        t.lags.len() == limit ==> t.followed(lag, limit, drop).lags == t.lags.push(lag).subrange(
            drop as int,
            (limit + 1) as int,
        ),
{
    if t.lags.len() == limit {
        assert(t.lags.push(lag).skip(drop as int) =~= t.lags.push(lag).subrange(
            drop as int,
            (limit + 1) as int,
        ));
    }
}

/// A percentile is the lag at its place when the lags stand in order, whoever puts them in order.
pub proof fn percentiles_stand_at_their_places(lags: Seq<i64>, ordered: Seq<i64>, pct: nat)
    requires
        lags.len() > 0,
        pct <= 100,
        ordered.to_multiset() == lags.to_multiset(),
        forall|i: int, j: int| 0 <= i < j < ordered.len() ==> ordered[i] <= ordered[j],
    ensures
        ordered.len() == lags.len(),
        percentile(lags, pct) == ordered[(lags.len() - 1) * pct / 100],
{
    let leq = |a: i64, b: i64| a <= b;
    assert(total_ordering(leq));
    lags.lemma_sort_by_ensures(leq);
    lags.to_multiset_ensures();
    ordered.to_multiset_ensures();
    assert(sorted_by(ordered, leq));
    lemma_sorted_unique(ordered, ascending(lags), leq);
}

/// What sums lags up holds their sum and count, the smallest and the largest of them, and those that
/// stand in the middle and at 95 of a hundred when they are put in order.
pub proof fn summaries_sum_up(s: LagSummary, lags: Seq<i64>, ordered: Seq<i64>)
    requires
        sums_up(s, lags),
        lags.len() > 0,
        ordered.to_multiset() == lags.to_multiset(),
        forall|i: int, j: int| 0 <= i < j < ordered.len() ==> ordered[i] <= ordered[j],
    ensures
        s.count == lags.len(),
        s.sum == sum(lags),
        s.p50 == ordered[(lags.len() - 1) * 50 / 100],
        s.p95 == ordered[(lags.len() - 1) * 95 / 100],
        s.min == ordered[0],
        s.max == ordered[lags.len() - 1],
        lags.contains(s.min) && lags.contains(s.max) && lags.contains(s.p50) && lags.contains(s.p95),
        forall|i: int| 0 <= i < lags.len() ==> s.min <= #[trigger] lags[i] <= s.max,
{
    percentiles_stand_at_their_places(lags, ordered, 50);
    percentiles_stand_at_their_places(lags, ordered, 95);
    percentiles_stand_at_their_places(lags, ordered, 0);
    percentiles_stand_at_their_places(lags, ordered, 100);
    lags.to_multiset_ensures();
    ordered.to_multiset_ensures();
    let n = lags.len() - 1;
    assert(0 <= n * 50 / 100 <= n && 0 <= n * 95 / 100 <= n) by (nonlinear_arith)
        requires
            n >= 0,
    ;
    assert(ordered.to_multiset().contains(ordered[0]));
    assert(ordered.to_multiset().contains(ordered[n]));
    assert(ordered.to_multiset().contains(ordered[n * 50 / 100]));
    assert(ordered.to_multiset().contains(ordered[n * 95 / 100]));
    assert forall|i: int| 0 <= i < lags.len() implies s.min <= #[trigger] lags[i] <= s.max by {
        lags_in_order(lags, i, 50, 95);
    }
}

/// The sum of lags is that of the ones before and the last one; without any it is zero.
pub proof fn sums_add_up(lags: Seq<i64>, lag: i64)
    ensures
        sum(Seq::<i64>::empty()) == 0,
        sum(lags.push(lag)) == sum(lags) + lag,
{
    assert(lags.push(lag).drop_last() =~= lags);
}

/// There is something to sum up as soon as there is a lag.
pub proof fn any_lag_is_summed_up(lags: Seq<i64>)
    requires
        lags.len() <= usize::MAX,
        i128::MIN <= sum(lags) <= i128::MAX,
    ensures
        summary_of(lags) is Some <==> lags.len() > 0,
        summary_of(lags) matches Some(s) ==> sums_up(s, lags),
{
}

/// The statistics in one line show each count behind its name, and the lags once there are any.
pub proof fn the_summary_names_what_it_shows(t: Tally, average: Seq<char>, s: LagSummary)
    requires
        t.lags.len() > 0 ==> sums_up(s, t.lags),
    ensures
        t.lags.len() > 0 ==> summary_line(t, average) == labelled(
            seq![
                ("quotes Binance="@, digits(t.binance_quotes as nat)),
                (" MEXC="@, digits(t.mexc_quotes as nat)),
                (" impulses="@, digits(t.impulses as nat)),
                (" matched="@, digits(t.matched as nat)),
                (" expired="@, digits(t.expired as nat)),
                (" lag avg="@, average),
                ("ms p50="@, int_text(s.p50 as int)),
                ("ms p95="@, int_text(s.p95 as int)),
                ("ms min="@, int_text(s.min as int)),
                ("ms max="@, int_text(s.max as int)),
                ("ms"@, Seq::empty()),
            ],
        ),
        t.lags.len() == 0 ==> summary_line(t, average) == labelled(
            seq![
                ("quotes Binance="@, digits(t.binance_quotes as nat)),
                (" MEXC="@, digits(t.mexc_quotes as nat)),
                (" impulses="@, digits(t.impulses as nat)),
                (" matched="@, seq!['0']),
                (" expired="@, digits(t.expired as nat)),
            ],
        ),
{
    if t.lags.len() > 0 {
        let p1 = seq![("quotes Binance="@, digits(t.binance_quotes as nat))];
        lemma_first_label("quotes Binance="@, digits(t.binance_quotes as nat));
        lemma_label_follows(p1, " MEXC="@, digits(t.mexc_quotes as nat));
        let p2 = p1.push((" MEXC="@, digits(t.mexc_quotes as nat)));
        lemma_label_follows(p2, " impulses="@, digits(t.impulses as nat));
        let p3 = p2.push((" impulses="@, digits(t.impulses as nat)));
        lemma_label_follows(p3, " matched="@, digits(t.matched as nat));
        let p4 = p3.push((" matched="@, digits(t.matched as nat)));
        lemma_label_follows(p4, " expired="@, digits(t.expired as nat));
        let p5 = p4.push((" expired="@, digits(t.expired as nat)));
        lemma_label_follows(p5, " lag avg="@, average);
        let p6 = p5.push((" lag avg="@, average));
        lemma_label_follows(p6, "ms p50="@, int_text(s.p50 as int));
        let p7 = p6.push(("ms p50="@, int_text(s.p50 as int)));
        lemma_label_follows(p7, "ms p95="@, int_text(s.p95 as int));
        let p8 = p7.push(("ms p95="@, int_text(s.p95 as int)));
        lemma_label_follows(p8, "ms min="@, int_text(s.min as int));
        let p9 = p8.push(("ms min="@, int_text(s.min as int)));
        lemma_label_follows(p9, "ms max="@, int_text(s.max as int));
        let p10 = p9.push(("ms max="@, int_text(s.max as int)));
        lemma_label_follows(p10, "ms"@, Seq::empty());
        let p11 = p10.push(("ms"@, Seq::empty()));
        assert(p11 =~= seq![
            ("quotes Binance="@, digits(t.binance_quotes as nat)),
            (" MEXC="@, digits(t.mexc_quotes as nat)),
            (" impulses="@, digits(t.impulses as nat)),
            (" matched="@, digits(t.matched as nat)),
            (" expired="@, digits(t.expired as nat)),
            (" lag avg="@, average),
            ("ms p50="@, int_text(s.p50 as int)),
            ("ms p95="@, int_text(s.p95 as int)),
            ("ms min="@, int_text(s.min as int)),
            ("ms max="@, int_text(s.max as int)),
            ("ms"@, Seq::empty()),
        ]);
        assert(summary_line(t, average) =~= labelled(p11));
    } else {
        let p1 = seq![("quotes Binance="@, digits(t.binance_quotes as nat))];
        lemma_first_label("quotes Binance="@, digits(t.binance_quotes as nat));
        lemma_label_follows(p1, " MEXC="@, digits(t.mexc_quotes as nat));
        let p2 = p1.push((" MEXC="@, digits(t.mexc_quotes as nat)));
        lemma_label_follows(p2, " impulses="@, digits(t.impulses as nat));
        let p3 = p2.push((" impulses="@, digits(t.impulses as nat)));
        lemma_label_follows(p3, " matched="@, seq!['0']);
        let p4 = p3.push((" matched="@, seq!['0']));
        lemma_label_follows(p4, " expired="@, digits(t.expired as nat));
        let p5 = p4.push((" expired="@, digits(t.expired as nat)));
        assert(p5 =~= seq![
            ("quotes Binance="@, digits(t.binance_quotes as nat)),
            (" MEXC="@, digits(t.mexc_quotes as nat)),
            (" impulses="@, digits(t.impulses as nat)),
            (" matched="@, seq!['0']),
            (" expired="@, digits(t.expired as nat)),
        ]);
        reveal_strlit("0 expired=");
        reveal_strlit(" expired=");
        assert("0 expired="@ =~= seq!['0'] + " expired="@);
        assert(summary_line(t, average) =~= labelled(p5));
    }
}

/// At the start nothing is counted.
pub proof fn counting_starts_at_zero()
    ensures
        nothing().binance_quotes == 0,
        nothing().mexc_quotes == 0,
        nothing().impulses == 0,
        nothing().matched == 0,
        nothing().expired == 0,
        nothing().lags.len() == 0,
{
}

} // verus!
