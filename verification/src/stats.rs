//! Statistics: how many quotes came, how many moves were seen, and how long MEXC lagged.

use vstd::prelude::*;
use vstd::relations::{sorted_by, total_ordering};
use vstd::seq_lib::lemma_sorted_unique;

use crate::decimal::Decimal;
use crate::quotes::Exchange;
use crate::table::Table;
use crate::text::{digits, int_text, text_of_i64, text_of_u64};

verus! {

/// Which way a price moves.
#[derive(Clone, Copy, Debug, PartialEq, Eq, Structural)]
pub enum Direction {
    Up,
    Down,
}

/// What a trade on the last lag would have brought.
#[derive(Clone, Copy, Debug, PartialEq, Eq, Structural)]
pub struct LastTradeEstimate {
    pub direction: Direction,
    pub lag_ms: i64,
    pub gross_cross_bps: Decimal,
    pub net_fee_bps: Decimal,
    pub net_zero_fee_bps: Decimal,
    pub pnl_fee_usdt: Decimal,
    pub pnl_zero_fee_usdt: Decimal,
}

/// The statistics of one symbol.
#[derive(Debug)]
pub struct SymbolStats {
    pub binance_quotes: u64,
    pub mexc_quotes: u64,
    pub impulses: u64,
    pub matched: u64,
    pub expired: u64,
    pub lags_ms: Vec<i64>,
    pub last_trade: Option<LastTradeEstimate>,
}

/// The statistics of all symbols together and of each one.
pub struct Stats {
    pub binance_quotes: u64,
    pub mexc_quotes: u64,
    pub impulses: u64,
    pub matched: u64,
    pub expired: u64,
    pub lags_ms: Vec<i64>,
    pub by_symbol: Table<SymbolStats>,
}

/// What was counted, and the last lags.
pub struct Tally {
    pub binance_quotes: int,
    pub mexc_quotes: int,
    pub impulses: int,
    pub matched: int,
    pub expired: int,
    pub lags: Seq<i64>,
}

/// Nothing counted yet.
pub open spec fn nothing() -> Tally {
    Tally {
        binance_quotes: 0,
        mexc_quotes: 0,
        impulses: 0,
        matched: 0,
        expired: 0,
        lags: Seq::empty(),
    }
}

impl Tally {
    /// One more quote from `exchange`.
    pub open spec fn quoted(self, exchange: Exchange) -> Tally {
        match exchange {
            Exchange::Binance => Tally { binance_quotes: self.binance_quotes + 1, ..self },
            Exchange::Mexc => Tally { mexc_quotes: self.mexc_quotes + 1, ..self },
        }
    }

    /// One more move on Binance.
    pub open spec fn moved(self) -> Tally {
        Tally { impulses: self.impulses + 1, ..self }
    }

    /// One more move that MEXC did not follow in time.
    pub open spec fn missed(self) -> Tally {
        Tally { expired: self.expired + 1, ..self }
    }

    /// One more move that MEXC followed, `lag` later. Where more than `limit` lags are kept, the
    /// first `drop` of them go.
    pub open spec fn followed(self, lag: i64, limit: nat, drop: nat) -> Tally {
        Tally { matched: self.matched + 1, lags: kept(self.lags.push(lag), limit, drop), ..self }
    }

    /// Whether each count is one of 64 bits.
    pub open spec fn in_range(self) -> bool {
        &&& self.binance_quotes <= u64::MAX
        &&& self.mexc_quotes <= u64::MAX
        &&& self.impulses <= u64::MAX
        &&& self.matched <= u64::MAX
        &&& self.expired <= u64::MAX
    }
}

/// The lags that are kept: where there are more than `limit`, the first `drop` go.
pub open spec fn kept(lags: Seq<i64>, limit: nat, drop: nat) -> Seq<i64> {
    if lags.len() > limit {
        lags.skip(drop as int)
    } else {
        lags
    }
}

fn add_kept(lags: &mut Vec<i64>, lag: i64, limit: usize, drop: usize)
    requires
        drop <= limit,
    ensures
        final(lags)@ == kept(old(lags)@.push(lag), limit as nat, drop as nat),
{
    lags.push(lag);
    if lags.len() > limit {
        let mut rest = lags.split_off(drop);
        std::mem::swap(lags, &mut rest);
    }
}

// The lags in order.

/// The lags in ascending order.
pub open spec fn ascending(lags: Seq<i64>) -> Seq<i64> {
    lags.sort_by(|a: i64, b: i64| a <= b)
}

/// The lag at `pct` percent of the way from the smallest to the largest.
pub open spec fn percentile(lags: Seq<i64>, pct: nat) -> i64 {
    ascending(lags)[(lags.len() - 1) * pct / 100]
}

/// The sum of the lags.
pub open spec fn sum(lags: Seq<i64>) -> int
    decreases lags.len(),
{
    if lags.len() == 0 {
        0
    } else {
        sum(lags.drop_last()) + lags.last()
    }
}

proof fn lemma_ascending(lags: Seq<i64>)
    ensures
        sorted_by(ascending(lags), |a: i64, b: i64| a <= b),
        ascending(lags).to_multiset() == lags.to_multiset(),
        ascending(lags).len() == lags.len(),
{
    let leq = |a: i64, b: i64| a <= b;
    assert(total_ordering(leq));
    lags.lemma_sort_by_ensures(leq);
    lags.to_multiset_ensures();
    ascending(lags).to_multiset_ensures();
}

/// The lags in order lie between the smallest and the largest: whatever lag there is lies there,
/// and so does each percentile, the lower one not above the higher one.
pub proof fn lags_in_order(lags: Seq<i64>, i: int, low: nat, high: nat)
    requires
        0 <= i < lags.len(),
        low <= high <= 100,
    ensures
        percentile(lags, 0) <= lags[i] <= percentile(lags, 100),
        percentile(lags, 0) <= percentile(lags, low) <= percentile(lags, high) <= percentile(
            lags,
            100,
        ),
{
    lemma_ascending(lags);
    let s = ascending(lags);
    let n = lags.len() - 1;
    let leq = |a: i64, b: i64| a <= b;
    assert(n * 100 / 100 == n && n * 0 / 100 == 0);
    assert(0 <= n * low / 100 <= n * high / 100 <= n) by (nonlinear_arith)
        requires
            n >= 0,
            low <= high <= 100,
    ;
    assert forall|a: int, b: int| 0 <= a <= b < s.len() implies s[a] <= s[b] by {
        if a < b {
            assert(leq(s[a], s[b]));
        }
    }
    lags.to_multiset_ensures();
    s.to_multiset_ensures();
    assert(lags.to_multiset().contains(lags[i]));
    assert(s.contains(lags[i]));
    let j = choose|j: int| 0 <= j < s.len() && s[j] == lags[i];
    assert(s[0] <= s[j] <= s[n]);
}

/// The sum, the count, and some of the lags in order.
#[derive(Clone, Copy, Debug, PartialEq, Eq, Structural)]
pub struct LagSummary {
    pub sum: i128,
    pub count: usize,
    pub p50: i64,
    pub p95: i64,
    pub min: i64,
    pub max: i64,
}

/// Whether `s` sums `lags` up.
pub open spec fn sums_up(s: LagSummary, lags: Seq<i64>) -> bool {
    &&& s.sum == sum(lags)
    &&& s.count == lags.len()
    &&& s.p50 == percentile(lags, 50)
    &&& s.p95 == percentile(lags, 95)
    &&& s.min == percentile(lags, 0)
    &&& s.max == percentile(lags, 100)
}

/// What sums `lags` up, if there are any.
pub open spec fn summary_of(lags: Seq<i64>) -> Option<LagSummary> {
    if lags.len() == 0 {
        None
    } else {
        Some(
            LagSummary {
                sum: sum(lags) as i128,
                count: lags.len() as usize,
                p50: percentile(lags, 50),
                p95: percentile(lags, 95),
                min: percentile(lags, 0),
                max: percentile(lags, 100),
            },
        )
    }
}

fn place(len: usize, pct: usize) -> (index: usize)
    requires
        len > 0,
        pct <= 100,
    ensures
        index == (len - 1) * pct / 100,
        index < len,
{
    let n: u128 = (len - 1) as u128;
    let p: u128 = pct as u128;
    assert(0 <= n * p <= 100 * n) by (nonlinear_arith)
        requires
            0 <= p <= 100,
            n >= 0,
    ;
    ((n * p) / 100) as usize
}

/// Sums lags up, if there are any.
pub fn summarize(lags: &Vec<i64>) -> (summary: Option<LagSummary>)
    ensures
        summary is None <==> lags@.len() == 0,
        summary matches Some(s) ==> sums_up(s, lags@),
        summary == summary_of(lags@),
{
    if lags.len() == 0 {
        return None;
    }
    let mut total: i128 = 0;
    let mut xs: Vec<i64> = Vec::new();
    let mut i: usize = 0;
    while i < lags.len()
        invariant
            i <= lags@.len(),
            xs@ == lags@.take(i as int),
            total == sum(lags@.take(i as int)),
            i64::MIN * i <= total <= i64::MAX * i,
        decreases lags@.len() - i,
    {
        assert(lags@.take(i + 1).drop_last() =~= lags@.take(i as int));
        assert(lags@.take(i + 1) =~= lags@.take(i as int).push(lags@[i as int]));
        assert(i64::MIN * i >= i64::MIN * usize::MAX && i64::MAX * i <= i64::MAX * usize::MAX)
            by (nonlinear_arith)
            requires
                i <= usize::MAX,
        ;
        total = total + lags[i] as i128;
        xs.push(lags[i]);
        i += 1;
    }
    assert(lags@.take(lags@.len() as int) =~= lags@);
    sort_ascending(&mut xs);
    proof {
        lemma_ascending(lags@);
        assert(xs@.to_multiset() == lags@.to_multiset());
        xs@.to_multiset_ensures();
        lags@.to_multiset_ensures();
        assert(total_ordering(|a: i64, b: i64| a <= b));
        lemma_sorted_unique(xs@, ascending(lags@), |a: i64, b: i64| a <= b);
    }
    let n: usize = xs.len();
    Some(
        LagSummary {
            sum: total,
            count: n,
            p50: xs[place(n, 50)],
            p95: xs[place(n, 95)],
            min: xs[place(n, 0)],
            max: xs[place(n, 100)],
        },
    )
}

/// `<[i64]>::sort_unstable`: the same numbers in ascending order.
#[verifier::external_body]
fn sort_ascending(xs: &mut Vec<i64>)
    ensures
        final(xs)@.to_multiset() == old(xs)@.to_multiset(),
        sorted_by(final(xs)@, |a: i64, b: i64| a <= b),
{
    xs.sort_unstable();
}

// The statistics of a symbol.

impl SymbolStats {
    /// What was counted.
    pub open spec fn tally(self) -> Tally {
        Tally {
            binance_quotes: self.binance_quotes as int,
            mexc_quotes: self.mexc_quotes as int,
            impulses: self.impulses as int,
            matched: self.matched as int,
            expired: self.expired as int,
            lags: self.lags_ms@,
        }
    }

    /// Nothing counted yet.
    pub fn new() -> (stats: SymbolStats)
        ensures
            stats.tally() == nothing(),
            stats.last_trade is None,
    {
        SymbolStats {
            binance_quotes: 0,
            mexc_quotes: 0,
            impulses: 0,
            matched: 0,
            expired: 0,
            lags_ms: Vec::new(),
            last_trade: None,
        }
    }

    /// Sets what a trade on the last lag would have brought.
    pub fn set_trade_estimate(&mut self, estimate: LastTradeEstimate)
        ensures
            final(self).tally() == old(self).tally(),
            final(self).last_trade == Some(estimate),
    {
        self.last_trade = Some(estimate);
    }

    /// Counts a move that MEXC followed. At most 2000 lags are kept.
    pub fn add_lag(&mut self, lag_ms: i64)
        requires
            old(self).matched < u64::MAX,
        ensures
            final(self).tally() == old(self).tally().followed(lag_ms, 2_000, 1_000),
            final(self).last_trade == old(self).last_trade,
    {
        self.matched += 1;
        add_kept(&mut self.lags_ms, lag_ms, 2_000, 1_000);
    }

    /// Sums the lags up, if there are any.
    pub fn lag_summary(&self) -> (summary: Option<LagSummary>)
        ensures
            summary is None <==> self.lags_ms@.len() == 0,
            summary matches Some(s) ==> sums_up(s, self.lags_ms@),
            summary == summary_of(self.lags_ms@),
    {
        summarize(&self.lags_ms)
    }
}

// The statistics of all symbols.

impl Stats {
    /// What was counted of all symbols together.
    pub open spec fn total(self) -> Tally {
        Tally {
            binance_quotes: self.binance_quotes as int,
            mexc_quotes: self.mexc_quotes as int,
            impulses: self.impulses as int,
            matched: self.matched as int,
            expired: self.expired as int,
            lags: self.lags_ms@,
        }
    }

    /// What was counted of `symbol`.
    pub open spec fn of(self, symbol: Seq<char>) -> Tally {
        if self.by_symbol@.contains_key(symbol) {
            self.by_symbol@[symbol].tally()
        } else {
            nothing()
        }
    }

    /// What a trade on the last lag of `symbol` would have brought.
    pub open spec fn estimate(self, symbol: Seq<char>) -> Option<LastTradeEstimate> {
        if self.by_symbol@.contains_key(symbol) {
            self.by_symbol@[symbol].last_trade
        } else {
            None
        }
    }

    /// Whether the statistics of all other symbols than `symbol` are those of `before`.
    pub open spec fn same_but(self, before: Stats, symbol: Seq<char>) -> bool {
        forall|other: Seq<char>|
            #![trigger self.of(other)]
            #![trigger self.estimate(other)]
            other != symbol ==> self.of(other) == before.of(other) && self.estimate(other)
                == before.estimate(other)
    }

    /// Nothing counted yet.
    pub fn new() -> (stats: Stats)
        ensures
            stats.total() == nothing(),
            forall|symbol: Seq<char>| #[trigger] stats.of(symbol) == nothing(),
            forall|symbol: Seq<char>| #[trigger] stats.estimate(symbol) is None,
    {
        Stats {
            binance_quotes: 0,
            mexc_quotes: 0,
            impulses: 0,
            matched: 0,
            expired: 0,
            lags_ms: Vec::new(),
            by_symbol: Table::new(),
        }
    }

    fn take_symbol(&mut self, symbol: &str) -> (stats: SymbolStats)
        ensures
            stats.tally() == old(self).of(symbol@),
            stats.last_trade == old(self).estimate(symbol@),
            final(self).by_symbol@ == old(self).by_symbol@.remove(symbol@),
            final(self).total() == old(self).total(),
            *final(self) == (Stats { by_symbol: final(self).by_symbol, ..*old(self) }),
    {
        match self.by_symbol.take(symbol) {
            Some(stats) => stats,
            None => SymbolStats::new(),
        }
    }

    /// Counts a quote.
    pub fn record_quote(&mut self, symbol: &str, exchange: Exchange)
        requires
            old(self).total().quoted(exchange).in_range(),
            old(self).of(symbol@).quoted(exchange).in_range(),
        ensures
            final(self).total() == old(self).total().quoted(exchange),
            final(self).of(symbol@) == old(self).of(symbol@).quoted(exchange),
            final(self).estimate(symbol@) == old(self).estimate(symbol@),
            final(self).same_but(*old(self), symbol@),
    {
        let mut own = self.take_symbol(symbol);
        match exchange {
            Exchange::Binance => {
                self.binance_quotes += 1;
                own.binance_quotes += 1;
            },
            Exchange::Mexc => {
                self.mexc_quotes += 1;
                own.mexc_quotes += 1;
            },
        }
        self.by_symbol.put(symbol.to_string(), own);
    }

    /// Counts a move on Binance.
    pub fn record_impulse(&mut self, symbol: &str)
        requires
            old(self).total().impulses < u64::MAX,
            old(self).of(symbol@).impulses < u64::MAX,
        ensures
            final(self).total() == old(self).total().moved(),
            final(self).of(symbol@) == old(self).of(symbol@).moved(),
            final(self).estimate(symbol@) == old(self).estimate(symbol@),
            final(self).same_but(*old(self), symbol@),
    {
        let mut own = self.take_symbol(symbol);
        self.impulses += 1;
        own.impulses += 1;
        self.by_symbol.put(symbol.to_string(), own);
    }

    /// Counts a move that MEXC did not follow in time.
    pub fn record_expired(&mut self, symbol: &str)
        requires
            old(self).total().expired < u64::MAX,
            old(self).of(symbol@).expired < u64::MAX,
        ensures
            final(self).total() == old(self).total().missed(),
            final(self).of(symbol@) == old(self).of(symbol@).missed(),
            final(self).estimate(symbol@) == old(self).estimate(symbol@),
            final(self).same_but(*old(self), symbol@),
    {
        let mut own = self.take_symbol(symbol);
        self.expired += 1;
        own.expired += 1;
        self.by_symbol.put(symbol.to_string(), own);
    }

    /// Sets what a trade on the last lag would have brought.
    pub fn set_trade_estimate(&mut self, symbol: &str, estimate: LastTradeEstimate)
        ensures
            final(self).total() == old(self).total(),
            final(self).of(symbol@) == old(self).of(symbol@),
            final(self).estimate(symbol@) == Some(estimate),
            final(self).same_but(*old(self), symbol@),
    {
        let mut own = self.take_symbol(symbol);
        own.set_trade_estimate(estimate);
        self.by_symbol.put(symbol.to_string(), own);
    }

    /// Counts a move that MEXC followed. At most 10000 lags are kept, and 2000 of each symbol.
    pub fn add_lag(&mut self, symbol: &str, lag_ms: i64)
        requires
            old(self).total().matched < u64::MAX,
            old(self).of(symbol@).matched < u64::MAX,
        ensures
            final(self).total() == old(self).total().followed(lag_ms, 10_000, 5_000),
            final(self).of(symbol@) == old(self).of(symbol@).followed(lag_ms, 2_000, 1_000),
            final(self).estimate(symbol@) == old(self).estimate(symbol@),
            final(self).same_but(*old(self), symbol@),
    {
        let mut own = self.take_symbol(symbol);
        self.matched += 1;
        own.add_lag(lag_ms);
        self.by_symbol.put(symbol.to_string(), own);
        add_kept(&mut self.lags_ms, lag_ms, 10_000, 5_000);
    }

    /// Sums all lags up, if there are any.
    pub fn lag_summary(&self) -> (summary: Option<LagSummary>)
        ensures
            summary is None <==> self.lags_ms@.len() == 0,
            summary matches Some(s) ==> sums_up(s, self.lags_ms@),
            summary == summary_of(self.lags_ms@),
    {
        summarize(&self.lags_ms)
    }

    /// The statistics in one line. `average` is the average lag, as it is to be shown.
    pub fn summary(&self, average: &str) -> (line: String)
        ensures
            line@ == summary_line(self.total(), average@),
    {
        let start = "quotes Binance=".to_string().concat(
            text_of_u64(self.binance_quotes).as_str(),
        ).concat(" MEXC=").concat(text_of_u64(self.mexc_quotes).as_str()).concat(
            " impulses=",
        ).concat(text_of_u64(self.impulses).as_str()).concat(" matched=");
        match self.lag_summary() {
            None => start.concat("0 expired=").concat(text_of_u64(self.expired).as_str()),
            Some(s) => start.concat(text_of_u64(self.matched).as_str()).concat(" expired=").concat(
                text_of_u64(self.expired).as_str(),
            ).concat(" lag avg=").concat(average).concat("ms p50=").concat(
                text_of_i64(s.p50).as_str(),
            ).concat("ms p95=").concat(text_of_i64(s.p95).as_str()).concat("ms min=").concat(
                text_of_i64(s.min).as_str(),
            ).concat("ms max=").concat(text_of_i64(s.max).as_str()).concat("ms"),
        }
    }
}

/// What was counted, in one line.
pub open spec fn summary_line(t: Tally, average: Seq<char>) -> Seq<char> {
    let start = "quotes Binance="@ + digits(t.binance_quotes as nat) + " MEXC="@ + digits(
        t.mexc_quotes as nat,
    ) + " impulses="@ + digits(t.impulses as nat) + " matched="@;
    if t.lags.len() == 0 {
        start + "0 expired="@ + digits(t.expired as nat)
    } else {
        start + digits(t.matched as nat) + " expired="@ + digits(t.expired as nat) + " lag avg="@
            + average + "ms p50="@ + int_text(percentile(t.lags, 50) as int) + "ms p95="@
            + int_text(percentile(t.lags, 95) as int) + "ms min="@ + int_text(
            percentile(t.lags, 0) as int,
        ) + "ms max="@ + int_text(percentile(t.lags, 100) as int) + "ms"@
    }
}

// What all operations keep.

/// No more lags are kept than the limits say.
pub open spec fn lags_bounded(stats: Stats) -> bool {
    &&& stats.total().lags.len() <= 10_000
    &&& forall|symbol: Seq<char>| (#[trigger] stats.of(symbol)).lags.len() <= 2_000
}

/// One more lag leaves the kept lags within their limits. The lags that are kept are the last ones
/// that came, in the order in which they came.
pub proof fn lags_stay_bounded(lags: Seq<i64>, lag: i64, limit: nat, drop: nat)
    requires
        0 < drop <= limit,
        lags.len() <= limit,
    ensures
        kept(lags.push(lag), limit, drop).len() <= limit,
        kept(lags.push(lag), limit, drop).len() > 0,
        kept(lags.push(lag), limit, drop).is_suffix_of(lags.push(lag)),
{
}

/// The sum of `count` over `symbols`.
pub open spec fn summed(count: spec_fn(Seq<char>) -> int, symbols: Seq<Seq<char>>) -> int
    decreases symbols.len(),
{
    if symbols.len() == 0 {
        0
    } else {
        summed(count, symbols.drop_last()) + count(symbols.last())
    }
}

proof fn lemma_summed_step(
    before: spec_fn(Seq<char>) -> int,
    after: spec_fn(Seq<char>) -> int,
    symbol: Seq<char>,
    symbols: Seq<Seq<char>>,
)
    requires
        symbols.no_duplicates(),
        forall|other: Seq<char>| other != symbol ==> #[trigger] after(other) == before(other),
    ensures
        summed(after, symbols) == summed(before, symbols) + (if symbols.contains(symbol) {
            after(symbol) - before(symbol)
        } else {
            0
        }),
    decreases symbols.len(),
{
    if symbols.len() > 0 {
        let rest = symbols.drop_last();
        assert(rest.no_duplicates());
        lemma_summed_step(before, after, symbol, rest);
        if symbols.last() == symbol {
            assert(!rest.contains(symbol));
            assert(symbols.contains(symbol));
        } else {
            assert(symbols.contains(symbol) <==> rest.contains(symbol)) by {
                if symbols.contains(symbol) {
                    let i = choose|i: int| 0 <= i < symbols.len() && symbols[i] == symbol;
                    assert(rest[i] == symbol);
                }
                if rest.contains(symbol) {
                    let i = choose|i: int| 0 <= i < rest.len() && rest[i] == symbol;
                    assert(symbols[i] == symbol);
                }
            }
        }
    }
}

proof fn lemma_summed_zero(count: spec_fn(Seq<char>) -> int, symbols: Seq<Seq<char>>)
    requires
        forall|s: Seq<char>| #[trigger] count(s) == 0,
    ensures
        summed(count, symbols) == 0,
    decreases symbols.len(),
{
    if symbols.len() > 0 {
        lemma_summed_zero(count, symbols.drop_last());
    }
}

/// Statistics in which nothing is counted yet are sound.
pub proof fn fresh_statistics_are_sound(stats: Stats, symbols: Seq<Seq<char>>)
    requires
        stats.total() == nothing(),
        forall|symbol: Seq<char>| #[trigger] stats.of(symbol) == nothing(),
    ensures
        adds_up(stats, symbols),
        lags_bounded(stats),
{
    lemma_summed_zero(|s: Seq<char>| stats.of(s).binance_quotes, symbols);
    lemma_summed_zero(|s: Seq<char>| stats.of(s).mexc_quotes, symbols);
    lemma_summed_zero(|s: Seq<char>| stats.of(s).impulses, symbols);
    lemma_summed_zero(|s: Seq<char>| stats.of(s).matched, symbols);
    lemma_summed_zero(|s: Seq<char>| stats.of(s).expired, symbols);
}

/// Whether the counts of all symbols together are the sums over `symbols`.
pub open spec fn adds_up(stats: Stats, symbols: Seq<Seq<char>>) -> bool {
    &&& stats.total().binance_quotes == summed(|s: Seq<char>| stats.of(s).binance_quotes, symbols)
    &&& stats.total().mexc_quotes == summed(|s: Seq<char>| stats.of(s).mexc_quotes, symbols)
    &&& stats.total().impulses == summed(|s: Seq<char>| stats.of(s).impulses, symbols)
    &&& stats.total().matched == summed(|s: Seq<char>| stats.of(s).matched, symbols)
    &&& stats.total().expired == summed(|s: Seq<char>| stats.of(s).expired, symbols)
}

/// The counts of all symbols together stay the sums over the symbols: where one of these gets more
/// of something, all together get as much more.
pub proof fn counts_keep_adding_up(
    before: Stats,
    after: Stats,
    symbol: Seq<char>,
    symbols: Seq<Seq<char>>,
)
    requires
        adds_up(before, symbols),
        symbols.no_duplicates(),
        symbols.contains(symbol),
        after.same_but(before, symbol),
        after.total().binance_quotes - before.total().binance_quotes == after.of(
            symbol,
        ).binance_quotes - before.of(symbol).binance_quotes,
        after.total().mexc_quotes - before.total().mexc_quotes == after.of(symbol).mexc_quotes
            - before.of(symbol).mexc_quotes,
        after.total().impulses - before.total().impulses == after.of(symbol).impulses - before.of(
            symbol,
        ).impulses,
        after.total().matched - before.total().matched == after.of(symbol).matched - before.of(
            symbol,
        ).matched,
        after.total().expired - before.total().expired == after.of(symbol).expired - before.of(
            symbol,
        ).expired,
    ensures
        adds_up(after, symbols),
{
    lemma_summed_step(
        |s: Seq<char>| before.of(s).binance_quotes,
        |s: Seq<char>| after.of(s).binance_quotes,
        symbol,
        symbols,
    );
    lemma_summed_step(
        |s: Seq<char>| before.of(s).mexc_quotes,
        |s: Seq<char>| after.of(s).mexc_quotes,
        symbol,
        symbols,
    );
    lemma_summed_step(
        |s: Seq<char>| before.of(s).impulses,
        |s: Seq<char>| after.of(s).impulses,
        symbol,
        symbols,
    );
    lemma_summed_step(
        |s: Seq<char>| before.of(s).matched,
        |s: Seq<char>| after.of(s).matched,
        symbol,
        symbols,
    );
    lemma_summed_step(
        |s: Seq<char>| before.of(s).expired,
        |s: Seq<char>| after.of(s).expired,
        symbol,
        symbols,
    );
}

} // verus!
