//! Quotes: the best bid and ask of a symbol on one of the two exchanges.

use vstd::prelude::*;

use crate::clock::{clock_shows, now_ms};
use crate::decimal::{
    Decimal, below, below_is_irreflexive, below_is_transitive, decimal_difference,
    decimal_parsed, decimal_product, decimal_quotient, decimal_sum, right_difference,
    right_product, right_quotient, right_sum, whole, zero_spec,
};
use crate::json::{field, json_parsed, json_quoted, parse_json, quoted, Json, JsonView};
use crate::text::{
    chars_of, contains_text, finishes_with, join, joined, strip_suffix, texts,
};

verus! {

/// The two exchanges.
#[derive(Clone, Copy, Debug, PartialEq, Eq, Structural)]
pub enum Exchange {
    Binance,
    Mexc,
}

/// The best bid and ask of a symbol, and when they came in.
#[derive(Debug)]
pub struct QuoteUpdate {
    pub exchange: Exchange,
    pub symbol: String,
    pub bid: Decimal,
    pub ask: Decimal,
    pub recv_ts_ms: i64,
}

impl Clone for QuoteUpdate {
    fn clone(&self) -> (copy: Self)
        ensures
            copy == *self,
    {
        QuoteUpdate {
            exchange: self.exchange,
            symbol: self.symbol.clone(),
            bid: self.bid,
            ask: self.ask,
            recv_ts_ms: self.recv_ts_ms,
        }
    }
}

/// Half of the sum of `bid` and `ask`.
pub open spec fn mid_of(bid: Decimal, ask: Decimal) -> Option<Decimal> {
    match decimal_sum(bid, ask) {
        Some(sum) => decimal_quotient(sum, whole(2)),
        None => None,
    }
}

/// `part` of `base` in basis points, hundredths of a percent.
pub open spec fn in_bps(part: Decimal, base: Decimal) -> Option<Decimal> {
    match decimal_quotient(part, base) {
        Some(ratio) => decimal_product(ratio, whole(10_000)),
        None => None,
    }
}

/// The move from `from` to `to`, in basis points of `from`.
pub open spec fn move_bps(from: Decimal, to: Decimal) -> Option<Decimal> {
    match decimal_difference(to, from) {
        Some(step) => in_bps(step, from),
        None => None,
    }
}

/// The distance from `bid` to `ask` in basis points of the middle; zero where the middle is not
/// above zero.
pub open spec fn spread_bps_of(bid: Decimal, ask: Decimal) -> Option<Decimal> {
    match mid_of(bid, ask) {
        Some(mid) => if mid.positive() {
            match decimal_difference(ask, bid) {
                Some(width) => in_bps(width, mid),
                None => None,
            }
        } else {
            Some(zero_spec())
        },
        None => None,
    }
}

/// What is known of the middle: its sum and its half are right.
pub open spec fn right_mid(bid: Decimal, ask: Decimal) -> bool {
    &&& right_sum(bid, ask, decimal_sum(bid, ask))
    &&& decimal_sum(bid, ask) matches Some(sum) ==> right_quotient(sum, whole(2), mid_of(bid, ask))
}

/// What is known of a part in basis points: the quotient and the product are right.
pub open spec fn right_bps(part: Decimal, base: Decimal) -> bool {
    &&& right_quotient(part, base, decimal_quotient(part, base))
    &&& decimal_quotient(part, base) matches Some(ratio) ==> right_product(
        ratio,
        whole(10_000),
        in_bps(part, base),
    )
}

/// What is known of a move in basis points: each step is right.
pub open spec fn right_move(from: Decimal, to: Decimal) -> bool {
    &&& right_difference(to, from, decimal_difference(to, from))
    &&& decimal_difference(to, from) matches Some(step) ==> right_bps(step, from)
}

/// What is known of a spread in basis points: each step is right.
pub open spec fn right_spread(bid: Decimal, ask: Decimal) -> bool {
    &&& right_mid(bid, ask)
    &&& mid_of(bid, ask) matches Some(mid) ==> mid.positive() ==> {
        &&& right_difference(ask, bid, decimal_difference(ask, bid))
        &&& decimal_difference(ask, bid) matches Some(width) ==> right_bps(width, mid)
    }
}

impl QuoteUpdate {
    /// The middle between bid and ask.
    pub open spec fn mid_spec(self) -> Option<Decimal> {
        mid_of(self.bid, self.ask)
    }

    /// The middle between bid and ask, or nothing where their sum is too large.
    pub fn mid(&self) -> (mid: Option<Decimal>)
        ensures
            mid == self.mid_spec(),
            mid is None <==> decimal_sum(self.bid, self.ask) is None,
            right_mid(self.bid, self.ask),
    {
        let sum = self.bid.plus(self.ask)?;
        sum.over(Decimal::of_int(2))
    }
}

/// `part` of `base` in basis points, or nothing where it is too large.
pub fn bps(part: Decimal, base: Decimal) -> (bps: Option<Decimal>)
    ensures
        bps == in_bps(part, base),
        right_bps(part, base),
{
    let ratio = part.over(base)?;
    ratio.times(Decimal::of_int(10_000))
}

/// The move from `from` to `to` in basis points of `from`, or nothing where it is too large.
pub fn change_bps(from: Decimal, to: Decimal) -> (bps: Option<Decimal>)
    ensures
        bps == move_bps(from, to),
        right_move(from, to),
{
    let step = to.minus(from)?;
    bps(step, from)
}

/// The distance from `bid` to `ask` in basis points of the middle, or nothing where a step on the
/// way is too large.
pub fn spread_bps(bid: Decimal, ask: Decimal) -> (spread: Option<Decimal>)
    ensures
        spread == spread_bps_of(bid, ask),
        right_spread(bid, ask),
{
    let sum = bid.plus(ask)?;
    let mid = sum.over(Decimal::of_int(2))?;
    if mid.is_positive() {
        let width = ask.minus(bid)?;
        bps(width, mid)
    } else {
        Some(Decimal::zero())
    }
}

// The names of the symbols.

/// The name that Binance gives to its contract on a thousand PEPE.
pub open spec fn binance_pepe() -> Seq<char> {
    "1000PEPEUSDT"@
}

/// The symbol for the name that Binance gives to it: `_` stands before a `USDT` at the end, and
/// the contract on a thousand PEPE is the one on PEPE.
pub open spec fn normalized(name: Seq<char>) -> Seq<char> {
    if name == binance_pepe() {
        "PEPE_USDT"@
    } else if finishes_with(name, "USDT"@) {
        name.subrange(0, name.len() - "USDT"@.len()) + "_USDT"@
    } else {
        name
    }
}

/// The symbol for the name that Binance gives to it.
pub fn normalize_binance_symbol(symbol: &str) -> (name: String)
    ensures
        name@ == normalized(symbol@),
{
    if *symbol == *"1000PEPEUSDT" {
        return "PEPE_USDT".to_string();
    }
    match strip_suffix(symbol, "USDT") {
        Some(base) => base.concat("_USDT"),
        None => symbol.to_string(),
    }
}

/// An upper case letter of ASCII as its lower case letter, and each other character as it is.
pub open spec fn lower(c: char) -> char {
    if 'A' <= c <= 'Z' {
        (c as u32 + 32) as char
    } else {
        c
    }
}

/// `s` without underscores and in lower case.
pub open spec fn stream_letters(s: Seq<char>) -> Seq<char>
    decreases s.len(),
{
    if s.len() == 0 {
        Seq::empty()
    } else if s.last() == '_' {
        stream_letters(s.drop_last())
    } else {
        stream_letters(s.drop_last()).push(lower(s.last()))
    }
}

/// The name of the stream of a symbol at Binance.
pub open spec fn stream_symbol(symbol: Seq<char>) -> Seq<char> {
    if symbol == "PEPE_USDT"@ {
        "1000pepeusdt"@
    } else {
        stream_letters(symbol)
    }
}

/// The name of the stream of a symbol at Binance.
pub fn binance_stream_symbol(symbol: &str) -> (name: String)
    ensures
        name@ == stream_symbol(symbol@),
{
    if *symbol == *"PEPE_USDT" {
        return "1000pepeusdt".to_string();
    }
    let chars = chars_of(symbol);
    let mut name = String::new();
    let mut i: usize = 0;
    while i < chars.len()
        invariant
            i <= chars@.len(),
            name@ == stream_letters(chars@.take(i as int)),
        decreases chars@.len() - i,
    {
        let c: char = chars[i];
        assert(chars@.take(i + 1).drop_last() =~= chars@.take(i as int));
        if c != '_' {
            if 'A' <= c && c <= 'Z' {
                let small: char = (c as u8 + 32) as char;
                assert(small == lower(c));
                name.push(small);
            } else {
                name.push(c);
            }
        }
        i += 1;
    }
    assert(chars@.take(chars@.len() as int) =~= symbol@);
    name
}

// What the exchanges send.

/// What a quote says, without the time.
pub struct Offer {
    pub exchange: Exchange,
    pub symbol: Seq<char>,
    pub bid: Decimal,
    pub ask: Decimal,
}

impl QuoteUpdate {
    /// What the quote says, without the time.
    pub open spec fn offer(self) -> Offer {
        Offer { exchange: self.exchange, symbol: self.symbol@, bid: self.bid, ask: self.ask }
    }
}

/// What the quotes say, without the times.
pub open spec fn offers(quotes: Seq<QuoteUpdate>) -> Seq<Offer> {
    quotes.map_values(|q: QuoteUpdate| q.offer())
}

/// Whether a bid and an ask make sense together: both are above zero, and the bid is below the
/// ask.
pub open spec fn sound(bid: Decimal, ask: Decimal) -> bool {
    bid.positive() && ask.positive() && below(bid, ask)
}

/// The name, the bid and the ask that a ticker of Binance holds: the texts in the fields `s`, `b`
/// and `a`, or three texts in a row.
pub open spec fn ticker_texts(v: JsonView) -> Option<(Seq<char>, Seq<char>, Seq<char>)> {
    match v {
        JsonView::Object(_) => match (field(v, "s"@), field(v, "b"@), field(v, "a"@)) {
            (Some(JsonView::Text(s)), Some(JsonView::Text(b)), Some(JsonView::Text(a))) => Some(
                (s, b, a),
            ),
            _ => None,
        },
        JsonView::Array(items) => if items.len() == 3 {
            match (items[0], items[1], items[2]) {
                (JsonView::Text(s), JsonView::Text(b), JsonView::Text(a)) => Some((s, b, a)),
                _ => None,
            }
        } else {
            None
        },
        _ => None,
    }
}

/// The price of one unit: Binance quotes PEPE by the thousand.
pub open spec fn unit_price(name: Seq<char>, price: Decimal) -> Option<Decimal> {
    if name == binance_pepe() {
        decimal_quotient(price, whole(1000))
    } else {
        Some(price)
    }
}

/// What a ticker of Binance says, if it is one with prices that make sense.
pub open spec fn ticker_offer(v: JsonView) -> Option<Offer> {
    match ticker_texts(v) {
        Some((name, b, a)) => match (decimal_parsed(b), decimal_parsed(a)) {
            (Some(bid), Some(ask)) => match (unit_price(name, bid), unit_price(name, ask)) {
                (Some(bid), Some(ask)) => if sound(bid, ask) {
                    Some(
                        Offer {
                            exchange: Exchange::Binance,
                            symbol: normalized(name),
                            bid,
                            ask,
                        },
                    )
                } else {
                    None
                },
                _ => None,
            },
            _ => None,
        },
        None => None,
    }
}

/// What those of `items` say that are tickers with prices that make sense.
pub open spec fn ticker_offers(items: Seq<JsonView>) -> Seq<Offer>
    decreases items.len(),
{
    if items.len() == 0 {
        Seq::empty()
    } else {
        match ticker_offer(items.last()) {
            Some(offer) => ticker_offers(items.drop_last()).push(offer),
            None => ticker_offers(items.drop_last()),
        }
    }
}

/// What a message of Binance says: its tickers stand in the field `data`, or make up the whole
/// message, and there is a row of them or a single one.
pub open spec fn message_offers(v: JsonView) -> Seq<Offer> {
    let data = match field(v, "data"@) {
        Some(d) => d,
        None => v,
    };
    match data {
        JsonView::Array(items) => ticker_offers(items),
        single => ticker_offers(seq![single]),
    }
}

/// What a message of Binance says. A text that is no JSON says nothing.
pub open spec fn book_offers(text: Seq<char>) -> Seq<Offer> {
    match json_parsed(text) {
        Some(v) => message_offers(v),
        None => Seq::empty(),
    }
}

fn read_ticker_texts(item: &Json) -> (read: Option<(String, String, String)>)
    ensures
        read is Some <==> ticker_texts(item@) is Some,
        read matches Some((s, b, a)) ==> ticker_texts(item@) == Some((s@, b@, a@)),
{
    match item {
        Json::Object(_) => {
            let s = item.text_field("s")?;
            let b = item.text_field("b")?;
            let a = item.text_field("a")?;
            Some((s, b, a))
        },
        Json::Array(items) => {
            if items.len() != 3 {
                return None;
            }
            assert(item@->Array_0[0] == items@[0]@);
            assert(item@->Array_0[1] == items@[1]@);
            assert(item@->Array_0[2] == items@[2]@);
            match (&items[0], &items[1], &items[2]) {
                (Json::Text(s), Json::Text(b), Json::Text(a)) => Some(
                    (s.clone(), b.clone(), a.clone()),
                ),
                _ => None,
            }
        },
        _ => None,
    }
}

/// The quote that a ticker of Binance holds, if it is one with prices that make sense.
pub fn ticker_quote(item: &Json, recv_ts_ms: i64) -> (quote: Option<QuoteUpdate>)
    ensures
        quote is Some <==> ticker_offer(item@) is Some,
        quote matches Some(q) ==> ticker_offer(item@) == Some(q.offer()) && q.recv_ts_ms
            == recv_ts_ms,
{
    let (name, b, a) = read_ticker_texts(item)?;
    let mut bid = Decimal::parse(b.as_str())?;
    let mut ask = Decimal::parse(a.as_str())?;
    if *name.as_str() == *"1000PEPEUSDT" {
        bid = bid.over(Decimal::of_int(1000))?;
        ask = ask.over(Decimal::of_int(1000))?;
    }
    if !bid.is_positive() || !ask.is_positive() || !bid.less(&ask) {
        return None;
    }
    Some(
        QuoteUpdate {
            exchange: Exchange::Binance,
            symbol: normalize_binance_symbol(name.as_str()),
            bid,
            ask,
            recv_ts_ms,
        },
    )
}

/// The quote that a ticker of Binance holds, received now, if it is one with prices that make
/// sense.
pub fn parse_binance_book_ticker_value(value: &Json) -> (quote: Option<QuoteUpdate>)
    ensures
        quote is Some <==> ticker_offer(value@) is Some,
        quote matches Some(q) ==> ticker_offer(value@) == Some(q.offer()) && clock_shows(
            q.recv_ts_ms as int,
        ),
{
    ticker_quote(value, now_ms())
}

/// The quotes in a message that says what `message` does, received now.
pub fn message_quotes(message: &Json) -> (quotes: Vec<QuoteUpdate>)
    ensures
        offers(quotes@) == message_offers(message@),
        forall|i: int| 0 <= i < quotes@.len() ==> clock_shows((#[trigger] quotes@[i]).recv_ts_ms as int),
{
    let data = match message.get("data") {
        Some(d) => d,
        None => message,
    };
    let mut quotes: Vec<QuoteUpdate> = Vec::new();
    assert(offers(quotes@) =~= Seq::<Offer>::empty());
    match data {
        Json::Array(items) => {
            let ghost said = data@->Array_0;
            let mut i: usize = 0;
            while i < items.len()
                invariant
                    i <= items@.len(),
                    said.len() == items@.len(),
                    forall|k: int| 0 <= k < items@.len() ==> #[trigger] said[k] == items@[k]@,
                    offers(quotes@) == ticker_offers(said.take(i as int)),
                    forall|k: int|
                        0 <= k < quotes@.len() ==> clock_shows(
                            (#[trigger] quotes@[k]).recv_ts_ms as int,
                        ),
                decreases items@.len() - i,
            {
                assert(said.take(i + 1).drop_last() =~= said.take(i as int));
                let ghost before = offers(quotes@);
                match parse_binance_book_ticker_value(&items[i]) {
                    Some(q) => {
                        quotes.push(q);
                        assert(offers(quotes@) =~= before.push(q.offer()));
                    },
                    None => {},
                }
                i += 1;
            }
            assert(said.take(said.len() as int) =~= said);
        },
        single => {
            assert(seq![single@].drop_last() =~= Seq::<JsonView>::empty());
            reveal_with_fuel(ticker_offers, 2);
            match parse_binance_book_ticker_value(single) {
                Some(q) => {
                    quotes.push(q);
                    assert(offers(quotes@) =~= Seq::<Offer>::empty().push(q.offer()));
                },
                None => {},
            }
        },
    }
    quotes
}

/// The quotes in a message of Binance, received now.
pub fn parse_binance_book_tickers(text: &str) -> (quotes: Vec<QuoteUpdate>)
    ensures
        offers(quotes@) == book_offers(text@),
        forall|i: int| 0 <= i < quotes@.len() ==> clock_shows((#[trigger] quotes@[i]).recv_ts_ms as int),
{
    match parse_json(text) {
        Some(message) => message_quotes(&message),
        None => {
            let quotes: Vec<QuoteUpdate> = Vec::new();
            assert(offers(quotes@) =~= Seq::<Offer>::empty());
            quotes
        },
    }
}

/// Those of `quotes` whose symbols are among `symbols`, each as it is.
pub open spec fn watched(quotes: Seq<QuoteUpdate>, symbols: Seq<Seq<char>>) -> Seq<QuoteUpdate> {
    quotes.filter(|q: QuoteUpdate| symbols.contains(q.symbol@))
}

/// Keeps the quotes whose symbols are among `symbols`.
pub fn watched_quotes(quotes: Vec<QuoteUpdate>, symbols: &Vec<String>) -> (kept: Vec<QuoteUpdate>)
    ensures
        kept@ == watched(quotes@, texts(symbols@)),
{
    let mut kept: Vec<QuoteUpdate> = Vec::new();
    let ghost wanted = |q: QuoteUpdate| texts(symbols@).contains(q.symbol@);
    let mut i: usize = 0;
    assert(kept@ =~= quotes@.take(0).filter(wanted)) by {
        reveal(Seq::filter);
    }
    while i < quotes.len()
        invariant
            i <= quotes@.len(),
            wanted == (|q: QuoteUpdate| texts(symbols@).contains(q.symbol@)),
            kept@ == quotes@.take(i as int).filter(wanted),
        decreases quotes@.len() - i,
    {
        assert(quotes@.take(i + 1).drop_last() =~= quotes@.take(i as int));
        reveal(Seq::filter);
        if contains_text(symbols, quotes[i].symbol.as_str()) {
            kept.push(quotes[i].clone());
        }
        i += 1;
    }
    assert(quotes@.take(quotes@.len() as int) =~= quotes@);
    kept
}

/// A message of MEXC about the depth of its book, as far as it is read.
#[derive(Debug)]
pub struct MexcDepthMsg {
    pub channel: Option<String>,
    pub symbol: Option<String>,
    pub data: Option<MexcDepthData>,
}

/// The levels of a book. The first number of a level is its price.
#[derive(Debug)]
pub struct MexcDepthData {
    pub bids: Vec<Vec<Decimal>>,
    pub asks: Vec<Vec<Decimal>>,
}

/// The prices of the levels that have one above zero.
pub open spec fn level_prices(levels: Seq<Vec<Decimal>>) -> Seq<Decimal>
    decreases levels.len(),
{
    if levels.len() == 0 {
        Seq::empty()
    } else {
        let rest = level_prices(levels.drop_last());
        if levels.last()@.len() > 0 && levels.last()@[0].positive() {
            rest.push(levels.last()@[0])
        } else {
            rest
        }
    }
}

/// Whether the price `a` is better than `b`: higher for a bid, lower for an ask.
pub open spec fn better(a: Decimal, b: Decimal, is_bid: bool) -> bool {
    if is_bid {
        below(b, a)
    } else {
        below(a, b)
    }
}

/// Whether `best` is the first of `prices` than which none of them is better.
pub open spec fn first_best(best: Decimal, prices: Seq<Decimal>, is_bid: bool) -> bool {
    exists|i: int|
        {
            &&& 0 <= i < prices.len()
            &&& #[trigger] prices[i] == best
            &&& forall|j: int| 0 <= j < prices.len() ==> !better(#[trigger] prices[j], best, is_bid)
            &&& forall|j: int| 0 <= j < i ==> better(best, #[trigger] prices[j], is_bid)
        }
}

/// A price that is not better leaves the best one.
pub proof fn lemma_first_best_kept(best: Decimal, prices: Seq<Decimal>, price: Decimal, is_bid: bool)
    requires
        first_best(best, prices, is_bid),
        !better(price, best, is_bid),
    ensures
        first_best(best, prices.push(price), is_bid),
{
    let i = choose|i: int|
        {
            &&& 0 <= i < prices.len()
            &&& #[trigger] prices[i] == best
            &&& forall|j: int| 0 <= j < prices.len() ==> !better(#[trigger] prices[j], best, is_bid)
            &&& forall|j: int| 0 <= j < i ==> better(best, #[trigger] prices[j], is_bid)
        };
    let all = prices.push(price);
    assert(all[i] == best);
    assert forall|j: int| 0 <= j < all.len() implies !better(#[trigger] all[j], best, is_bid) by {
        if j < prices.len() {
            assert(all[j] == prices[j]);
        }
    }
    assert forall|j: int| 0 <= j < i implies better(best, #[trigger] all[j], is_bid) by {
        assert(all[j] == prices[j]);
    }
}

/// A better price becomes the best one.
pub proof fn lemma_first_best_changed(best: Decimal, prices: Seq<Decimal>, price: Decimal, is_bid: bool)
    requires
        first_best(best, prices, is_bid),
        better(price, best, is_bid),
    ensures
        first_best(price, prices.push(price), is_bid),
{
    let all = prices.push(price);
    let last = prices.len() as int;
    assert(all[last] == price);
    below_is_irreflexive(price);
    assert forall|j: int| 0 <= j < last implies better(price, #[trigger] all[j], is_bid) by {
        assert(all[j] == prices[j]);
        assert(!better(prices[j], best, is_bid));
        below_is_transitive(price, best, prices[j]);
        below_is_transitive(prices[j], best, price);
    }
    assert forall|j: int| 0 <= j < all.len() implies !better(#[trigger] all[j], price, is_bid) by {
        if j < last {
            assert(better(price, all[j], is_bid));
            below_is_transitive(price, all[j], price);
            below_is_transitive(all[j], price, all[j]);
            below_is_irreflexive(all[j]);
        }
    }
}

/// The best price of a side of the book: the highest bid or the lowest ask above zero, and the
/// first of those that are equal. There is none exactly when no level has a price above zero.
pub fn best_price(levels: &Vec<Vec<Decimal>>, is_bid: bool) -> (best: Option<Decimal>)
    ensures
        best is None <==> level_prices(levels@).len() == 0,
        best matches Some(p) ==> first_best(p, level_prices(levels@), is_bid) && p.positive(),
{
    let mut best: Option<Decimal> = None;
    let mut i: usize = 0;
    while i < levels.len()
        invariant
            i <= levels@.len(),
            best is None <==> level_prices(levels@.take(i as int)).len() == 0,
            best matches Some(p) ==> first_best(p, level_prices(levels@.take(i as int)), is_bid)
                && p.positive(),
        decreases levels@.len() - i,
    {
        let ghost before = level_prices(levels@.take(i as int));
        assert(levels@.take(i + 1).drop_last() =~= levels@.take(i as int));
        if levels[i].len() > 0 && levels[i][0].is_positive() {
            let price = levels[i][0];
            let ghost now = level_prices(levels@.take(i + 1));
            assert(now == before.push(price));
            match best {
                None => {
                    best = Some(price);
                    proof {
                        below_is_irreflexive(price);
                        assert(now[0] == price);
                    }
                },
                Some(p) => {
                    let improves = if is_bid {
                        p.less(&price)
                    } else {
                        price.less(&p)
                    };
                    proof {
                        if improves {
                            lemma_first_best_changed(p, before, price, is_bid);
                        } else {
                            lemma_first_best_kept(p, before, price, is_bid);
                        }
                    }
                    if improves {
                        best = Some(price);
                    }
                },
            }
        }
        i += 1;
    }
    assert(levels@.take(levels@.len() as int) =~= levels@);
    best
}

/// Whether a message comes from a channel that carries the depth of a book.
pub open spec fn depth_channel(channel: Option<String>) -> bool {
    match channel {
        Some(name) => name@ == "push.depth.full"@ || name@ == "push.depth"@,
        None => false,
    }
}

/// Whether `offer` is what a message of MEXC says: it comes from a depth channel and names a
/// symbol, and `offer` has the best prices of both sides.
pub open spec fn depth_says(msg: MexcDepthMsg, offer: Offer) -> bool {
    &&& depth_channel(msg.channel)
    &&& msg.data matches Some(data) && first_best(offer.bid, level_prices(data.bids@), true)
        && first_best(offer.ask, level_prices(data.asks@), false)
    &&& msg.symbol matches Some(symbol) && offer.symbol == symbol@
    &&& offer.exchange == Exchange::Mexc
    &&& sound(offer.bid, offer.ask)
}

proof fn lemma_first_best_unique(a: Decimal, b: Decimal, prices: Seq<Decimal>, is_bid: bool)
    requires
        first_best(a, prices, is_bid),
        first_best(b, prices, is_bid),
    ensures
        a == b,
{
    let i = choose|i: int|
        {
            &&& 0 <= i < prices.len()
            &&& #[trigger] prices[i] == a
            &&& forall|j: int| 0 <= j < prices.len() ==> !better(#[trigger] prices[j], a, is_bid)
            &&& forall|j: int| 0 <= j < i ==> better(a, #[trigger] prices[j], is_bid)
        };
    let k = choose|i: int|
        {
            &&& 0 <= i < prices.len()
            &&& #[trigger] prices[i] == b
            &&& forall|j: int| 0 <= j < prices.len() ==> !better(#[trigger] prices[j], b, is_bid)
            &&& forall|j: int| 0 <= j < i ==> better(b, #[trigger] prices[j], is_bid)
        };
    if i < k {
        assert(better(b, prices[i], is_bid));
        assert(!better(prices[k], a, is_bid));
    } else if k < i {
        assert(better(a, prices[k], is_bid));
        assert(!better(prices[i], b, is_bid));
    }
}

/// The quote in a message of MEXC that came in at `recv_ts_ms`, if the message says one.
pub fn depth_quote(msg: MexcDepthMsg, recv_ts_ms: i64) -> (quote: Option<QuoteUpdate>)
    ensures
        quote matches Some(q) ==> depth_says(msg, q.offer()) && q.recv_ts_ms == recv_ts_ms,
        quote is None ==> forall|offer: Offer| !depth_says(msg, offer),
{
    let from_depth = match &msg.channel {
        Some(name) => *name.as_str() == *"push.depth.full" || *name.as_str() == *"push.depth",
        None => false,
    };
    if !from_depth {
        return None;
    }
    let data = match &msg.data {
        Some(data) => data,
        None => {
            return None;
        },
    };
    let best_bid = best_price(&data.bids, true);
    let best_ask = best_price(&data.asks, false);
    match (best_bid, best_ask) {
        (Some(bid), Some(ask)) => {
            assert forall|offer: Offer| depth_says(msg, offer) implies offer.bid == bid && offer.ask
                == ask by {
                lemma_first_best_unique(offer.bid, bid, level_prices(data.bids@), true);
                lemma_first_best_unique(offer.ask, ask, level_prices(data.asks@), false);
            }
            if !bid.is_positive() || !ask.is_positive() || !bid.less(&ask) {
                return None;
            }
            match &msg.symbol {
                Some(symbol) => Some(
                    QuoteUpdate {
                        exchange: Exchange::Mexc,
                        symbol: symbol.clone(),
                        bid,
                        ask,
                        recv_ts_ms,
                    },
                ),
                None => None,
            }
        },
        _ => None,
    }
}

/// The quote in a message of MEXC, received now, if the message says one.
pub fn parse_mexc_depth(msg: MexcDepthMsg) -> (quote: Option<QuoteUpdate>)
    ensures
        quote matches Some(q) ==> depth_says(msg, q.offer()) && clock_shows(q.recv_ts_ms as int),
        quote is None ==> forall|offer: Offer| !depth_says(msg, offer),
{
    depth_quote(msg, now_ms())
}

/// A message of an exchange says at most one offer: two that it says are the same.
pub proof fn depth_says_one(msg: MexcDepthMsg, a: Offer, b: Offer)
    requires
        depth_says(msg, a),
        depth_says(msg, b),
    ensures
        a == b,
{
    let data = msg.data->0;
    lemma_first_best_unique(a.bid, b.bid, level_prices(data.bids@), true);
    lemma_first_best_unique(a.ask, b.ask, level_prices(data.asks@), false);
}

proof fn lemma_ticker_offers_sound(items: Seq<JsonView>)
    ensures
        forall|i: int|
            0 <= i < ticker_offers(items).len() ==> sound(
                (#[trigger] ticker_offers(items)[i]).bid,
                ticker_offers(items)[i].ask,
            ),
    decreases items.len(),
{
    if items.len() > 0 {
        lemma_ticker_offers_sound(items.drop_last());
        let before = ticker_offers(items.drop_last());
        assert forall|i: int| 0 <= i < ticker_offers(items).len() implies sound(
            (#[trigger] ticker_offers(items)[i]).bid,
            ticker_offers(items)[i].ask,
        ) by {
            if i < before.len() {
                assert(ticker_offers(items)[i] == before[i]);
            }
        }
    }
}

/// Whatever an exchange sends, each quote that comes of it has prices above zero, and its bid lies
/// below its ask.
pub proof fn every_quote_is_sound(text: Seq<char>, msg: MexcDepthMsg, offer: Offer)
    ensures
        forall|i: int|
            0 <= i < book_offers(text).len() ==> sound(
                (#[trigger] book_offers(text)[i]).bid,
                book_offers(text)[i].ask,
            ),
        depth_says(msg, offer) ==> sound(offer.bid, offer.ask),
{
    if let Some(v) = json_parsed(text) {
        let data = match field(v, "data"@) {
            Some(d) => d,
            None => v,
        };
        match data {
            JsonView::Array(items) => {
                lemma_ticker_offers_sound(items);
            },
            single => {
                lemma_ticker_offers_sound(seq![single]);
            },
        }
    }
}

// What is sent to the exchanges.

/// The names of the streams of `symbols` at Binance.
pub open spec fn stream_names(symbols: Seq<Seq<char>>) -> Seq<Seq<char>> {
    symbols.map_values(|symbol: Seq<char>| stream_symbol(symbol) + "@bookTicker"@)
}

/// The address of the combined stream of `symbols` at Binance.
pub open spec fn stream_address(base: Seq<char>, symbols: Seq<Seq<char>>) -> Seq<char> {
    base + "?streams="@ + joined(stream_names(symbols), "/"@)
}

/// The address of the combined stream of `symbols` at Binance.
pub fn binance_url(base: &str, symbols: &Vec<String>) -> (url: String)
    ensures
        url@ == stream_address(base@, texts(symbols@)),
{
    let mut streams: Vec<String> = Vec::new();
    let mut i: usize = 0;
    while i < symbols.len()
        invariant
            i <= symbols@.len(),
            texts(streams@) == stream_names(texts(symbols@).take(i as int)),
        decreases symbols@.len() - i,
    {
        let name = binance_stream_symbol(symbols[i].as_str()).concat("@bookTicker");
        let ghost before = texts(streams@);
        streams.push(name);
        assert(texts(streams@) =~= before.push(name@));
        assert(texts(streams@) =~= stream_names(texts(symbols@).take(i + 1)));
        i += 1;
    }
    assert(texts(symbols@).take(symbols@.len() as int) =~= texts(symbols@));
    base.to_string().concat("?streams=").concat(join(&streams, "/").as_str())
}

/// The message that asks MEXC for the depth of the book of `symbol`.
pub open spec fn subscription(symbol: Seq<char>) -> Seq<char> {
    "{\"method\":\"sub.depth.full\",\"param\":{\"limit\":5,\"symbol\":"@ + json_quoted(symbol) + "}}"@
}

/// The message that asks MEXC for the depth of the book of `symbol`.
pub fn mexc_subscription(symbol: &str) -> (message: String)
    ensures
        message@ == subscription(symbol@),
{
    "{\"method\":\"sub.depth.full\",\"param\":{\"limit\":5,\"symbol\":".to_string().concat(
        quoted(symbol).as_str(),
    ).concat("}}")
}

/// The message that keeps the connection to MEXC alive.
pub fn mexc_ping() -> (message: String)
    ensures
        message@ == "{\"method\":\"ping\"}"@,
{
    "{\"method\":\"ping\"}".to_string()
}

/// A lower case letter of ASCII as its upper case letter, and each other character as it is.
pub open spec fn upper(c: char) -> char {
    if 'a' <= c <= 'z' {
        (c as u32 - 32) as char
    } else {
        c
    }
}

/// Whether `c` can stand in the name of a coin: it is neither an underscore nor a lower case letter
/// of ASCII.
pub open spec fn coin_char(c: char) -> bool {
    c != '_' && !('a' <= c <= 'z')
}

proof fn lemma_stream_letters_joined(a: Seq<char>, b: Seq<char>)
    ensures
        stream_letters(a + b) == stream_letters(a) + stream_letters(b),
    decreases b.len(),
{
    if b.len() == 0 {
        assert(a + b =~= a);
        assert(stream_letters(b) =~= Seq::<char>::empty());
    } else {
        assert((a + b).drop_last() =~= a + b.drop_last());
        lemma_stream_letters_joined(a, b.drop_last());
        assert(stream_letters(a + b) =~= stream_letters(a) + stream_letters(b));
    }
}

proof fn lemma_coin_letters(coin: Seq<char>)
    requires
        forall|i: int| 0 <= i < coin.len() ==> coin_char(#[trigger] coin[i]),
    ensures
        stream_letters(coin) == coin.map_values(|c: char| lower(c)),
    decreases coin.len(),
{
    if coin.len() == 0 {
        assert(stream_letters(coin) =~= coin.map_values(|c: char| lower(c)));
    } else {
        lemma_coin_letters(coin.drop_last());
        assert(coin_char(coin.last()));
        assert(stream_letters(coin) =~= coin.map_values(|c: char| lower(c)));
    }
}

/// The quotes of a stream come back under the symbol that the stream was asked for: Binance names
/// a contract as its stream, in upper case letters, and that name stands for the symbol again. The
/// one coin that is left out shares its stream with PEPE.
pub proof fn stream_comes_back(coin: Seq<char>)
    requires
        forall|i: int| 0 <= i < coin.len() ==> coin_char(#[trigger] coin[i]),
        coin != "1000PEPE"@,
    ensures
        normalized(
            stream_symbol(coin + "_USDT"@).map_values(|c: char| upper(c)),
        ) == coin + "_USDT"@,
{
    reveal_strlit("_USDT");
    reveal_strlit("USDT");
    reveal_strlit("PEPE_USDT");
    reveal_strlit("1000pepeusdt");
    reveal_strlit("1000PEPEUSDT");
    reveal_strlit("1000PEPE");
    let symbol = coin + "_USDT"@;
    let up = |c: char| upper(c);
    if symbol == "PEPE_USDT"@ {
        assert("1000pepeusdt"@.map_values(up) =~= "1000PEPEUSDT"@);
    } else {
        let tail = "_USDT"@;
        lemma_stream_letters_joined(coin, tail);
        lemma_coin_letters(coin);
        assert(stream_letters(tail) =~= seq!['u', 's', 'd', 't']) by {
            reveal_with_fuel(stream_letters, 6);
            assert(tail.drop_last() =~= seq!['_', 'U', 'S', 'D']);
            assert(tail.drop_last().drop_last() =~= seq!['_', 'U', 'S']);
            assert(tail.drop_last().drop_last().drop_last() =~= seq!['_', 'U']);
            assert(tail.drop_last().drop_last().drop_last().drop_last() =~= seq!['_']);
            assert(tail.drop_last().drop_last().drop_last().drop_last().drop_last()
                =~= Seq::<char>::empty());
        }
        let name = stream_symbol(symbol).map_values(up);
        assert(name =~= coin + "USDT"@) by {
            assert forall|i: int| 0 <= i < coin.len() implies upper(lower(#[trigger] coin[i]))
                == coin[i] by {
                assert(coin_char(coin[i]));
            }
        }
        assert(name.subrange(name.len() - 4, name.len() as int) =~= "USDT"@);
        assert(name.subrange(0, name.len() - 4) =~= coin);
        if name == "1000PEPEUSDT"@ {
            assert(coin =~= "1000PEPEUSDT"@.subrange(0, 8));
            assert("1000PEPEUSDT"@.subrange(0, 8) =~= "1000PEPE"@);
        }
    }
}

} // verus!
