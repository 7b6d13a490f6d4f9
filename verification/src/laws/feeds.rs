//! What the messages of the exchanges say, and what is asked of them.

use vstd::prelude::*;

use crate::decimal::{below, below_is_irreflexive, decimal_parsed, decimal_quotient, Decimal};
use crate::json::{field, json_quoted, JsonView};
use crate::laws::objects::{fields_text, lemma_field_follows, object_text};
use crate::quotes::{
    better, depth_says, first_best, lemma_first_best_changed, lemma_first_best_kept, level_prices, lower, message_offers, normalized, offers, sound,
    stream_address, stream_letters, stream_names, stream_symbol, subscription, ticker_offer,
    ticker_offers, watched, Exchange, MexcDepthData, MexcDepthMsg, Offer, QuoteUpdate,
};
use crate::text::{free_of, joined, pieces, split_undoes_join};

verus! {

// Tickers of Binance.

/// Whether `v` is a ticker that names `name` and holds the texts `b` and `a` as its prices.
pub open spec fn is_ticker(v: JsonView, name: Seq<char>, b: Seq<char>, a: Seq<char>) -> bool {
    ||| v is Object && field(v, seq!['s']) == Some(JsonView::Text(name)) && field(v, seq!['b'])
        == Some(JsonView::Text(b)) && field(v, seq!['a']) == Some(JsonView::Text(a))
    ||| v == JsonView::Array(seq![JsonView::Text(name), JsonView::Text(b), JsonView::Text(a)])
}

/// Whether `price` is what the text of a ticker says for one unit: the contract on a thousand PEPE
/// is quoted by the thousand, each other one as it is.
pub open spec fn says_price(name: Seq<char>, text: Seq<char>, price: Decimal) -> bool {
    decimal_parsed(text) matches Some(read) && (if name == "1000PEPEUSDT"@ {
        decimal_quotient(read, Decimal::made(1000, 0)) == Some(price)
    } else {
        price == read
    })
}

/// A ticker says a bid and an ask of Binance exactly where both its texts are numbers above zero,
/// the bid below the ask; and these numbers are what it says.
pub proof fn tickers_say_their_prices(
    v: JsonView,
    name: Seq<char>,
    b: Seq<char>,
    a: Seq<char>,
    bid: Decimal,
    ask: Decimal,
)
    requires
        is_ticker(v, name, b, a),
        says_price(name, b, bid),
        says_price(name, a, ask),
    ensures
        ticker_offer(v) is Some <==> bid.mantissa_spec() > 0 && ask.mantissa_spec() > 0 && below(
            bid,
            ask,
        ),
        ticker_offer(v) matches Some(o) ==> o.bid == bid && o.ask == ask && o.exchange
            == Exchange::Binance && o.symbol == normalized(name),
{
    reveal_strlit("s");
    reveal_strlit("b");
    reveal_strlit("a");
    assert("s"@ =~= seq!['s'] && "b"@ =~= seq!['b'] && "a"@ =~= seq!['a']);
}

/// Whatever says a quote is a ticker with prices.
pub proof fn only_tickers_say_prices(v: JsonView, o: Offer)
    requires
        ticker_offer(v) == Some(o),
    ensures
        exists|name: Seq<char>, b: Seq<char>, a: Seq<char>| #[trigger]
            is_ticker(v, name, b, a) && says_price(name, b, o.bid) && says_price(name, a, o.ask)
                && o.symbol == normalized(name),
        o.exchange == Exchange::Binance,
        sound(o.bid, o.ask),
        o.bid.mantissa_spec() > 0 && o.ask.mantissa_spec() > 0 && below(o.bid, o.ask),
{
    reveal_strlit("s");
    reveal_strlit("b");
    reveal_strlit("a");
    assert("s"@ =~= seq!['s'] && "b"@ =~= seq!['b'] && "a"@ =~= seq!['a']);
    let (name, b, a) = crate::quotes::ticker_texts(v)->0;
    if let JsonView::Array(items) = v {
        assert(items =~= seq![JsonView::Text(name), JsonView::Text(b), JsonView::Text(a)]);
    }
    assert(is_ticker(v, name, b, a));
}

/// Each ticker with prices in a row gives one quote, in the order of the row, and nothing else gives
/// one.
pub proof fn each_ticker_gives_its_quote(items: Seq<JsonView>)
    ensures
        ticker_offers(items).len() <= items.len(),
        forall|i: int|
            0 <= i < items.len() && ticker_offer(#[trigger] items[i]) is Some ==> ticker_offers(
                items,
            ).contains(ticker_offer(items[i])->0),
        forall|k: int|
            0 <= k < ticker_offers(items).len() ==> exists|i: int|
                0 <= i < items.len() && ticker_offer(#[trigger] items[i]) == Some(
                    #[trigger] ticker_offers(items)[k],
                ),
        (forall|i: int| 0 <= i < items.len() ==> ticker_offer(#[trigger] items[i]) is Some)
            ==> ticker_offers(items) == Seq::new(items.len(), |i: int| ticker_offer(items[i])->0),
    decreases items.len(),
{
    if items.len() > 0 {
        let rest = items.drop_last();
        let last = items.last();
        let (before, all) = (ticker_offers(rest), ticker_offers(items));
        each_ticker_gives_its_quote(rest);
        assert forall|i: int|
            0 <= i < items.len() && ticker_offer(#[trigger] items[i]) is Some implies all.contains(
            ticker_offer(items[i])->0,
        ) by {
            if i < rest.len() {
                assert(rest[i] == items[i]);
                assert(before.contains(ticker_offer(rest[i])->0));
                let k = choose|k: int| 0 <= k < before.len() && before[k] == ticker_offer(rest[i])->0;
                assert(all[k] == before[k]);
            } else {
                assert(all[all.len() - 1] == ticker_offer(last)->0);
            }
        }
        assert forall|k: int| 0 <= k < all.len() implies exists|i: int|
            0 <= i < items.len() && ticker_offer(#[trigger] items[i]) == Some(#[trigger] all[k]) by {
            if k < before.len() {
                assert(all[k] == before[k]);
                let i = choose|i: int|
                    0 <= i < rest.len() && ticker_offer(#[trigger] rest[i]) == Some(before[k]);
                assert(items[i] == rest[i]);
            } else {
                assert(ticker_offer(items[items.len() - 1]) == Some(all[k]));
            }
        }
        if forall|i: int| 0 <= i < items.len() ==> ticker_offer(#[trigger] items[i]) is Some {
            assert forall|i: int| 0 <= i < rest.len() implies ticker_offer(
                #[trigger] rest[i],
            ) is Some by {
                assert(rest[i] == items[i]);
            }
            assert(ticker_offer(items[items.len() - 1]) is Some);
            assert(all =~= Seq::new(items.len(), |i: int| ticker_offer(items[i])->0));
        }
    } else {
        assert(ticker_offers(items) =~= Seq::new(items.len(), |i: int| ticker_offer(items[i])->0));
    }
}

/// The tickers of a message stand in its field `data`, where it has one, and else are the message;
/// and a single ticker counts as a row of one.
pub proof fn messages_hold_their_tickers(v: JsonView, data: JsonView)
    requires
        data == (match field(v, seq!['d', 'a', 't', 'a']) {
            Some(d) => d,
            None => v,
        }),
    ensures
        data matches JsonView::Array(items) ==> message_offers(v) == ticker_offers(items),
        !(data is Array) ==> message_offers(v) == (match ticker_offer(data) {
            Some(o) => seq![o],
            None => Seq::empty(),
        }),
{
    reveal_strlit("data");
    assert("data"@ =~= seq!['d', 'a', 't', 'a']);
    if !(data is Array) {
        reveal_with_fuel(ticker_offers, 2);
        assert(seq![data].drop_last() =~= Seq::<JsonView>::empty());
        assert(message_offers(v) =~= (match ticker_offer(data) {
            Some(o) => seq![o],
            None => Seq::empty(),
        }));
    }
}

/// Exactly the quotes of watched symbols are kept, each as it is.
pub proof fn watched_quotes_are_kept(quotes: Seq<QuoteUpdate>, symbols: Seq<Seq<char>>)
    ensures
        forall|i: int|
            0 <= i < quotes.len() && symbols.contains((#[trigger] quotes[i]).symbol@) ==> watched(
                quotes,
                symbols,
            ).contains(quotes[i]),
        forall|k: int|
            0 <= k < watched(quotes, symbols).len() ==> symbols.contains(
                (#[trigger] watched(quotes, symbols)[k]).symbol@,
            ) && quotes.contains(watched(quotes, symbols)[k]),
        watched(quotes, symbols).len() <= quotes.len(),
        (forall|i: int| 0 <= i < quotes.len() ==> symbols.contains((#[trigger] quotes[i]).symbol@))
            ==> watched(quotes, symbols) == quotes,
    decreases quotes.len(),
{
    reveal(Seq::filter);
    if quotes.len() > 0 {
        let rest = quotes.drop_last();
        let (before, all) = (watched(rest, symbols), watched(quotes, symbols));
        watched_quotes_are_kept(rest, symbols);
        assert forall|i: int|
            0 <= i < quotes.len() && symbols.contains(
                (#[trigger] quotes[i]).symbol@,
            ) implies all.contains(quotes[i]) by {
            if i < rest.len() {
                assert(rest[i] == quotes[i]);
                assert(before.contains(rest[i]));
                let k = choose|k: int| 0 <= k < before.len() && before[k] == rest[i];
                assert(all[k] == before[k]);
            } else {
                assert(all[all.len() - 1] == quotes.last());
            }
        }
        assert forall|k: int| 0 <= k < all.len() implies symbols.contains(
            (#[trigger] all[k]).symbol@,
        ) && quotes.contains(all[k]) by {
            if k < before.len() {
                assert(all[k] == before[k]);
                assert(rest.contains(before[k]));
                let i = choose|i: int| 0 <= i < rest.len() && rest[i] == before[k];
                assert(quotes[i] == all[k]);
            } else {
                assert(quotes[quotes.len() - 1] == all[k]);
            }
        }
        if forall|i: int| 0 <= i < quotes.len() ==> symbols.contains((#[trigger] quotes[i]).symbol@) {
            assert forall|i: int| 0 <= i < rest.len() implies symbols.contains(
                (#[trigger] rest[i]).symbol@,
            ) by {
                assert(rest[i] == quotes[i]);
            }
            assert(symbols.contains(quotes[quotes.len() - 1].symbol@));
            assert(all =~= quotes);
        }
    } else {
        assert(watched(quotes, symbols) =~= quotes);
    }
}

/// What a quote offers is what it says: its exchange, its symbol and its two prices, each in its
/// place.
pub proof fn quotes_offer_what_they_say(q: QuoteUpdate, quotes: Seq<QuoteUpdate>, i: int)
    requires
        0 <= i < quotes.len(),
    ensures
        q.offer().exchange == q.exchange,
        q.offer().symbol == q.symbol@,
        q.offer().bid == q.bid,
        q.offer().ask == q.ask,
        offers(quotes).len() == quotes.len(),
        offers(quotes)[i].bid == quotes[i].bid && offers(quotes)[i].ask == quotes[i].ask,
{
}

// Names.

/// A contract of Binance on a coin in USDT has the name of the coin, an underscore and `USDT`. The
/// one on a thousand PEPE is the one on PEPE, and a name that does not end with `USDT` stays.
pub proof fn names_of_binance_are_known(coin: Seq<char>, name: Seq<char>)
    ensures
        coin != "1000PEPE"@ ==> normalized(coin + seq!['U', 'S', 'D', 'T']) == coin
            + seq!['_', 'U', 'S', 'D', 'T'],
        normalized("1000PEPEUSDT"@) == "PEPE_USDT"@,
        name.len() < 4 || name.subrange(name.len() - 4, name.len() as int) != seq![
            'U',
            'S',
            'D',
            'T',
        ] ==> normalized(name) == name,
{
    reveal_strlit("USDT");
    reveal_strlit("_USDT");
    reveal_strlit("1000PEPE");
    reveal_strlit("1000PEPEUSDT");
    assert("USDT"@ =~= seq!['U', 'S', 'D', 'T']);
    assert("_USDT"@ =~= seq!['_', 'U', 'S', 'D', 'T']);
    let whole = coin + seq!['U', 'S', 'D', 'T'];
    assert(whole.subrange(whole.len() - 4, whole.len() as int) =~= "USDT"@);
    assert(whole.subrange(0, whole.len() - 4) =~= coin);
    if whole == "1000PEPEUSDT"@ {
        assert(coin =~= "1000PEPEUSDT"@.subrange(0, 8));
        assert("1000PEPEUSDT"@.subrange(0, 8) =~= "1000PEPE"@);
    }
    let pepe = "1000PEPEUSDT"@;
    assert(pepe.subrange(pepe.len() - 4, pepe.len() as int) =~= "USDT"@);
}

/// The stream of PEPE is that of the contract on a thousand. Each other stream has the name of its
/// symbol in lower case and without underscores: no such letter is lost, none is added, and none
/// stands in upper case.
pub proof fn streams_are_in_lower_case(symbol: Seq<char>)
    ensures
        stream_symbol("PEPE_USDT"@) == "1000pepeusdt"@,
        symbol != "PEPE_USDT"@ ==> {
            &&& stream_symbol(symbol) == stream_letters(symbol)
            &&& forall|i: int|
                0 <= i < stream_symbol(symbol).len() ==> (#[trigger] stream_symbol(symbol)[i]) != '_'
                    && !('A' <= stream_symbol(symbol)[i] <= 'Z')
            &&& stream_symbol(symbol).len() + underscores(symbol) == symbol.len()
        },
        free_of(symbol, '_') && symbol != "PEPE_USDT"@ ==> stream_symbol(symbol)
            == symbol.map_values(|c: char| lower(c)),
{
    if symbol != "PEPE_USDT"@ {
        lemma_stream_letters(symbol);
    }
}

/// How many underscores stand in `s`.
pub open spec fn underscores(s: Seq<char>) -> nat
    decreases s.len(),
{
    if s.len() == 0 {
        0
    } else {
        underscores(s.drop_last()) + (if s.last() == '_' {
            1nat
        } else {
            0nat
        })
    }
}

proof fn lemma_stream_letters(s: Seq<char>)
    ensures
        stream_letters(s).len() + underscores(s) == s.len(),
        forall|i: int|
            0 <= i < stream_letters(s).len() ==> (#[trigger] stream_letters(s)[i]) != '_' && !('A'
                <= stream_letters(s)[i] <= 'Z'),
        free_of(s, '_') ==> stream_letters(s) == s.map_values(|c: char| lower(c)),
    decreases s.len(),
{
    if s.len() > 0 {
        let rest = s.drop_last();
        lemma_stream_letters(rest);
        assert forall|i: int| 0 <= i < stream_letters(s).len() implies (
        #[trigger] stream_letters(s)[i]) != '_' && !('A' <= stream_letters(s)[i] <= 'Z') by {
            if i < stream_letters(rest).len() {
                assert(stream_letters(s)[i] == stream_letters(rest)[i]);
            } else {
                assert(stream_letters(s)[i] == lower(s.last()));
            }
        }
        if free_of(s, '_') {
            assert forall|i: int| 0 <= i < rest.len() implies #[trigger] rest[i] != '_' by {
                assert(rest[i] == s[i]);
            }
            assert(s[s.len() - 1] != '_');
            assert(stream_letters(s) =~= s.map_values(|c: char| lower(c)));
        }
    } else {
        assert(stream_letters(s) =~= s.map_values(|c: char| lower(c)));
    }
}

/// Small letters stand for large ones, and every other character for itself.
pub proof fn lower_case_is_that_of_the_alphabet(c: char)
    ensures
        lower('A') == 'a' && lower('M') == 'm' && lower('Z') == 'z',
        'A' <= c <= 'Z' ==> 'a' <= lower(c) <= 'z' && lower(c) as int - 'a' as int == c as int
            - 'A' as int,
        !('A' <= c <= 'Z') ==> lower(c) == c,
{
}

/// The address of the streams asks for the best prices of each symbol in its turn: behind the sign
/// for it, one stream for each symbol, with slashes between them.
pub proof fn address_asks_for_each_symbol(base: Seq<char>, symbols: Seq<Seq<char>>)
    requires
        symbols.len() > 0,
        forall|i: int| 0 <= i < symbols.len() ==> free_of(#[trigger] stream_symbol(symbols[i]), '/'),
    ensures
        ({
            let start = base + "?streams="@;
            let address = stream_address(base, symbols);
            &&& start.len() <= address.len()
            &&& address.subrange(0, start.len() as int) == start
            &&& pieces(address.subrange(start.len() as int, address.len() as int), '/') == Seq::new(
                symbols.len(),
                |i: int| stream_symbol(symbols[i]) + "@bookTicker"@,
            )
        }),
{
    reveal_strlit("@bookTicker");
    reveal_strlit("/");
    assert("/"@ =~= seq!['/']);
    let names = stream_names(symbols);
    let start = base + "?streams="@;
    let address = stream_address(base, symbols);
    assert(names =~= Seq::new(symbols.len(), |i: int| stream_symbol(symbols[i]) + "@bookTicker"@));
    assert(address.subrange(0, start.len() as int) =~= start);
    assert(address.subrange(start.len() as int, address.len() as int) =~= joined(names, "/"@));
    assert forall|i: int| 0 <= i < names.len() implies free_of(#[trigger] names[i], '/') by {
        assert(names[i] == stream_symbol(symbols[i]) + "@bookTicker"@);
        assert(free_of(stream_symbol(symbols[i]), '/'));
        assert(free_of("@bookTicker"@, '/'));
    }
    split_undoes_join(names, '/');
}

/// The message to MEXC asks for the five best levels of the book of the symbol.
pub proof fn subscription_asks_for_five_levels(symbol: Seq<char>)
    ensures
        subscription(symbol) == object_text(
            seq![
                ("method"@, seq!['"'] + "sub.depth.full"@ + seq!['"']),
                (
                    "param"@,
                    object_text(seq![("limit"@, seq!['5']), ("symbol"@, json_quoted(symbol))]),
                ),
            ],
        ),
{
    reveal_strlit("method");
    reveal_strlit("sub.depth.full");
    reveal_strlit("param");
    reveal_strlit("limit");
    reveal_strlit("symbol");
    reveal_strlit("{\"method\":\"sub.depth.full\",\"param\":{\"limit\":5,\"symbol\":");
    reveal_strlit("}}");
    let none = Seq::<(Seq<char>, Seq<char>)>::empty();
    let method = seq!['"'] + "sub.depth.full"@ + seq!['"'];
    let g1 = none.push(("limit"@, seq!['5']));
    let g2 = g1.push(("symbol"@, json_quoted(symbol)));
    let l = seq!['"'] + "limit"@ + seq!['"', ':'];
    lemma_field_follows(none, seq!['{'], "limit"@, l, seq!['5']);
    let s = seq![',', '"'] + "symbol"@ + seq!['"', ':'];
    lemma_field_follows(g1, fields_text(g1), "symbol"@, s, json_quoted(symbol));
    let param = fields_text(g2) + seq!['}'];
    let f1 = none.push(("method"@, method));
    let f2 = f1.push(("param"@, param));
    let m = seq!['"'] + "method"@ + seq!['"', ':'];
    lemma_field_follows(none, seq!['{'], "method"@, m, method);
    let p = seq![',', '"'] + "param"@ + seq!['"', ':'];
    lemma_field_follows(f1, fields_text(f1), "param"@, p, param);
    let whole = seq!['{'] + m + method + p + (seq!['{'] + l + seq!['5'] + s);
    assert("{\"method\":\"sub.depth.full\",\"param\":{\"limit\":5,\"symbol\":"@ =~= whole);
    assert(g2 =~= seq![("limit"@, seq!['5']), ("symbol"@, json_quoted(symbol))]);
    assert(f2 =~= seq![("method"@, method), ("param"@, param)]);
    assert("}}"@ =~= seq!['}', '}']);
    assert(subscription(symbol) =~= fields_text(f2) + seq!['}']);
}

// The book of MEXC.

proof fn lemma_level_prices(levels: Seq<Vec<Decimal>>)
    ensures
        forall|i: int|
            0 <= i < levels.len() && (#[trigger] levels[i])@.len() > 0
                && levels[i]@[0].mantissa_spec() > 0 ==> level_prices(levels).contains(levels[i]@[0]),
        forall|k: int|
            0 <= k < level_prices(levels).len() ==> exists|i: int|
                0 <= i < levels.len() && (#[trigger] levels[i])@.len() > 0 && levels[i]@[0]
                    == #[trigger] level_prices(levels)[k] && levels[i]@[0].mantissa_spec() > 0,
    decreases levels.len(),
{
    if levels.len() > 0 {
        let rest = levels.drop_last();
        let (before, all) = (level_prices(rest), level_prices(levels));
        lemma_level_prices(rest);
        assert forall|i: int|
            0 <= i < levels.len() && (#[trigger] levels[i])@.len() > 0
                && levels[i]@[0].mantissa_spec() > 0 implies all.contains(levels[i]@[0]) by {
            if i < rest.len() {
                assert(rest[i] == levels[i]);
                assert(before.contains(rest[i]@[0]));
                let k = choose|k: int| 0 <= k < before.len() && before[k] == rest[i]@[0];
                assert(all[k] == before[k]);
            } else {
                assert(all[all.len() - 1] == levels.last()@[0]);
            }
        }
        assert forall|k: int| 0 <= k < all.len() implies exists|i: int|
            0 <= i < levels.len() && (#[trigger] levels[i])@.len() > 0 && levels[i]@[0]
                == #[trigger] all[k] && levels[i]@[0].mantissa_spec() > 0 by {
            if k < before.len() {
                assert(all[k] == before[k]);
                let i = choose|i: int|
                    0 <= i < rest.len() && (#[trigger] rest[i])@.len() > 0 && rest[i]@[0]
                        == before[k] && rest[i]@[0].mantissa_spec() > 0;
                assert(levels[i] == rest[i]);
            } else {
                let last = levels.len() - 1;
                assert(levels[last]@[0] == all[k]);
            }
        }
    }
}

/// The quote in a message of MEXC comes from the depth of the book of the symbol that it names. Its
/// bid is the price of a level and none is higher; its ask is the price of a level and none is
/// lower. Levels without a price above zero do not count.
pub proof fn book_gives_its_best_prices(msg: MexcDepthMsg, offer: Offer, data: MexcDepthData)
    requires
        depth_says(msg, offer),
        msg.data == Some(data),
    ensures
        offer.exchange == Exchange::Mexc,
        msg.symbol matches Some(s) && s@ == offer.symbol,
        msg.channel matches Some(c) && (c@ == "push.depth.full"@ || c@ == "push.depth"@),
        offer.bid.mantissa_spec() > 0 && below(offer.bid, offer.ask),
        exists|i: int|
            0 <= i < data.bids@.len() && (#[trigger] data.bids@[i])@.len() > 0 && data.bids@[i]@[0]
                == offer.bid,
        exists|i: int|
            0 <= i < data.asks@.len() && (#[trigger] data.asks@[i])@.len() > 0 && data.asks@[i]@[0]
                == offer.ask,
        forall|i: int|
            0 <= i < data.bids@.len() && (#[trigger] data.bids@[i])@.len() > 0
                && data.bids@[i]@[0].mantissa_spec() > 0 ==> !below(offer.bid, data.bids@[i]@[0]),
        forall|i: int|
            0 <= i < data.asks@.len() && (#[trigger] data.asks@[i])@.len() > 0
                && data.asks@[i]@[0].mantissa_spec() > 0 ==> !below(data.asks@[i]@[0], offer.ask),
{
    let (bids, asks) = (level_prices(data.bids@), level_prices(data.asks@));
    lemma_level_prices(data.bids@);
    lemma_level_prices(data.asks@);
    let b = choose|i: int|
        {
            &&& 0 <= i < bids.len()
            &&& #[trigger] bids[i] == offer.bid
            &&& forall|j: int| 0 <= j < bids.len() ==> !better(#[trigger] bids[j], offer.bid, true)
            &&& forall|j: int| 0 <= j < i ==> better(offer.bid, #[trigger] bids[j], true)
        };
    assert(bids[b] == offer.bid);
    let a = choose|i: int|
        {
            &&& 0 <= i < asks.len()
            &&& #[trigger] asks[i] == offer.ask
            &&& forall|j: int| 0 <= j < asks.len() ==> !better(#[trigger] asks[j], offer.ask, false)
            &&& forall|j: int| 0 <= j < i ==> better(offer.ask, #[trigger] asks[j], false)
        };
    assert(asks[a] == offer.ask);
    assert forall|i: int|
        0 <= i < data.bids@.len() && (#[trigger] data.bids@[i])@.len() > 0
            && data.bids@[i]@[0].mantissa_spec() > 0 implies !below(
        offer.bid,
        data.bids@[i]@[0],
    ) by {
        let j = choose|j: int| 0 <= j < bids.len() && bids[j] == data.bids@[i]@[0];
        assert(!better(bids[j], offer.bid, true));
    }
    assert forall|i: int|
        0 <= i < data.asks@.len() && (#[trigger] data.asks@[i])@.len() > 0
            && data.asks@[i]@[0].mantissa_spec() > 0 implies !below(
        data.asks@[i]@[0],
        offer.ask,
    ) by {
        let j = choose|j: int| 0 <= j < asks.len() && asks[j] == data.asks@[i]@[0];
        assert(!better(asks[j], offer.ask, false));
    }
}

/// A message from a depth channel that names its symbol, and whose best bid lies below its best ask,
/// says a quote.
pub proof fn books_with_both_sides_say_a_quote(
    msg: MexcDepthMsg,
    data: MexcDepthData,
    bid: Decimal,
    ask: Decimal,
)
    requires
        msg.channel matches Some(c) && (c@ == "push.depth.full"@ || c@ == "push.depth"@),
        msg.symbol is Some,
        msg.data == Some(data),
        first_best(bid, level_prices(data.bids@), true),
        first_best(ask, level_prices(data.asks@), false),
        bid.mantissa_spec() > 0,
        ask.mantissa_spec() > 0,
        below(bid, ask),
    ensures
        depth_says(
            msg,
            (Offer { exchange: Exchange::Mexc, symbol: msg.symbol->0@, bid, ask }),
        ),
{
}

/// As soon as there is a price, one is the best: it stands among them, none is better, and those
/// before it are worse.
pub proof fn some_price_is_the_best(prices: Seq<Decimal>, is_bid: bool)
    requires
        prices.len() > 0,
    ensures
        exists|best: Decimal| #[trigger] first_best(best, prices, is_bid),
    decreases prices.len(),
{
    if prices.len() == 1 {
        below_is_irreflexive(prices[0]);
        assert(first_best(prices[0], prices, is_bid));
    } else {
        let rest = prices.drop_last();
        let last = prices.last();
        some_price_is_the_best(rest, is_bid);
        let best = choose|best: Decimal| #[trigger] first_best(best, rest, is_bid);
        assert(rest.push(last) =~= prices);
        if better(last, best, is_bid) {
            lemma_first_best_changed(best, rest, last, is_bid);
            assert(first_best(last, prices, is_bid));
        } else {
            lemma_first_best_kept(best, rest, last, is_bid);
            assert(first_best(best, prices, is_bid));
        }
    }
}

} // verus!
