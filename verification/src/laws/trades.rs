//! What is sent to MEXC for a trade, and how it goes on from each answer.

use vstd::prelude::*;

use crate::decimal::{
    decimal_text, half_even, made_parts, pow10, pow10_is_positive, size_of_int, Decimal,
};
use crate::json::{field, json_quoted, JsonView};
use crate::laws::measures::in_range;
use crate::laws::objects::{fields_text, lemma_field_follows, object_text};
use crate::text::{begins_with, digits, int_text};
use crate::trade::{
    accepted, gets, headers_view, hex_text, hmac_sha256, next_stage, order_id, order_text, posts,
    rejection, reply_in, says_filled, ActionView, MexcTradeClient, OrderView, SignedRequest,
    StageView, Trade, TradeEvent,
};

verus! {

// Orders.

/// A rounded number has at most as many digits behind the point as asked for, and lies no further
/// from the number than half of the last of these digits.
pub proof fn rounding_is_near(d: Decimal, places: nat)
    requires
        in_range(d),
        places <= 28,
    ensures
        d.rounded(places).scale_spec() <= places,
        d.rounded(places).scale_spec() <= d.scale_spec(),
        ({
            let r = d.rounded(places);
            let unit = pow10((d.scale_spec() - r.scale_spec()) as nat);
            -(unit as int) <= 2 * (r.mantissa_spec() * unit - d.mantissa_spec()) <= unit
        }),
{
    let m = d.mantissa_spec();
    assert(pow10(0) == 1);
    if d.scale_spec() > places {
        let unit = pow10((d.scale_spec() - places) as nat);
        pow10_is_positive((d.scale_spec() - places) as nat);
        let size = size_of_int(m);
        let (q, r) = (size / unit, size % unit);
        assert(size == unit * q + r && 0 <= r < unit) by (nonlinear_arith)
            requires
                unit > 0,
                q == size / unit,
                r == size % unit,
        ;
        let n = half_even(size, unit);
        assert(n == q || n == q + 1);
        assert((q + 1) * unit == unit * q + unit) by (nonlinear_arith);
        assert(q * unit == unit * q) by (nonlinear_arith);
        assert(n <= size) by (nonlinear_arith)
            requires
                size == unit * q + r,
                0 <= r < unit,
                n == q || (n == q + 1 && (2 * r > unit || 2 * r == unit)),
                unit > 0,
        {
            if n == q + 1 {
                assert(r > 0);
                assert(unit * q >= q);
            } else {
                assert(unit * q >= q);
            }
        }
        made_parts(if m < 0 { -(n as int) } else { n as int }, places);
        assert((-(n as int)) * unit == -(n * unit)) by (nonlinear_arith);
    } else {
        assert(m * 1 == m) by (nonlinear_arith);
        assert(d.rounded(places) == d);
    }
}

/// The body of an order is a JSON object with the numbers of the order. Its price is that of the
/// order with at most one digit behind the point where the symbol begins with `BTC`, and with at
/// most two for every other symbol.
pub proof fn orders_say_what_is_ordered(o: OrderView)
    ensures
        order_text(o) == object_text(
            seq![
                ("leverage"@, int_text(o.leverage as int)),
                ("openType"@, seq!['1']),
                (
                    "price"@,
                    json_quoted(
                        decimal_text(
                            o.price.rounded(
                                if begins_with(o.symbol, seq!['B', 'T', 'C']) {
                                    1
                                } else {
                                    2
                                },
                            ),
                        ),
                    ),
                ),
                ("side"@, int_text(o.side as int)),
                ("symbol"@, json_quoted(o.symbol)),
                ("type"@, int_text(o.order_type as int)),
                ("vol"@, json_quoted(o.vol)),
            ],
        ),
{
    reveal_strlit("BTC");
    assert("BTC"@ =~= seq!['B', 'T', 'C']);
    let places: nat = if begins_with(o.symbol, seq!['B', 'T', 'C']) {
        1
    } else {
        2
    };
    let price = json_quoted(decimal_text(o.price.rounded(places)));
    reveal_strlit("leverage");
    reveal_strlit("openType");
    reveal_strlit("price");
    reveal_strlit("side");
    reveal_strlit("symbol");
    reveal_strlit("type");
    reveal_strlit("vol");
    reveal_strlit("{\"leverage\":");
    reveal_strlit(",\"openType\":1,\"price\":");
    reveal_strlit(",\"side\":");
    reveal_strlit(",\"symbol\":");
    reveal_strlit(",\"type\":");
    reveal_strlit(",\"vol\":");
    reveal_strlit("}");
    assert("}"@ =~= seq!['}']);
    let f0 = Seq::<(Seq<char>, Seq<char>)>::empty();
    let f1 = f0.push(("leverage"@, int_text(o.leverage as int)));
    let f2 = f1.push(("openType"@, seq!['1']));
    let f3 = f2.push(("price"@, price));
    let f4 = f3.push(("side"@, int_text(o.side as int)));
    let f5 = f4.push(("symbol"@, json_quoted(o.symbol)));
    let f6 = f5.push(("type"@, int_text(o.order_type as int)));
    let f7 = f6.push(("vol"@, json_quoted(o.vol)));
    let t1 = "{\"leverage\":"@ + int_text(o.leverage as int);
    let m1 = seq!['"'] + "leverage"@ + seq!['"', ':'];
    lemma_field_follows(f0, seq!['{'], "leverage"@, m1, int_text(o.leverage as int));
    assert("{\"leverage\":"@ =~= seq!['{'] + m1);
    assert(t1 == fields_text(f1));
    let m2 = seq![',', '"'] + "openType"@ + seq!['"', ':'];
    lemma_field_follows(f1, t1, "openType"@, m2, seq!['1']);
    let m3 = seq![',', '"'] + "price"@ + seq!['"', ':'];
    lemma_field_follows(f2, fields_text(f2), "price"@, m3, price);
    assert(",\"openType\":1,\"price\":"@ =~= m2 + seq!['1'] + m3);
    let t3 = t1 + ",\"openType\":1,\"price\":"@ + price;
    assert(t3 =~= t1 + m2 + seq!['1'] + m3 + price);
    assert(t3 == fields_text(f3));
    let m4 = seq![',', '"'] + "side"@ + seq!['"', ':'];
    assert(",\"side\":"@ =~= m4);
    lemma_field_follows(f3, t3, "side"@, m4, int_text(o.side as int));
    let t4 = t3 + m4 + int_text(o.side as int);
    let m5 = seq![',', '"'] + "symbol"@ + seq!['"', ':'];
    assert(",\"symbol\":"@ =~= m5);
    lemma_field_follows(f4, t4, "symbol"@, m5, json_quoted(o.symbol));
    let t5 = t4 + m5 + json_quoted(o.symbol);
    let m6 = seq![',', '"'] + "type"@ + seq!['"', ':'];
    assert(",\"type\":"@ =~= m6);
    lemma_field_follows(f5, t5, "type"@, m6, int_text(o.order_type as int));
    let t6 = t5 + m6 + int_text(o.order_type as int);
    let m7 = seq![',', '"'] + "vol"@ + seq!['"', ':'];
    assert(",\"vol\":"@ =~= m7);
    lemma_field_follows(f6, t6, "vol"@, m7, json_quoted(o.vol));
    assert(f7 =~= seq![
        ("leverage"@, int_text(o.leverage as int)),
        ("openType"@, seq!['1']),
        ("price"@, price),
        ("side"@, int_text(o.side as int)),
        ("symbol"@, json_quoted(o.symbol)),
        ("type"@, int_text(o.order_type as int)),
        ("vol"@, json_quoted(o.vol)),
    ]);
}

/// The price that an order carries lies within 0.05 of its price where the symbol begins with `BTC`,
/// and within 0.005 for every other symbol: the order is the one with the price `near`.
pub proof fn order_prices_are_near(o: OrderView, near: Decimal)
    requires
        in_range(o.price),
        near == o.price.rounded(
            if begins_with(o.symbol, seq!['B', 'T', 'C']) {
                1
            } else {
                2
            },
        ),
    ensures
        order_text(o) == order_text(OrderView { price: near, ..o }),
        near.scale_spec() <= o.price.scale_spec(),
        near.scale_spec() <= 2,
        ({
            let unit = pow10((o.price.scale_spec() - near.scale_spec()) as nat);
            -(unit as int) <= 2 * (near.mantissa_spec() * unit - o.price.mantissa_spec()) <= unit
        }),
{
    reveal_strlit("BTC");
    assert("BTC"@ =~= seq!['B', 'T', 'C']);
    let places: nat = if begins_with(o.symbol, seq!['B', 'T', 'C']) {
        1
    } else {
        2
    };
    rounding_is_near(o.price, places);
    orders_say_what_is_ordered(o);
    orders_say_what_is_ordered(OrderView { price: near, ..o });
    assert(near.rounded(places) == near);
}

/// Orders on two symbols that do not begin with `BTC` differ in nothing but the symbol.
pub proof fn other_symbols_are_treated_alike(o: OrderView, symbol: Seq<char>, price: Seq<char>)
    requires
        !begins_with(o.symbol, seq!['B', 'T', 'C']),
        !begins_with(symbol, seq!['B', 'T', 'C']),
        price == json_quoted(decimal_text(o.price.rounded(2))),
    ensures
        exists|start: Seq<char>, end: Seq<char>|
            order_text(o) == #[trigger] (start + json_quoted(o.symbol) + end) && order_text(
                OrderView { symbol, ..o },
            ) == start + json_quoted(symbol) + end,
{
    reveal_strlit("BTC");
    assert("BTC"@ =~= seq!['B', 'T', 'C']);
    let start = "{\"leverage\":"@ + int_text(o.leverage as int) + ",\"openType\":1,\"price\":"@
        + price + ",\"side\":"@ + int_text(o.side as int) + ",\"symbol\":"@;
    let end = ",\"type\":"@ + int_text(o.order_type as int) + ",\"vol\":"@ + json_quoted(o.vol)
        + "}"@;
    assert(order_text(o) =~= start + json_quoted(o.symbol) + end);
    assert(order_text(OrderView { symbol, ..o }) =~= start + json_quoted(symbol) + end);
}

// The orders of a trade.

/// A trade sends three orders at most: it opens at the market and at its leverage, is to be closed at
/// the target price, and is closed at the market where that failed. A long position is opened on
/// side 1 and closed on side 4, a short one on 3 and 2; all are for the same symbol and volume.
pub proof fn trades_send_these_orders(t: Trade)
    ensures
        ({
            let long = t.direction > 0;
            let opening = OrderView {
                symbol: t.symbol@,
                side: if long { 1 } else { 3 },
                order_type: 5,
                price: t.entry_price,
                vol: t.vol@,
                leverage: t.leverage,
            };
            let closing = OrderView {
                symbol: t.symbol@,
                side: if long { 4 } else { 2 },
                order_type: 1,
                price: t.target_price,
                vol: t.vol@,
                leverage: 0,
            };
            let forced = OrderView { order_type: 5, ..closing };
            let path = "/api/v1/private/order/submit"@;
            &&& t.action_at(StageView::Opening) == ActionView::Post(path, order_text(opening))
            &&& t.action_at(StageView::PlacingExit) == ActionView::Post(path, order_text(closing))
            &&& t.action_at(StageView::Forcing) == ActionView::Post(path, order_text(forced))
        }),
        forall|s: StageView|
            (#[trigger] t.action_at(s) matches ActionView::Post(path, _) && path
                == "/api/v1/private/order/submit"@) ==> s is Opening || s is PlacingExit
                || s is Forcing,
{
    reveal_strlit("/api/v1/private/order/submit");
    reveal_strlit("/api/v1/private/order/cancel");
    assert("/api/v1/private/order/submit"@[22] != "/api/v1/private/order/cancel"@[22]);
}

/// Between its orders, a trade waits for the sign to close as long as it may, asks for the order at
/// the target by its number, and takes that very order back.
pub proof fn trades_wait_and_look_after_their_order(t: Trade, id: Seq<char>)
    ensures
        t.action_at(StageView::Waiting(id)) == ActionView::Wait(t.safety_timeout_ms as nat),
        t.action_at(StageView::Checking(id)) == ActionView::Get(
            "/api/v1/private/order/get/"@ + id,
        ),
        t.action_at(StageView::Cancelling(id)) matches ActionView::Post(path, body) && path
            == "/api/v1/private/order/cancel"@ && body == seq!['['] + json_quoted(id) + seq![']'],
        t.action_at(StageView::Skipped) is Nothing,
        t.action_at(StageView::Done) is Nothing,
{
    reveal_strlit("[");
    reveal_strlit("]");
    assert("["@ =~= seq!['[']);
    assert("]"@ =~= seq![']']);
}

/// Each answer leads on: a position that was opened gets an order at the target, and one that was
/// not ends the trade. The number of the order at the target is kept until it is filled, which ends
/// the trade, or taken back. Only then, or where there is no such order, the position is closed at
/// the market, and that ends the trade whatever comes back.
pub proof fn answers_lead_on(event: TradeEvent, id: Seq<char>)
    ensures
        event is Reply ==> {
            let good = reply_in(event) matches Some(v) && field(v, "success"@) == Some(
                JsonView::Flag(true),
            );
            let filled = reply_in(event) matches Some(v) && (field(v, "data"@) matches Some(d)
                && (field(d, "state"@) matches Some(JsonView::Number(n, _)) && n == Some(3int)));
            &&& next_stage(StageView::Opening, event) == (if good {
                StageView::PlacingExit
            } else {
                StageView::Done
            })
            &&& good ==> next_stage(StageView::PlacingExit, event) == StageView::Waiting(
                order_id(reply_in(event)->0),
            )
            &&& !good ==> next_stage(StageView::PlacingExit, event) == StageView::Waiting(
                Seq::empty(),
            )
            &&& next_stage(StageView::Checking(id), event) == (if filled {
                StageView::Done
            } else {
                StageView::Cancelling(id)
            })
            &&& next_stage(StageView::Cancelling(id), event) == StageView::Forcing
            &&& next_stage(StageView::Forcing, event) == StageView::Done
            &&& next_stage(StageView::Waiting(id), event) == StageView::Waiting(id)
        },
        event is Woken ==> {
            &&& next_stage(StageView::Waiting(id), event) == (if id == Seq::<char>::empty() {
                StageView::Forcing
            } else {
                StageView::Checking(id)
            })
            &&& next_stage(StageView::Opening, event) == StageView::Opening
            &&& next_stage(StageView::PlacingExit, event) == StageView::PlacingExit
            &&& next_stage(StageView::Checking(id), event) == StageView::Checking(id)
            &&& next_stage(StageView::Cancelling(id), event) == StageView::Cancelling(id)
            &&& next_stage(StageView::Forcing, event) == StageView::Forcing
        },
        next_stage(StageView::Done, event) == StageView::Done,
        next_stage(StageView::Skipped, event) == StageView::Skipped,
{
    if id.len() == 0 {
        assert(id =~= Seq::<char>::empty());
    }
}

/// An answer takes an order exactly where its field `success` is true. The number of the order is
/// what its field `data` says.
pub proof fn answers_are_read_as_they_stand(v: JsonView)
    ensures
        accepted(v) <==> field(v, "success"@) == Some(JsonView::Flag(true)),
        field(v, "data"@) matches Some(JsonView::Text(t)) ==> order_id(v) == t,
        field(v, "data"@) matches Some(JsonView::Number(Some(n), _)) ==> order_id(v) == int_text(n),
        !(field(v, "data"@) matches Some(JsonView::Text(_))) && !(field(v, "data"@) matches Some(
            JsonView::Number(Some(_), _),
        )) ==> order_id(v) == Seq::<char>::empty(),
        says_filled(v) <==> (field(v, "data"@) matches Some(d) && (field(d, "state"@) matches Some(
            JsonView::Number(n, _),
        ) && n == Some(3int))),
        (field(v, "code"@) matches Some(JsonView::Number(Some(n), _))) && (field(
            v,
            "message"@,
        ) matches Some(JsonView::Text(t))) ==> rejection(v) == "order rejected: code="@ + int_text(
            field(v, "code"@)->0->Number_0->0,
        ) + " message="@ + field(v, "message"@)->0->Text_0,
        field(v, "code"@) is None && field(v, "message"@) is None ==> rejection(v)
            == "order rejected: code="@ + int_text(0) + " message="@ + "rejected"@,
{
}

// Requests.

/// The value of the first header `name`.
pub open spec fn header(headers: Seq<(Seq<char>, Seq<char>)>, name: Seq<char>) -> Option<Seq<char>>
    decreases headers.len(),
{
    if headers.len() == 0 {
        None
    } else if headers[0].0 == name {
        Some(headers[0].1)
    } else {
        header(headers.subrange(1, headers.len() as int), name)
    }
}

/// Whether a request proves that it comes from the owner of the keys: it names the key and its time,
/// and the signature is that of the key, the time and the body which it carries, under the secret.
pub open spec fn proves_its_owner(
    request: SignedRequest,
    client: MexcTradeClient,
    ts: nat,
) -> bool {
    let headers = headers_view(request.headers@);
    &&& header(headers, "ApiKey"@) == Some(client.api_key@)
    &&& header(headers, "Request-Time"@) == Some(digits(ts))
    &&& header(headers, "Signature"@) == Some(
        hex_text(hmac_sha256(client.api_secret@, client.api_key@ + digits(ts) + request.body@)),
    )
    &&& header(headers, "Recv-Window"@) == Some("5000"@)
}

proof fn lemma_header_at(headers: Seq<(Seq<char>, Seq<char>)>, k: int)
    requires
        0 <= k < headers.len(),
        forall|i: int| 0 <= i < k ==> (#[trigger] headers[i]).0 != headers[k].0,
    ensures
        header(headers, headers[k].0) == Some(headers[k].1),
    decreases headers.len(),
{
    if k > 0 {
        let rest = headers.subrange(1, headers.len() as int);
        assert(headers[0].0 != headers[k].0);
        assert forall|i: int| 0 <= i < k - 1 implies (#[trigger] rest[i]).0 != rest[k - 1].0 by {
            assert(rest[i] == headers[i + 1]);
        }
        lemma_header_at(rest, k - 1);
    }
}

proof fn lemma_headers(headers: Seq<(Seq<char>, Seq<char>)>)
    requires
        headers.len() >= 4,
        headers[0].0 == "ApiKey"@,
        headers[1].0 == "Request-Time"@,
        headers[2].0 == "Signature"@,
        headers[3].0 == "Recv-Window"@,
        headers.len() > 4 ==> headers[4].0 == "Content-Type"@,
    ensures
        header(headers, "ApiKey"@) == Some(headers[0].1),
        header(headers, "Request-Time"@) == Some(headers[1].1),
        header(headers, "Signature"@) == Some(headers[2].1),
        header(headers, "Recv-Window"@) == Some(headers[3].1),
        headers.len() > 4 ==> header(headers, "Content-Type"@) == Some(headers[4].1),
{
    reveal_strlit("ApiKey");
    reveal_strlit("Request-Time");
    reveal_strlit("Signature");
    reveal_strlit("Recv-Window");
    reveal_strlit("Content-Type");
    assert("Content-Type"@[0] != "Request-Time"@[0]);
    assert(headers[0].0.len() == 6 && headers[1].0.len() == 12 && headers[2].0.len() == 9
        && headers[3].0.len() == 11);
    lemma_header_at(headers, 0);
    lemma_header_at(headers, 1);
    lemma_header_at(headers, 2);
    lemma_header_at(headers, 3);
    if headers.len() > 4 {
        lemma_header_at(headers, 4);
    }
}

/// Each request goes to MEXC under the path that is asked for, carries the body that is sent, and
/// proves its owner. One with a body says that this is JSON.
pub proof fn requests_prove_their_owner(
    request: SignedRequest,
    client: MexcTradeClient,
    path: Seq<char>,
    body: Seq<char>,
    ts: nat,
)
    ensures
        posts(request, client, path, body, ts as int) ==> {
            &&& request.url@ == "https://contract.mexc.com"@ + path
            &&& request.body@ == body
            &&& proves_its_owner(request, client, ts)
            &&& header(headers_view(request.headers@), "Content-Type"@) == Some(
                "application/json"@,
            )
        },
        gets(request, client, path, ts as int) ==> {
            &&& request.url@ == "https://contract.mexc.com"@ + path
            &&& request.body@ == Seq::<char>::empty()
            &&& proves_its_owner(request, client, ts)
        },
{
    reveal_strlit("");
    assert(""@ =~= Seq::<char>::empty());
    if posts(request, client, path, body, ts as int) || gets(request, client, path, ts as int) {
        lemma_headers(headers_view(request.headers@));
    }
}

} // verus!
