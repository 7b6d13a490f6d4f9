//! Trades at MEXC: signed requests, orders, and the way of a trade from its opening to its end.

use std::sync::atomic::{AtomicI32, Ordering};
use std::sync::Arc;

use vstd::prelude::*;

use crate::clock::{clock_shows, now_ms};
use crate::config::Config;
use crate::decimal::{decimal_text, Decimal};
use crate::json::{
    as_flag, as_int, as_text, field, field_of_field, json_parsed, json_quoted, parse_json, quoted,
    Json, JsonView,
};
use crate::text::{begins_with, digits, hex_digit, int_text, starts_with, text_of_i64, text_of_u64};

verus! {

/// The keys to an account at MEXC, and how many positions are open of those that may be. Other
/// threads change that count at any time, so no contract says what it is.
pub struct MexcTradeClient {
    pub api_key: String,
    pub api_secret: String,
    pub open_positions: Arc<AtomicI32>,
    pub max_positions: i32,
}

/// How many positions are open after one more, where that many may be.
pub open spec fn one_more(open: i32, max: i32) -> Option<i32> {
    if open < max {
        Some((open + 1) as i32)
    } else {
        None
    }
}

/// How many positions are open after one more, or nothing where no more may be.
pub fn slot_after(open: i32, max: i32) -> (after: Option<i32>)
    ensures
        after == one_more(open, max),
{
    if open < max {
        Some(open + 1)
    } else {
        None
    }
}

/// One more position never makes too many, and is undone by one less.
pub proof fn positions_stay_within(open: i32, max: i32)
    requires
        open <= max,
    ensures
        one_more(open, max) is Some <==> open != max,
        one_more(open, max) matches Some(after) ==> after <= max && one_less(after)
            == open,
{
}

/// What is done to the count of the open positions.
#[derive(Clone, Copy, Debug)]
pub enum CountStep {
    /// One more is asked for.
    Reserve,
    /// One is given back.
    Release,
}

/// How many positions are open after one less. The count wraps around.
pub open spec fn one_less(open: i32) -> i32 {
    if open == i32::MIN {
        i32::MAX
    } else {
        (open - 1) as i32
    }
}

/// How many positions are open after `step`, where it can be done.
pub open spec fn next_count(open: i32, max: i32, step: CountStep) -> Option<i32> {
    match step {
        CountStep::Reserve => one_more(open, max),
        CountStep::Release => Some(one_less(open)),
    }
}

/// How many positions are open after `step`, or nothing where it cannot be done.
pub fn count_after(open: i32, max: i32, step: CountStep) -> (after: Option<i32>)
    ensures
        after == next_count(open, max, step),
{
    match step {
        CountStep::Reserve => slot_after(open, max),
        CountStep::Release => if open == i32::MIN {
            Some(i32::MAX)
        } else {
            Some(open - 1)
        },
    }
}

/// How many positions are open after `steps`, of which `max` may be.
pub open spec fn open_after(open: i32, max: i32, steps: Seq<CountStep>) -> i32
    decreases steps.len(),
{
    if steps.len() == 0 {
        open
    } else {
        let before = open_after(open, max, steps.drop_last());
        match next_count(before, max, steps.last()) {
            Some(after) => after,
            None => before,
        }
    }
}

/// How many of the positions that `steps` ask for are granted.
pub open spec fn granted(open: i32, max: i32, steps: Seq<CountStep>) -> nat
    decreases steps.len(),
{
    if steps.len() == 0 {
        0
    } else {
        let before = granted(open, max, steps.drop_last());
        let count = open_after(open, max, steps.drop_last());
        if steps.last() is Reserve && next_count(count, max, steps.last()) is Some {
            before + 1
        } else {
            before
        }
    }
}

/// How many positions `steps` give back.
pub open spec fn released(steps: Seq<CountStep>) -> nat
    decreases steps.len(),
{
    if steps.len() == 0 {
        0
    } else {
        released(steps.drop_last()) + (if steps.last() is Release {
            1nat
        } else {
            0nat
        })
    }
}

/// Whether `steps` never give a position back that is not open.
pub open spec fn orderly(open: i32, max: i32, steps: Seq<CountStep>) -> bool
    decreases steps.len(),
{
    steps.len() == 0 || (orderly(open, max, steps.drop_last()) && (steps.last() is Release
        ==> open_after(open, max, steps.drop_last()) > 0))
}

/// Whatever is asked for and given back in whatever order, never more positions are open than may
/// be, and those that are open are those that were granted and not given back. So no more are
/// granted than there was room for, unless some are given back.
pub proof fn never_too_many_positions(open: i32, max: i32, steps: Seq<CountStep>)
    requires
        0 <= open <= max,
        orderly(open, max, steps),
    ensures
        0 <= open_after(open, max, steps) <= max,
        open_after(open, max, steps) == open + granted(open, max, steps) - released(steps),
        granted(open, max, steps) <= max - open + released(steps),
    decreases steps.len(),
{
    if steps.len() > 0 {
        never_too_many_positions(open, max, steps.drop_last());
    }
}

/// As long as none is given back, positions are granted until the last one that there was room for,
/// and no more after it.
pub proof fn granted_while_there_is_room(open: i32, max: i32, steps: Seq<CountStep>)
    requires
        0 <= open <= max,
        released(steps) == 0,
    ensures
        granted(open, max, steps) == (if steps.len() <= max - open {
            steps.len() as int
        } else {
            max - open
        }),
        open_after(open, max, steps) == open + granted(open, max, steps),
    decreases steps.len(),
{
    if steps.len() > 0 {
        granted_while_there_is_room(open, max, steps.drop_last());
    }
}

// Requests.

/// A request to MEXC, with what proves that it comes from the owner of the keys.
#[derive(Debug)]
pub struct SignedRequest {
    pub url: String,
    pub headers: Vec<(String, String)>,
    pub body: String,
}

/// What the headers of a request say.
pub open spec fn headers_view(headers: Seq<(String, String)>) -> Seq<(Seq<char>, Seq<char>)> {
    headers.map_values(|h: (String, String)| (h.0@, h.1@))
}

/// Two hexadecimal digits, in lower case, for each byte.
pub open spec fn hex_text(bytes: Seq<u8>) -> Seq<char> {
    Seq::new(
        2 * bytes.len(),
        |i: int|
            if i % 2 == 0 {
                hex_digit((bytes[i / 2] / 16) as nat)
            } else {
                hex_digit((bytes[i / 2] % 16) as nat)
            },
    )
}

/// The signature of a request: the code of its keys, its time and its body under the secret.
pub open spec fn signature(
    api_key: Seq<char>,
    api_secret: Seq<char>,
    ts: nat,
    body: Seq<char>,
) -> Seq<char> {
    hex_text(hmac_sha256(api_secret, api_key + digits(ts) + body))
}

/// The headers that each request carries.
pub open spec fn common_headers(
    api_key: Seq<char>,
    api_secret: Seq<char>,
    ts: nat,
    body: Seq<char>,
) -> Seq<(Seq<char>, Seq<char>)> {
    seq![
        ("ApiKey"@, api_key),
        ("Request-Time"@, digits(ts)),
        ("Signature"@, signature(api_key, api_secret, ts, body)),
        ("Recv-Window"@, "5000"@),
    ]
}

impl MexcTradeClient {
    /// Keys to an account with no position open. That the count starts at zero is not said by the
    /// contract.
    pub fn new(api_key: String, api_secret: String, max_positions: i32) -> (client: MexcTradeClient)
        ensures
            client.api_key == api_key,
            client.api_secret == api_secret,
            client.max_positions == max_positions,
    {
        MexcTradeClient {
            api_key,
            api_secret,
            open_positions: Arc::new(AtomicI32::new(0)),
            max_positions,
        }
    }

    /// Takes one more position where one more may be open. Whether it does rests on how many are
    /// open at that moment. That the count goes up is not said by the contract.
    pub fn try_reserve_position(&self) -> (reserved: bool)
        ensures
            exists|open: i32| reserved == #[trigger] one_more(open, self.max_positions) is Some,
    {
        match updated(&self.open_positions, self.max_positions, CountStep::Reserve) {
            Ok(open) => {
                assert(one_more(open, self.max_positions) is Some);
                true
            },
            Err(open) => {
                assert(one_more(open, self.max_positions) is None);
                false
            },
        }
    }

    /// The time of a request: milliseconds since the start of 1970.
    pub fn ts() -> (ts: u64)
        ensures
            clock_shows(ts as int),
    {
        now_ms() as u64
    }

    /// The signature of a request at the time `ts`.
    pub fn sign(&self, ts: u64, body: &str) -> (text: String)
        ensures
            text@ == signature(self.api_key@, self.api_secret@, ts as nat, body@),
    {
        let message = self.api_key.clone().concat(text_of_u64(ts).as_str()).concat(body);
        let code = authentication_code(self.api_secret.as_str(), message.as_str());
        hex_encoded(&code)
    }

    fn headers_at(&self, ts: u64, body: &str) -> (headers: Vec<(String, String)>)
        ensures
            headers_view(headers@) == common_headers(
                self.api_key@,
                self.api_secret@,
                ts as nat,
                body@,
            ),
    {
        let mut headers: Vec<(String, String)> = Vec::new();
        headers.push(("ApiKey".to_string(), self.api_key.clone()));
        headers.push(("Request-Time".to_string(), text_of_u64(ts)));
        headers.push(("Signature".to_string(), self.sign(ts, body)));
        headers.push(("Recv-Window".to_string(), "5000".to_string()));
        assert(headers_view(headers@) =~= common_headers(
            self.api_key@,
            self.api_secret@,
            ts as nat,
            body@,
        ));
        headers
    }

    /// The request that sends `body` to `path` at the time `ts`.
    pub fn post_at(&self, path: &str, body: String, ts: u64) -> (request: SignedRequest)
        ensures
            posts(request, *self, path@, body@, ts as int),
    {
        let mut headers = self.headers_at(ts, body.as_str());
        let ghost common = headers_view(headers@);
        headers.push(("Content-Type".to_string(), "application/json".to_string()));
        assert(headers_view(headers@) =~= common.push(("Content-Type"@, "application/json"@)));
        let url = "https://contract.mexc.com".to_string().concat(path);
        SignedRequest { url, headers, body }
    }

    /// The request that sends `body` to `path` now.
    pub fn post(&self, path: &str, body: String) -> (request: SignedRequest)
        ensures
            exists|ts: int| clock_shows(ts) && #[trigger] posts(request, *self, path@, body@, ts),
    {
        let ts: u64 = Self::ts();
        self.post_at(path, body, ts)
    }

    /// The request that asks for `path` at the time `ts`.
    pub fn get_at(&self, path: &str, ts: u64) -> (request: SignedRequest)
        ensures
            gets(request, *self, path@, ts as int),
    {
        let headers = self.headers_at(ts, "");
        let url = "https://contract.mexc.com".to_string().concat(path);
        SignedRequest { url, headers, body: "".to_string() }
    }

    /// The request that asks for `path` now.
    pub fn get(&self, path: &str) -> (request: SignedRequest)
        ensures
            exists|ts: int| clock_shows(ts) && #[trigger] gets(request, *self, path@, ts),
    {
        let ts: u64 = Self::ts();
        self.get_at(path, ts)
    }
}

/// Whether `request` sends `body` to `path` at the time `ts`, signed with the keys of `client`.
pub open spec fn posts(
    request: SignedRequest,
    client: MexcTradeClient,
    path: Seq<char>,
    body: Seq<char>,
    ts: int,
) -> bool {
    &&& request.url@ == "https://contract.mexc.com"@ + path
    &&& request.body@ == body
    &&& headers_view(request.headers@) == common_headers(
        client.api_key@,
        client.api_secret@,
        ts as nat,
        body,
    ).push(("Content-Type"@, "application/json"@))
}

/// Whether `request` asks for `path` at the time `ts`, signed with the keys of `client`.
pub open spec fn gets(
    request: SignedRequest,
    client: MexcTradeClient,
    path: Seq<char>,
    ts: int,
) -> bool {
    &&& request.url@ == "https://contract.mexc.com"@ + path
    &&& request.body@ == ""@
    &&& headers_view(request.headers@) == common_headers(
        client.api_key@,
        client.api_secret@,
        ts as nat,
        ""@,
    )
}

/// The keys to trade with from the start on, if there is one in the settings.
pub fn start_client(config: &Config) -> (client: Option<MexcTradeClient>)
    ensures
        client is Some <==> config.mexc_api_key@.len() > 0,
        client matches Some(c) ==> c.api_key == config.mexc_api_key && c.api_secret
            == config.mexc_api_secret && c.max_positions == 1,
{
    if config.mexc_api_key.as_str().unicode_len() == 0 {
        return None;
    }
    Some(MexcTradeClient::new(config.mexc_api_key.clone(), config.mexc_api_secret.clone(), 1))
}

/// The keys to trade with after a change, if both are there.
pub fn changed_client(api_key: String, api_secret: String) -> (client: Option<MexcTradeClient>)
    ensures
        client is Some <==> api_key@.len() > 0 && api_secret@.len() > 0,
        client matches Some(c) ==> c.api_key == api_key && c.api_secret == api_secret
            && c.max_positions == 1,
{
    if api_key.as_str().unicode_len() == 0 || api_secret.as_str().unicode_len() == 0 {
        return None;
    }
    Some(MexcTradeClient::new(api_key, api_secret, 1))
}

// Orders.

/// How many digits behind the point the price of an order has at most.
pub open spec fn price_places(symbol: Seq<char>) -> nat {
    if begins_with(symbol, "BTC"@) {
        1
    } else {
        2
    }
}

/// An order.
#[derive(Debug)]
pub struct Order {
    pub symbol: String,
    pub side: i32,
    pub order_type: i32,
    pub price: Decimal,
    pub vol: String,
    pub leverage: i32,
}

/// What an order says.
pub struct OrderView {
    pub symbol: Seq<char>,
    pub side: i32,
    pub order_type: i32,
    pub price: Decimal,
    pub vol: Seq<char>,
    pub leverage: i32,
}

impl Order {
    /// What the order says.
    pub open spec fn view(self) -> OrderView {
        OrderView {
            symbol: self.symbol@,
            side: self.side,
            order_type: self.order_type,
            price: self.price,
            vol: self.vol@,
            leverage: self.leverage,
        }
    }
}

/// An order as MEXC takes it, on isolated margin.
pub open spec fn order_text(o: OrderView) -> Seq<char> {
    "{\"leverage\":"@ + int_text(o.leverage as int) + ",\"openType\":1,\"price\":"@ + json_quoted(
        decimal_text(o.price.rounded(price_places(o.symbol))),
    ) + ",\"side\":"@ + int_text(o.side as int) + ",\"symbol\":"@ + json_quoted(o.symbol)
        + ",\"type\":"@ + int_text(o.order_type as int) + ",\"vol\":"@ + json_quoted(o.vol) + "}"@
}

/// An order as MEXC takes it, on isolated margin.
pub fn order_body(o: &Order) -> (body: String)
    ensures
        body@ == order_text(o@),
{
    let places: u32 = if starts_with(o.symbol.as_str(), "BTC") {
        1
    } else {
        2
    };
    let price = o.price.round_dp(places).text();
    "{\"leverage\":".to_string().concat(text_of_i64(o.leverage as i64).as_str()).concat(
        ",\"openType\":1,\"price\":",
    ).concat(quoted(price.as_str()).as_str()).concat(",\"side\":").concat(
        text_of_i64(o.side as i64).as_str(),
    ).concat(",\"symbol\":").concat(quoted(o.symbol.as_str()).as_str()).concat(
        ",\"type\":",
    ).concat(text_of_i64(o.order_type as i64).as_str()).concat(",\"vol\":").concat(
        quoted(o.vol.as_str()).as_str(),
    ).concat("}")
}

/// What MEXC answers. A text that is no JSON says nothing.
pub fn reply_of(text: &str) -> (v: Json)
    ensures
        v@ == (match json_parsed(text@) {
            Some(w) => w,
            None => JsonView::Null,
        }),
{
    match parse_json(text) {
        Some(v) => v,
        None => Json::Null,
    }
}

/// Whether MEXC took an order.
pub open spec fn accepted(v: JsonView) -> bool {
    as_flag(field(v, "success"@)) == Some(true)
}

/// The number that MEXC gave to an order: an integer, or a text, or nothing.
pub open spec fn order_id(v: JsonView) -> Seq<char> {
    match (as_int(field(v, "data"@)), as_text(field(v, "data"@))) {
        (Some(n), _) => int_text(n),
        (None, Some(t)) => t,
        (None, None) => Seq::empty(),
    }
}

/// Why MEXC did not take an order.
pub open spec fn rejection(v: JsonView) -> Seq<char> {
    "order rejected: code="@ + int_text(
        match as_int(field(v, "code"@)) {
            Some(n) => n,
            None => 0,
        },
    ) + " message="@ + (match as_text(field(v, "message"@)) {
        Some(t) => t,
        None => "rejected"@,
    })
}

/// What MEXC says of an order that was sent: its number, or why it was not taken.
pub fn order_reply(v: &Json) -> (reply: Result<String, String>)
    ensures
        reply is Ok <==> accepted(v@),
        reply matches Ok(id) ==> id@ == order_id(v@),
        reply matches Err(message) ==> message@ == rejection(v@),
{
    let taken = match v.flag_field("success") {
        Some(b) => b,
        None => false,
    };
    if !taken {
        let code: i64 = match v.int_field("code") {
            Some(n) => n,
            None => 0,
        };
        let message = match v.text_field("message") {
            Some(t) => t,
            None => "rejected".to_string(),
        };
        return Err(
            "order rejected: code=".to_string().concat(text_of_i64(code).as_str()).concat(
                " message=",
            ).concat(message.as_str()),
        );
    }
    match v.int_field("data") {
        Some(n) => Ok(text_of_i64(n)),
        None => match v.text_field("data") {
            Some(t) => Ok(t),
            None => Ok(String::new()),
        },
    }
}

/// Whether MEXC says that an order is filled.
pub open spec fn says_filled(v: JsonView) -> bool {
    as_int(field_of_field(v, "data"@, "state"@)) == Some(3int)
}

/// Whether MEXC says that an order is filled.
pub fn order_filled(v: &Json) -> (filled: bool)
    ensures
        filled == says_filled(v@),
{
    match v.get("data") {
        Some(data) => match data.int_field("state") {
            Some(n) => n == 3,
            None => false,
        },
        None => false,
    }
}

/// What is noted of an answer of MEXC.
#[derive(Debug)]
pub struct ReplySummary {
    pub success: Option<bool>,
    pub code: Option<i64>,
    pub state: Option<i64>,
    pub order_id: Option<String>,
}

/// Sums an answer of MEXC up.
pub fn log_exchange_response(v: &Json) -> (s: ReplySummary)
    ensures
        s.success == as_flag(field(v@, "success"@)),
        s.code is Some <==> as_int(field(v@, "code"@)) is Some,
        s.code matches Some(n) ==> as_int(field(v@, "code"@)) == Some(n as int),
        s.state is Some <==> as_int(field_of_field(v@, "data"@, "state"@)) is Some,
        s.state matches Some(n) ==> as_int(field_of_field(v@, "data"@, "state"@)) == Some(n as int),
        s.order_id is Some <==> as_int(field(v@, "data"@)) is Some || as_text(
            field(v@, "data"@),
        ) is Some,
        s.order_id matches Some(id) ==> id@ == order_id(v@),
{
    let state: Option<i64> = match v.get("data") {
        Some(data) => data.int_field("state"),
        None => None,
    };
    let order_id = match v.int_field("data") {
        Some(n) => Some(text_of_i64(n)),
        None => v.text_field("data"),
    };
    ReplySummary {
        success: v.flag_field("success"),
        code: v.int_field("code"),
        state,
        order_id,
    }
}

// The way of a trade.

/// How far a trade has come. The text is the number of the order that waits at the target, and is
/// empty where there is none.
#[derive(Debug)]
pub enum Stage {
    /// No more positions may be open: nothing is done.
    Skipped,
    /// The position is opened at the market.
    Opening,
    /// An order to close it is placed at the target.
    PlacingExit,
    /// The difference is to close, or the time to run out.
    Waiting(String),
    /// The order at the target may be filled.
    Checking(String),
    /// The order at the target is taken back.
    Cancelling(String),
    /// The position is closed at the market.
    Forcing,
    /// The position is no longer held.
    Done,
}

/// How far a trade has come.
pub enum StageView {
    Skipped,
    Opening,
    PlacingExit,
    Waiting(Seq<char>),
    Checking(Seq<char>),
    Cancelling(Seq<char>),
    Forcing,
    Done,
}

impl Stage {
    /// How far the trade has come.
    pub open spec fn view(self) -> StageView {
        match self {
            Stage::Skipped => StageView::Skipped,
            Stage::Opening => StageView::Opening,
            Stage::PlacingExit => StageView::PlacingExit,
            Stage::Waiting(id) => StageView::Waiting(id@),
            Stage::Checking(id) => StageView::Checking(id@),
            Stage::Cancelling(id) => StageView::Cancelling(id@),
            Stage::Forcing => StageView::Forcing,
            Stage::Done => StageView::Done,
        }
    }
}

/// A trade: a position that is opened at the market, and closed at the target or, later, at the
/// market. It is long where `direction` is above zero, and else short.
#[derive(Debug)]
pub struct Trade {
    pub symbol: String,
    pub direction: i32,
    pub entry_price: Decimal,
    pub target_price: Decimal,
    pub vol: String,
    pub leverage: i32,
    pub safety_timeout_ms: u64,
    pub stage: Stage,
}

/// What is to be done for a trade.
#[derive(Debug)]
pub enum TradeAction {
    /// `body` is sent to `path`.
    Post { path: String, body: String },
    /// `path` is asked for.
    Get { path: String },
    /// The sign to close is waited for, for `ms` milliseconds at most.
    Wait { ms: u64 },
    /// Nothing any more.
    Nothing,
}

/// What is to be done for a trade.
pub enum ActionView {
    Post(Seq<char>, Seq<char>),
    Get(Seq<char>),
    Wait(nat),
    Nothing,
}

impl TradeAction {
    /// What is to be done.
    pub open spec fn view(self) -> ActionView {
        match self {
            TradeAction::Post { path, body } => ActionView::Post(path@, body@),
            TradeAction::Get { path } => ActionView::Get(path@),
            TradeAction::Wait { ms } => ActionView::Wait(ms as nat),
            TradeAction::Nothing => ActionView::Nothing,
        }
    }
}

/// What comes back after an action.
#[derive(Debug)]
pub enum TradeEvent {
    /// The answer of MEXC, or nothing where none came.
    Reply(Option<Json>),
    /// The wait is over.
    Woken,
}

/// The answer of MEXC in an event, if there is one.
pub open spec fn reply_in(event: TradeEvent) -> Option<JsonView> {
    match event {
        TradeEvent::Reply(Some(json)) => Some(json@),
        _ => None,
    }
}

/// Whether an event says that an order was taken.
pub open spec fn took(event: TradeEvent) -> bool {
    reply_in(event) matches Some(v) && accepted(v)
}

/// How far a trade has come after an event. One that does not answer the action changes nothing.
pub open spec fn next_stage(stage: StageView, event: TradeEvent) -> StageView {
    match (stage, event) {
        (StageView::Opening, TradeEvent::Reply(_)) => if took(event) {
            StageView::PlacingExit
        } else {
            StageView::Done
        },
        (StageView::PlacingExit, TradeEvent::Reply(_)) => StageView::Waiting(
            if took(event) {
                order_id(reply_in(event)->0)
            } else {
                Seq::empty()
            },
        ),
        (StageView::Waiting(id), TradeEvent::Woken) => if id.len() == 0 {
            StageView::Forcing
        } else {
            StageView::Checking(id)
        },
        (StageView::Checking(id), TradeEvent::Reply(_)) => if reply_in(event) matches Some(v)
            && says_filled(v) {
            StageView::Done
        } else {
            StageView::Cancelling(id)
        },
        (StageView::Cancelling(_), TradeEvent::Reply(_)) => StageView::Forcing,
        (StageView::Forcing, TradeEvent::Reply(_)) => StageView::Done,
        _ => stage,
    }
}

/// The side of the order that opens a position: 1 to go long, 3 to go short.
pub open spec fn open_side(direction: i32) -> i32 {
    if direction > 0 {
        1
    } else {
        3
    }
}

/// The side of the order that closes a position: 4 for a long one, 2 for a short one.
pub open spec fn close_side(direction: i32) -> i32 {
    if direction > 0 {
        4
    } else {
        2
    }
}

/// An order at the market.
pub const MARKET: i32 = 5;

/// An order at a price.
pub const LIMIT: i32 = 1;

impl Trade {
    /// The order that opens the position.
    pub open spec fn opening(self) -> OrderView {
        OrderView {
            symbol: self.symbol@,
            side: open_side(self.direction),
            order_type: MARKET,
            price: self.entry_price,
            vol: self.vol@,
            leverage: self.leverage,
        }
    }

    /// The order that closes the position.
    pub open spec fn closing(self, order_type: i32) -> OrderView {
        OrderView {
            symbol: self.symbol@,
            side: close_side(self.direction),
            order_type,
            price: self.target_price,
            vol: self.vol@,
            leverage: 0,
        }
    }

    /// What is to be done at a stage of the trade.
    pub open spec fn action_at(self, stage: StageView) -> ActionView {
        let submit = "/api/v1/private/order/submit"@;
        match stage {
            StageView::Opening => ActionView::Post(submit, order_text(self.opening())),
            StageView::PlacingExit => ActionView::Post(submit, order_text(self.closing(LIMIT))),
            StageView::Waiting(_) => ActionView::Wait(self.safety_timeout_ms as nat),
            StageView::Checking(id) => ActionView::Get("/api/v1/private/order/get/"@ + id),
            StageView::Cancelling(id) => ActionView::Post(
                "/api/v1/private/order/cancel"@,
                "["@ + json_quoted(id) + "]"@,
            ),
            StageView::Forcing => ActionView::Post(submit, order_text(self.closing(MARKET))),
            StageView::Skipped | StageView::Done => ActionView::Nothing,
        }
    }

    fn close_order(&self, order_type: i32) -> (order: Order)
        ensures
            order@ == self.closing(order_type),
    {
        let side: i32 = if self.direction > 0 {
            4
        } else {
            2
        };
        Order {
            symbol: self.symbol.clone(),
            side,
            order_type,
            price: self.target_price,
            vol: self.vol.clone(),
            leverage: 0,
        }
    }

    fn open_order(&self) -> (order: Order)
        ensures
            order@ == self.opening(),
    {
        let side: i32 = if self.direction > 0 {
            1
        } else {
            3
        };
        Order {
            symbol: self.symbol.clone(),
            side,
            order_type: MARKET,
            price: self.entry_price,
            vol: self.vol.clone(),
            leverage: self.leverage,
        }
    }

    fn submit(order: &Order) -> (action: TradeAction)
        ensures
            action@ == ActionView::Post("/api/v1/private/order/submit"@, order_text(order@)),
    {
        TradeAction::Post {
            path: "/api/v1/private/order/submit".to_string(),
            body: order_body(order),
        }
    }

    /// What is to be done next.
    pub fn action(&self) -> (action: TradeAction)
        ensures
            action@ == self.action_at(self.stage@),
    {
        match &self.stage {
            Stage::Opening => Self::submit(&self.open_order()),
            Stage::PlacingExit => Self::submit(&self.close_order(LIMIT)),
            Stage::Waiting(_) => TradeAction::Wait { ms: self.safety_timeout_ms },
            Stage::Checking(id) => TradeAction::Get {
                path: "/api/v1/private/order/get/".to_string().concat(id.as_str()),
            },
            Stage::Cancelling(id) => TradeAction::Post {
                path: "/api/v1/private/order/cancel".to_string(),
                body: "[".to_string().concat(quoted(id.as_str()).as_str()).concat("]"),
            },
            Stage::Forcing => Self::submit(&self.close_order(MARKET)),
            Stage::Skipped | Stage::Done => TradeAction::Nothing,
        }
    }

    /// Takes in what came back after an action.
    pub fn take(&mut self, event: &TradeEvent)
        ensures
            final(self).stage@ == next_stage(old(self).stage@, *event),
            *final(self) == (Trade { stage: final(self).stage, ..*old(self) }),
    {
        let next: Option<Stage> = match (&self.stage, event) {
            (Stage::Opening, TradeEvent::Reply(reply)) => match submitted(reply) {
                Some(_) => Some(Stage::PlacingExit),
                None => Some(Stage::Done),
            },
            (Stage::PlacingExit, TradeEvent::Reply(reply)) => match submitted(reply) {
                Some(id) => Some(Stage::Waiting(id)),
                None => Some(Stage::Waiting(String::new())),
            },
            (Stage::Waiting(id), TradeEvent::Woken) => {
                if id.as_str().unicode_len() == 0 {
                    Some(Stage::Forcing)
                } else {
                    Some(Stage::Checking(id.clone()))
                }
            },
            (Stage::Checking(id), TradeEvent::Reply(reply)) => {
                let filled = match reply {
                    Some(v) => order_filled(v),
                    None => false,
                };
                if filled {
                    Some(Stage::Done)
                } else {
                    Some(Stage::Cancelling(id.clone()))
                }
            },
            (Stage::Cancelling(_), TradeEvent::Reply(_)) => Some(Stage::Forcing),
            (Stage::Forcing, TradeEvent::Reply(_)) => Some(Stage::Done),
            _ => None,
        };
        match next {
            Some(stage) => {
                self.stage = stage;
            },
            None => {},
        }
    }
}

fn submitted(reply: &Option<Json>) -> (id: Option<String>)
    ensures
        id is Some <==> (reply matches Some(v) && accepted(v@)),
        id matches Some(t) ==> reply matches Some(v) && t@ == order_id(v@),
{
    match reply {
        Some(v) => match order_reply(v) {
            Ok(id) => Some(id),
            Err(_) => None,
        },
        None => None,
    }
}

/// The trade that begins where its position is reserved, and is skipped where it is not.
pub fn begin_trade(
    reserved: bool,
    symbol: String,
    direction: i32,
    entry_price: Decimal,
    target_price: Decimal,
    vol: String,
    leverage: i32,
    safety_timeout_ms: u64,
) -> (trade: Trade)
    ensures
        trade == (Trade {
            symbol,
            direction,
            entry_price,
            target_price,
            vol,
            leverage,
            safety_timeout_ms,
            stage: trade.stage,
        }),
        reserved ==> trade.stage is Opening,
        !reserved ==> trade.stage is Skipped,
{
    let stage = if reserved {
        Stage::Opening
    } else {
        Stage::Skipped
    };
    Trade {
        symbol,
        direction,
        entry_price,
        target_price,
        vol,
        leverage,
        safety_timeout_ms,
        stage,
    }
}

impl MexcTradeClient {
    /// Begins a trade, if one more position may be open; else the trade is skipped. From then on
    /// its actions are done, and what comes back is taken in, until there is nothing to do.
    pub fn run_trade(
        &self,
        symbol: String,
        direction: i32,
        entry_price: Decimal,
        target_price: Decimal,
        vol: String,
        leverage: i32,
        safety_timeout_ms: u64,
    ) -> (trade: Trade)
        ensures
            trade == (Trade {
                symbol,
                direction,
                entry_price,
                target_price,
                vol,
                leverage,
                safety_timeout_ms,
                stage: trade.stage,
            }),
            exists|open: i32|
                trade.stage == (if #[trigger] one_more(open, self.max_positions) is Some {
                    Stage::Opening
                } else {
                    Stage::Skipped
                }),
    {
        let reserved = self.try_reserve_position();
        begin_trade(
            reserved,
            symbol,
            direction,
            entry_price,
            target_price,
            vol,
            leverage,
            safety_timeout_ms,
        )
    }

    /// Gives the position of a trade back that is done, and says whether it did. A trade that was
    /// skipped has none. That the count goes down is not said by the contract.
    pub fn end_trade(&self, trade: Trade) -> (released: bool)
        ensures
            released <==> trade.stage is Done,
    {
        match trade.stage {
            Stage::Done => match updated(
                &self.open_positions,
                self.max_positions,
                CountStep::Release,
            ) {
                Ok(_) => true,
                Err(_) => false,
            },
            _ => false,
        }
    }
}

// What holds of the way of a trade.

/// How far a trade is from its end.
pub open spec fn steps_left(stage: StageView) -> nat {
    match stage {
        StageView::Opening => 6,
        StageView::PlacingExit => 5,
        StageView::Waiting(_) => 4,
        StageView::Checking(_) => 3,
        StageView::Cancelling(_) => 2,
        StageView::Forcing => 1,
        StageView::Skipped | StageView::Done => 0,
    }
}

/// Whether `event` answers the action at `stage`.
pub open spec fn answers(event: TradeEvent, stage: StageView) -> bool {
    match stage {
        StageView::Waiting(_) => event is Woken,
        StageView::Skipped | StageView::Done => false,
        _ => event is Reply,
    }
}

/// Each answer brings a trade nearer to its end, which comes after six answers at the latest, and
/// there is nothing to do exactly at its end.
pub proof fn trade_comes_to_its_end(trade: Trade, stage: StageView, event: TradeEvent)
    ensures
        answers(event, stage) ==> steps_left(next_stage(stage, event)) < steps_left(stage),
        !answers(event, stage) ==> next_stage(stage, event) == stage,
        steps_left(stage) == 0 <==> trade.action_at(stage) is Nothing,
{
}

/// How far a trade has come after `events`.
pub open spec fn stage_after(stage: StageView, events: Seq<TradeEvent>) -> StageView
    decreases events.len(),
{
    if events.len() == 0 {
        stage
    } else {
        next_stage(stage_after(stage, events.drop_last()), events.last())
    }
}

/// A trade that began is never skipped, and one that was skipped never begins: whatever comes back,
/// its position is given back once if it was taken, and never else.
pub proof fn position_is_given_back_once(stage: StageView, events: Seq<TradeEvent>)
    ensures
        stage is Skipped <==> stage_after(stage, events) is Skipped,
        stage is Done ==> stage_after(stage, events) is Done,
    decreases events.len(),
{
    if events.len() > 0 {
        position_is_given_back_once(stage, events.drop_last());
    }
}

/// A position that was opened is not left behind: a trade comes to its end only where it was not
/// opened, or the order at the target is filled, or an order at the market to close it was sent.
pub proof fn open_position_is_closed(stage: StageView, event: TradeEvent)
    requires
        !(stage is Done),
        next_stage(stage, event) is Done,
    ensures
        ({
            ||| stage is Opening && !took(event)
            ||| stage is Checking && says_filled(reply_in(event)->0)
            ||| stage is Forcing
        }),
{
}

/// An order that waits at the target and is not filled is taken back before the position is closed
/// at the market.
pub proof fn waiting_order_is_taken_back(stage: StageView, event: TradeEvent)
    requires
        !(stage is Forcing),
        next_stage(stage, event) is Forcing,
    ensures
        stage is Cancelling || stage == StageView::Waiting(Seq::<char>::empty()),
{
    if let StageView::Waiting(id) = stage {
        assert(id =~= Seq::<char>::empty());
    }
}

/// A trade goes out as it came in: what opens a long position and what closes it lie on the sides
/// 1 and 4, and those of a short one on 3 and 2, with the same symbol and volume.
pub proof fn closing_matches_opening(trade: Trade, order_type: i32)
    ensures
        trade.closing(order_type).symbol == trade.opening().symbol,
        trade.closing(order_type).vol == trade.opening().vol,
        trade.opening().side + trade.closing(order_type).side == 5,
        trade.opening().side == 1 <==> trade.direction > 0,
{
}

// What follows is called from `hmac`, `sha2`, `hex` and the atomics of std.

/// The code that `hmac::Hmac` over `sha2::Sha256` computes for a message under a key, both taken
/// as UTF-8.
pub uninterp spec fn hmac_sha256(key: Seq<char>, message: Seq<char>) -> Seq<u8>;

/// `hmac::Hmac::<sha2::Sha256>`: the code is a function of the key and the message, and has 32
/// bytes. A key of any length is taken.
#[verifier::external_body]
fn authentication_code(key: &str, message: &str) -> (code: Vec<u8>)
    ensures
        code@ == hmac_sha256(key@, message@),
        code@.len() == 32,
{
    let mut mac = <hmac::Hmac<sha2::Sha256> as hmac::Mac>::new_from_slice(key.as_bytes()).unwrap();
    hmac::Mac::update(&mut mac, message.as_bytes());
    hmac::Mac::finalize(mac).into_bytes().to_vec()
}

/// `hex::encode`: two hexadecimal digits, in lower case, for each byte.
#[verifier::external_body]
fn hex_encoded(bytes: &Vec<u8>) -> (text: String)
    ensures
        text@ == hex_text(bytes@),
{
    hex::encode(bytes)
}

/// `std::sync::atomic::AtomicI32::fetch_update`: where `count_after` gives a number for the one that
/// is there, that one is put in its place, and else nothing changes. The number that was there is
/// given back. Which one is there rests on the other threads, and the atomic itself is not modelled.
#[verifier::external_body]
fn updated(open: &Arc<AtomicI32>, max: i32, step: CountStep) -> (before: Result<i32, i32>)
    ensures
        before matches Ok(n) ==> next_count(n, max, step) is Some,
        before matches Err(n) ==> next_count(n, max, step) is None,
{
    open.fetch_update(Ordering::Relaxed, Ordering::Relaxed, |n| count_after(n, max, step))
}

} // verus!
