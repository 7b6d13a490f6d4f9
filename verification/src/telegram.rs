//! The bot: who gets the alerts, and how they are sent.

use vstd::prelude::*;

use crate::clock::{clock_shows, now_ms};
use crate::decimal::Overflow;
use crate::json::{
    as_int, as_text, field, field_of_field, json_list, json_parsed, json_quoted, list_of_text,
    list_text, parse_json, pretty_list, quoted, Json, JsonView,
};
use crate::text::{
    begins_with, contains_text, int_text, lemma_pushed_contains, starts_with, text_of_i64, texts,
    trim, trimmed,
};

verus! {

// The start of the bot.

/// Whether the bot runs.
#[derive(Debug)]
pub enum BotStart {
    /// There is no bot.
    NoToken,
    /// Nobody may use the bot.
    NoChat,
    /// The bot runs for this chat.
    Run(String),
}

/// Whether the bot runs with `token`, and for which chat.
pub fn start_bot(token: &str, chat_id: &str) -> (start: BotStart)
    ensures
        start is NoToken <==> token@.len() == 0,
        start is NoChat <==> token@.len() > 0 && trimmed(chat_id@).len() == 0,
        start matches BotStart::Run(chat) ==> chat@ == trimmed(chat_id@),
{
    if token.unicode_len() == 0 {
        return BotStart::NoToken;
    }
    let chat = trim(chat_id);
    if chat.as_str().unicode_len() == 0 {
        return BotStart::NoChat;
    }
    BotStart::Run(chat)
}

/// The address at which the bot of `token` takes a call of `method`.
pub open spec fn bot_address(token: Seq<char>, method: Seq<char>) -> Seq<char> {
    "https://api.telegram.org/bot"@ + token + "/"@ + method
}

/// The address at which the bot of `token` takes a call of `method`.
pub fn bot_url(token: &str, method: &str) -> (url: String)
    ensures
        url@ == bot_address(token@, method@),
{
    "https://api.telegram.org/bot".to_string().concat(token).concat("/").concat(method)
}

// What comes in.

/// A message to the bot.
#[derive(Debug)]
pub struct Message {
    pub chat_id: String,
    pub text: String,
}

/// The chat and the text of the message in an update, if there is one.
pub open spec fn message_of(update: JsonView) -> Option<(Seq<char>, Seq<char>)> {
    match field(update, "message"@) {
        Some(message) => match (
            as_text(field(message, "text"@)),
            as_int(field_of_field(message, "chat"@, "id"@)),
        ) {
            (Some(text), Some(id)) => Some((int_text(id), text)),
            _ => None,
        },
        None => None,
    }
}

/// The messages in updates.
pub open spec fn messages_of(updates: Seq<JsonView>) -> Seq<(Seq<char>, Seq<char>)>
    decreases updates.len(),
{
    if updates.len() == 0 {
        Seq::empty()
    } else {
        match message_of(updates.last()) {
            Some(m) => messages_of(updates.drop_last()).push(m),
            None => messages_of(updates.drop_last()),
        }
    }
}

/// From which update on is asked next, after `updates`: from the one behind the last that has a
/// number.
pub open spec fn offset_after(updates: Seq<JsonView>, offset: int) -> int
    decreases updates.len(),
{
    if updates.len() == 0 {
        offset
    } else {
        match as_int(field(updates.last(), "update_id"@)) {
            Some(id) => id + 1,
            None => offset_after(updates.drop_last(), offset),
        }
    }
}

/// Whether an update has the largest number that there is.
pub open spec fn ids_overflow(updates: Seq<JsonView>) -> bool {
    exists|i: int|
        0 <= i < updates.len() && as_int(field(#[trigger] updates[i], "update_id"@)) == Some(
            i64::MAX as int,
        )
}

/// The updates in an answer to the bot.
pub open spec fn updates_in(answer: JsonView) -> Seq<JsonView> {
    match field(answer, "result"@) {
        Some(JsonView::Array(items)) => items,
        _ => Seq::empty(),
    }
}

/// What the messages say.
pub open spec fn messages_view(messages: Seq<Message>) -> Seq<(Seq<char>, Seq<char>)> {
    messages.map_values(|m: Message| (m.chat_id@, m.text@))
}

/// The message in an update, if there is one.
pub fn read_message(update: &Json) -> (message: Option<Message>)
    ensures
        message is Some <==> message_of(update@) is Some,
        message matches Some(m) ==> message_of(update@) == Some((m.chat_id@, m.text@)),
{
    let message = update.get("message")?;
    let text = message.text_field("text")?;
    let chat = message.get("chat")?;
    let id: i64 = chat.int_field("id")?;
    Some(Message { chat_id: text_of_i64(id), text })
}

/// The messages in an answer to the bot, and from which update on is asked next. There is an error
/// where an update has the largest number that there is.
pub fn read_updates(answer: &Json, offset: i64) -> (read: Result<(i64, Vec<Message>), Overflow>)
    ensures
        read is Err <==> ids_overflow(updates_in(answer@)),
        read matches Ok((next, messages)) ==> {
            &&& next == offset_after(updates_in(answer@), offset as int)
            &&& messages_view(messages@) == messages_of(updates_in(answer@))
        },
{
    let mut next: i64 = offset;
    let mut messages: Vec<Message> = Vec::new();
    assert(messages_view(messages@) =~= Seq::empty());
    match answer.get("result") {
        Some(Json::Array(items)) => {
            let ghost said = updates_in(answer@);
            let mut i: usize = 0;
            while i < items.len()
                invariant
                    i <= items@.len(),
                    said == updates_in(answer@),
                    said.len() == items@.len(),
                    forall|k: int| 0 <= k < items@.len() ==> #[trigger] said[k] == items@[k]@,
                    next == offset_after(said.take(i as int), offset as int),
                    messages_view(messages@) == messages_of(said.take(i as int)),
                    forall|k: int|
                        0 <= k < i ==> as_int(field(#[trigger] said[k], "update_id"@)) != Some(
                            i64::MAX as int,
                        ),
                decreases items@.len() - i,
            {
                assert(said.take(i + 1).drop_last() =~= said.take(i as int));
                assert(said.take(i + 1).last() == said[i as int]);
                match items[i].int_field("update_id") {
                    Some(id) => {
                        if id == i64::MAX {
                            assert(ids_overflow(said));
                            return Err(Overflow);
                        }
                        next = id + 1;
                    },
                    None => {},
                }
                match read_message(&items[i]) {
                    Some(m) => {
                        let ghost before = messages_view(messages@);
                        let ghost shown = (m.chat_id@, m.text@);
                        messages.push(m);
                        assert(messages_view(messages@) =~= before.push(shown));
                    },
                    None => {},
                }
                i += 1;
            }
            assert(said.take(said.len() as int) =~= said);
        },
        _ => {},
    }
    Ok((next, messages))
}

// What is answered.

/// What a message asks for.
#[derive(Clone, Copy, Debug, PartialEq, Eq, Structural)]
pub enum BotCommand {
    /// The message comes from a chat that may not use the bot.
    Refuse,
    Login,
    Logout,
    Status,
    /// Someone sent a password.
    PasswordSent,
    /// Nothing that the bot knows.
    Unknown,
}

/// What a message of `chat` asks for, where `allowed` may use the bot.
pub open spec fn command_in(allowed: Seq<char>, chat: Seq<char>, text: Seq<char>) -> BotCommand {
    let asked = trimmed(text);
    if chat != allowed {
        BotCommand::Refuse
    } else if asked == "/logout"@ {
        BotCommand::Logout
    } else if asked == "/status"@ {
        BotCommand::Status
    } else if asked == "/login"@ {
        BotCommand::Login
    } else if begins_with(asked, "/login "@) {
        BotCommand::PasswordSent
    } else {
        BotCommand::Unknown
    }
}

/// What a message asks for, where `allowed` may use the bot.
pub fn command_of(allowed: &str, message: &Message) -> (command: BotCommand)
    ensures
        command == command_in(allowed@, message.chat_id@, message.text@),
{
    if *message.chat_id.as_str() != *allowed {
        return BotCommand::Refuse;
    }
    let asked = trim(message.text.as_str());
    if *asked.as_str() == *"/logout" {
        BotCommand::Logout
    } else if *asked.as_str() == *"/status" {
        BotCommand::Status
    } else if *asked.as_str() == *"/login" {
        BotCommand::Login
    } else if starts_with(asked.as_str(), "/login ") {
        BotCommand::PasswordSent
    } else {
        BotCommand::Unknown
    }
}

/// What the bot does about a message.
#[derive(Debug)]
pub struct BotAnswer {
    /// What is sent back, if anything.
    pub reply: Option<&'static str>,
    /// The subscribers from now on, if they are to be saved.
    pub save: Option<Vec<String>>,
}

/// What is sent back. `subscribed` says whether the chat gets the alerts.
pub open spec fn reply_to(command: BotCommand, subscribed: bool) -> Option<Seq<char>> {
    match command {
        BotCommand::Refuse => Some("Доступ запрещен для этого Telegram чата."@),
        BotCommand::Logout => Some("Вы вышли из рассылки отчетов."@),
        BotCommand::Status => if subscribed {
            Some("Вы залогинены и будете получать отчеты."@)
        } else {
            Some("Вы не залогинены. Используйте /login из разрешенного чата."@)
        },
        BotCommand::Login => Some("Логин успешен. Вы будете получать отчеты каждые 5 часов."@),
        BotCommand::PasswordSent => Some(
            "Не отправляйте пароль в Telegram. Используйте /login из разрешенного чата."@,
        ),
        BotCommand::Unknown => None,
    }
}

/// Those of `list` that are not `chat`.
pub open spec fn all_but(list: Seq<Seq<char>>, chat: Seq<char>) -> Seq<Seq<char>> {
    list.filter(|s: Seq<char>| s != chat)
}

/// The subscribers after a command of `chat`.
pub open spec fn subscribers_after(
    command: BotCommand,
    chat: Seq<char>,
    subscribers: Seq<Seq<char>>,
) -> Seq<Seq<char>> {
    match command {
        BotCommand::Logout => all_but(subscribers, chat),
        BotCommand::Login => if subscribers.contains(chat) {
            subscribers
        } else {
            subscribers.push(chat)
        },
        _ => subscribers,
    }
}

/// Whether the subscribers are saved after a command of `chat`.
pub open spec fn saves(command: BotCommand, chat: Seq<char>, subscribers: Seq<Seq<char>>) -> bool {
    match command {
        BotCommand::Logout => true,
        BotCommand::Login => !subscribers.contains(chat),
        _ => false,
    }
}

fn without(list: &Vec<String>, chat: &str) -> (rest: Vec<String>)
    ensures
        texts(rest@) == all_but(texts(list@), chat@),
{
    let ghost all = texts(list@);
    let ghost wanted = |s: Seq<char>| s != chat@;
    let mut rest: Vec<String> = Vec::new();
    let mut i: usize = 0;
    assert(texts(rest@) =~= all.take(0).filter(wanted)) by {
        reveal(Seq::filter);
    }
    while i < list.len()
        invariant
            i <= list@.len(),
            all == texts(list@),
            wanted == (|s: Seq<char>| s != chat@),
            texts(rest@) == all.take(i as int).filter(wanted),
        decreases list@.len() - i,
    {
        let ghost before = texts(rest@);
        assert(all.take(i + 1).drop_last() =~= all.take(i as int));
        assert(all.take(i + 1).last() == list@[i as int]@);
        reveal(Seq::filter);
        if *list[i].as_str() != *chat {
            rest.push(list[i].clone());
            assert(texts(rest@) =~= before.push(list@[i as int]@));
        }
        i += 1;
    }
    assert(all.take(all.len() as int) =~= all);
    rest
}

/// What the bot does about a command of `chat`, with `subscribers` getting the alerts so far.
pub fn answer_command(command: BotCommand, chat: &str, subscribers: Vec<String>) -> (answer:
    BotAnswer)
    ensures
        answer.reply is Some <==> !(command is Unknown),
        answer.reply matches Some(text) ==> reply_to(
            command,
            texts(subscribers@).contains(chat@),
        ) == Some(text@),
        answer.save is Some <==> saves(command, chat@, texts(subscribers@)),
        answer.save matches Some(list) ==> texts(list@) == subscribers_after(
            command,
            chat@,
            texts(subscribers@),
        ),
{
    match command {
        BotCommand::Refuse => BotAnswer {
            reply: Some("Доступ запрещен для этого Telegram чата."),
            save: None,
        },
        BotCommand::Logout => BotAnswer {
            reply: Some("Вы вышли из рассылки отчетов."),
            save: Some(without(&subscribers, chat)),
        },
        BotCommand::Status => {
            if contains_text(&subscribers, chat) {
                BotAnswer { reply: Some("Вы залогинены и будете получать отчеты."), save: None }
            } else {
                BotAnswer {
                    reply: Some("Вы не залогинены. Используйте /login из разрешенного чата."),
                    save: None,
                }
            }
        },
        BotCommand::Login => {
            let reply = Some("Логин успешен. Вы будете получать отчеты каждые 5 часов.");
            if contains_text(&subscribers, chat) {
                return BotAnswer { reply, save: None };
            }
            let mut list = subscribers;
            let ghost before = texts(list@);
            list.push(chat.to_string());
            assert(texts(list@) =~= before.push(chat@));
            BotAnswer { reply, save: Some(list) }
        },
        BotCommand::PasswordSent => BotAnswer {
            reply: Some("Не отправляйте пароль в Telegram. Используйте /login из разрешенного чата."),
            save: None,
        },
        BotCommand::Unknown => BotAnswer { reply: None, save: None },
    }
}

/// Only the allowed chat changes who gets the alerts, and only for itself: after a login it gets
/// them, after a logout it does not, and every other chat as before.
pub proof fn only_the_allowed_chat_counts(
    allowed: Seq<char>,
    chat: Seq<char>,
    text: Seq<char>,
    subscribers: Seq<Seq<char>>,
    other: Seq<char>,
)
    requires
        other != chat,
    ensures
        ({
            let command = command_in(allowed, chat, text);
            let after = subscribers_after(command, chat, subscribers);
            &&& chat != allowed ==> command is Refuse && after == subscribers && !saves(
                command,
                chat,
                subscribers,
            )
            &&& command is Login ==> after.contains(chat)
            &&& command is Logout ==> !after.contains(chat)
            &&& after.contains(other) <==> subscribers.contains(other)
            &&& !saves(command, chat, subscribers) ==> after == subscribers
        }),
{
    lemma_pushed_contains(subscribers, chat);
    lemma_filter(subscribers, chat, other);
}

proof fn lemma_filter(list: Seq<Seq<char>>, chat: Seq<char>, other: Seq<char>)
    requires
        other != chat,
    ensures
        !all_but(list, chat).contains(chat),
        all_but(list, chat).contains(other) <==> list.contains(other),
    decreases list.len(),
{
    reveal(Seq::filter);
    if list.len() > 0 {
        let rest = list.drop_last();
        lemma_filter(rest, chat, other);
        lemma_pushed_contains(rest, list.last());
        assert(list =~= rest.push(list.last()));
        lemma_pushed_contains(all_but(rest, chat), list.last());
    }
}

/// No chat gets an alert twice: a list without repetition stays one.
pub proof fn nobody_subscribes_twice(
    command: BotCommand,
    chat: Seq<char>,
    subscribers: Seq<Seq<char>>,
)
    requires
        subscribers.no_duplicates(),
    ensures
        subscribers_after(command, chat, subscribers).no_duplicates(),
    decreases subscribers.len(),
{
    if command is Logout && subscribers.len() > 0 {
        reveal(Seq::filter);
        let rest = subscribers.drop_last();
        let last = subscribers.last();
        nobody_subscribes_twice(command, chat, rest);
        if last != chat {
            lemma_filter(rest, chat, last);
            assert(!rest.contains(last)) by {
                if rest.contains(last) {
                    let k = choose|k: int| 0 <= k < rest.len() && rest[k] == last;
                    assert(subscribers[k] == subscribers[subscribers.len() - 1]);
                }
            }
            let kept = all_but(rest, chat);
            assert(all_but(subscribers, chat) =~= kept.push(last));
            assert forall|i: int, j: int|
                0 <= i < kept.len() + 1 && 0 <= j < kept.len() + 1 && i != j implies kept.push(
                last,
            )[i] != kept.push(last)[j] by {
                if i == kept.len() {
                    assert(kept.contains(kept[j]));
                } else if j == kept.len() {
                    assert(kept.contains(kept[i]));
                }
            }
        } else {
            assert(all_but(subscribers, chat) =~= all_but(rest, chat));
        }
    } else if command is Logout {
        reveal(Seq::filter);
    } else if command is Login && !subscribers.contains(chat) {
        let after = subscribers.push(chat);
        assert forall|i: int, j: int|
            0 <= i < after.len() && 0 <= j < after.len() && i != j implies after[i] != after[j] by {
            if i == subscribers.len() {
                assert(subscribers.contains(subscribers[j]));
            } else if j == subscribers.len() {
                assert(subscribers.contains(subscribers[i]));
            }
        }
    }
}

// The file of the subscribers.

/// The subscribers that the text of a file says: a JSON list of texts, and none where it is anything
/// else.
pub open spec fn subscribers_said(text: Seq<char>) -> Seq<Seq<char>> {
    match json_list(text) {
        Some(list) => list,
        None => Seq::empty(),
    }
}

/// The subscribers in the text of their file, and none where there is no such file.
pub fn load_telegram_subscribers(text: Option<&str>) -> (list: Vec<String>)
    ensures
        texts(list@) == (match text {
            Some(t) => subscribers_said(t@),
            None => Seq::empty(),
        }),
{
    let read = match text {
        Some(t) => list_of_text(t),
        None => None,
    };
    match read {
        Some(list) => list,
        None => {
            let none: Vec<String> = Vec::new();
            assert(texts(none@) =~= Seq::<Seq<char>>::empty());
            none
        },
    }
}

/// The text of the file of the subscribers. What is saved is loaded again.
pub fn save_telegram_subscribers(list: &Vec<String>) -> (text: String)
    ensures
        text@ == list_text(texts(list@)),
        subscribers_said(text@) == texts(list@),
{
    match pretty_list(list) {
        Some(text) => text,
        None => String::new(),
    }
}

// What is sent.

/// Those of `subscribers` who are told by the bot of `token`.
pub open spec fn told(token: Seq<char>, subscribers: Seq<Seq<char>>) -> Seq<Seq<char>> {
    if token.len() == 0 {
        Seq::empty()
    } else {
        subscribers
    }
}

/// Who gets an alert: the subscribers, where there is a bot.
pub fn recipients(token: &str, subscribers: Vec<String>) -> (list: Vec<String>)
    ensures
        texts(list@) == told(token@, texts(subscribers@)),
{
    if token.unicode_len() == 0 {
        let none: Vec<String> = Vec::new();
        assert(texts(none@) =~= Seq::<Seq<char>>::empty());
        return none;
    }
    subscribers
}

/// How a message is sent.
#[derive(Debug)]
pub enum SendPlan {
    /// There is nobody to send it to.
    Nothing,
    /// Too many were sent: it is not, and this says why.
    RateLimited(String),
    /// `body` is sent to `url`.
    Post { url: String, body: String },
}

/// A message to a chat, as the bot takes it.
pub open spec fn send_text(chat_id: Seq<char>, text: Seq<char>) -> Seq<char> {
    "{\"chat_id\":"@ + json_quoted(chat_id) + ",\"disable_web_page_preview\":true,\"text\":"@
        + json_quoted(text) + "}"@
}

/// Whether `plan` is how a message is sent at the time `now`, where none may be sent before
/// `blocked_until`.
pub open spec fn planned(
    plan: SendPlan,
    token: Seq<char>,
    chat_id: Seq<char>,
    text: Seq<char>,
    blocked_until: int,
    now: int,
) -> bool {
    if token.len() == 0 || chat_id.len() == 0 {
        plan is Nothing
    } else if now < blocked_until {
        plan matches SendPlan::RateLimited(message) && message@ == "rate limited for "@ + int_text(
            blocked_until - now,
        ) + "ms"@
    } else {
        plan matches SendPlan::Post { url, body } && url@ == bot_address(token, "sendMessage"@)
            && body@ == send_text(chat_id, text)
    }
}

/// How a message is sent at the time `now`, where none may be sent before `blocked_until`. There is
/// an error where the rest of that time is too large.
pub fn plan_send_at(token: &str, chat_id: &str, text: &str, blocked_until: i64, now: i64) -> (plan:
    Result<SendPlan, Overflow>)
    ensures
        plan is Err <==> token@.len() > 0 && chat_id@.len() > 0 && blocked_until - now > i64::MAX,
        plan matches Ok(p) ==> planned(
            p,
            token@,
            chat_id@,
            text@,
            blocked_until as int,
            now as int,
        ),
{
    if token.unicode_len() == 0 || chat_id.unicode_len() == 0 {
        return Ok(SendPlan::Nothing);
    }
    if now < blocked_until {
        return match blocked_until.checked_sub(now) {
            Some(rest) => Ok(
                SendPlan::RateLimited(
                    "rate limited for ".to_string().concat(text_of_i64(rest).as_str()).concat("ms"),
                ),
            ),
            None => Err(Overflow),
        };
    }
    let body = "{\"chat_id\":".to_string().concat(quoted(chat_id).as_str()).concat(
        ",\"disable_web_page_preview\":true,\"text\":",
    ).concat(quoted(text).as_str()).concat("}");
    Ok(SendPlan::Post { url: bot_url(token, "sendMessage"), body })
}

/// How a message is sent now, where none may be sent before `blocked_until`.
pub fn telegram_send_raw(token: &str, chat_id: &str, text: &str, blocked_until: i64) -> (plan:
    SendPlan)
    ensures
        exists|now: int|
            clock_shows(now) && #[trigger] planned(
                plan,
                token@,
                chat_id@,
                text@,
                blocked_until as int,
                now,
            ),
{
    let now: i64 = now_ms();
    match plan_send_at(token, chat_id, text, blocked_until, now) {
        Ok(plan) => plan,
        Err(_) => SendPlan::Nothing,
    }
}

/// How long the bot asks to wait, in seconds.
pub open spec fn asked_wait(status: u16, body: Seq<char>) -> Option<int> {
    if status == 429 {
        match json_parsed(body) {
            Some(v) => as_int(field_of_field(v, "parameters"@, "retry_after"@)),
            None => None,
        }
    } else {
        None
    }
}

/// Whether the time until which the bot asks to wait at the time `now` is too large.
pub open spec fn wait_overflows(status: u16, body: Seq<char>, now: int) -> bool {
    asked_wait(status, body) matches Some(secs) && !(i64::MIN <= secs * 1000 <= i64::MAX && i64::MIN
        <= now + secs * 1000 <= i64::MAX)
}

/// Until when no message may be sent after an answer of the bot at the time `now`. There is an
/// error where that is too large.
pub fn blocked_after_at(status: u16, body: &str, blocked_until: i64, now: i64) -> (until: Result<
    i64,
    Overflow,
>)
    ensures
        until is Err <==> wait_overflows(status, body@, now as int),
        until matches Ok(t) ==> t == (match asked_wait(status, body@) {
            Some(secs) => now + secs * 1000,
            None => blocked_until as int,
        }),
{
    if status != 429 {
        return Ok(blocked_until);
    }
    let secs: i64 = match parse_json(body) {
        Some(v) => match v.get("parameters") {
            Some(parameters) => match parameters.int_field("retry_after") {
                Some(secs) => secs,
                None => {
                    return Ok(blocked_until);
                },
            },
            None => {
                return Ok(blocked_until);
            },
        },
        None => {
            return Ok(blocked_until);
        },
    };
    match secs.checked_mul(1000) {
        Some(ms) => match now.checked_add(ms) {
            Some(until) => Ok(until),
            None => Err(Overflow),
        },
        None => Err(Overflow),
    }
}

/// Until when no message may be sent after an answer of the bot now. There is an error where that
/// is too large.
pub fn blocked_after(status: u16, body: &str, blocked_until: i64) -> (until: Result<i64, Overflow>)
    ensures
        asked_wait(status, body@) is None ==> until == Ok::<i64, Overflow>(blocked_until),
        exists|now: int|
            clock_shows(now) && (until is Err <==> #[trigger] wait_overflows(status, body@, now))
                && (asked_wait(status, body@) matches Some(secs) ==> (until matches Ok(t) ==> t
                == now + secs * 1000)),
{
    let now: i64 = now_ms();
    let until = blocked_after_at(status, body, blocked_until, now);
    assert(until is Err <==> wait_overflows(status, body@, now as int));
    until
}

/// Whether a status says that the bot took a message.
pub open spec fn taken(status: u16) -> bool {
    200 <= status <= 299
}

/// What an answer of the bot to a message means: it was taken where the status is between 200 and
/// 299. `status_text` is the status, as it is to be shown.
pub fn send_result(status: u16, status_text: &str, body: &str) -> (result: Result<(), String>)
    ensures
        result is Ok <==> taken(status),
        result matches Err(message) ==> message@ == "telegram sendMessage HTTP "@ + status_text@
            + ": "@ + body@,
{
    if 200 <= status && status <= 299 {
        return Ok(());
    }
    Err(
        "telegram sendMessage HTTP ".to_string().concat(status_text).concat(": ").concat(body),
    )
}

/// Where the bot asks to wait, no message is sent until that time is over, and each one after it.
pub proof fn waits_as_long_as_asked(
    status: u16,
    body: Seq<char>,
    until: int,
    asked_at: int,
    plan: SendPlan,
    token: Seq<char>,
    chat_id: Seq<char>,
    text: Seq<char>,
    now: int,
)
    requires
        asked_wait(status, body) matches Some(secs) && until == asked_at + secs * 1000,
        planned(plan, token, chat_id, text, until, now),
        token.len() > 0,
        chat_id.len() > 0,
    ensures
        plan is Post <==> now - asked_at >= asked_wait(status, body)->0 * 1000,
{
}

} // verus!
