//! What the bot does about a message, and how messages are sent.

use vstd::prelude::*;

use crate::json::{field, json_parsed, json_quoted, JsonView};
use crate::laws::objects::{fields_text, lemma_field_follows, object_text};
use crate::telegram::{
    all_but, asked_wait, bot_address, command_in, ids_overflow, message_of, messages_of, offset_after, planned,
    reply_to, saves, send_text, subscribers_after, taken, told, updates_in, wait_overflows, BotCommand, SendPlan,
};
use crate::text::{int_text, trimmed};

verus! {

/// A message asks for what its text says, without the white space around it, where it comes from the
/// allowed chat; from every other chat it is refused.
pub proof fn commands_are_what_was_typed(
    allowed: Seq<char>,
    chat: Seq<char>,
    text: Seq<char>,
    rest: Seq<char>,
)
    ensures
        chat != allowed ==> command_in(allowed, chat, text) is Refuse,
        chat == allowed ==> {
            &&& !(command_in(allowed, chat, text) is Refuse)
            &&& command_in(allowed, chat, text) is Login <==> trimmed(text) == "/login"@
            &&& command_in(allowed, chat, text) is Logout <==> trimmed(text) == "/logout"@
            &&& command_in(allowed, chat, text) is Status <==> trimmed(text) == "/status"@
            &&& trimmed(text) == "/login "@ + rest ==> command_in(allowed, chat, text)
                is PasswordSent
            &&& command_in(allowed, chat, text) is PasswordSent ==> trimmed(text).len() >= 7
                && trimmed(text).subrange(0, 7) == "/login "@
        },
{
    reveal_strlit("/login");
    reveal_strlit("/logout");
    reveal_strlit("/status");
    reveal_strlit("/login ");
    assert("/logout"@[4] == 'o' && "/status"@[1] == 's' && "/login "@[4] == 'i');
    let t = trimmed(text);
    if t == "/login "@ + rest {
        assert(t.subrange(0, 7) =~= "/login "@);
        assert(t[1] == 'l' && t[4] == 'i');
        assert(t.len() >= 7);
    }
}

/// Each command gets its own answer; only what the bot does not know gets none.
pub proof fn each_command_gets_its_answer(subscribed: bool)
    ensures
        reply_to(BotCommand::Refuse, subscribed) == Some("Доступ запрещен для этого Telegram чата."@),
        reply_to(BotCommand::Logout, subscribed) == Some("Вы вышли из рассылки отчетов."@),
        reply_to(BotCommand::Login, subscribed) == Some(
            "Логин успешен. Вы будете получать отчеты каждые 5 часов."@,
        ),
        reply_to(BotCommand::Status, true) == Some("Вы залогинены и будете получать отчеты."@),
        reply_to(BotCommand::Status, false) == Some(
            "Вы не залогинены. Используйте /login из разрешенного чата."@,
        ),
        reply_to(BotCommand::PasswordSent, subscribed) == Some(
            "Не отправляйте пароль в Telegram. Используйте /login из разрешенного чата."@,
        ),
        reply_to(BotCommand::Unknown, subscribed) is None,
{
}

/// A login puts the chat behind the other subscribers, once; a logout takes it out and leaves the
/// others as they stand; nothing else changes the subscribers. They are saved exactly where a login
/// is new, and after each logout.
pub proof fn subscribers_follow_the_commands(
    command: BotCommand,
    chat: Seq<char>,
    subscribers: Seq<Seq<char>>,
)
    ensures
        command is Login && !subscribers.contains(chat) ==> subscribers_after(
            command,
            chat,
            subscribers,
        ) == subscribers.push(chat) && saves(command, chat, subscribers),
        command is Login && subscribers.contains(chat) ==> subscribers_after(
            command,
            chat,
            subscribers,
        ) == subscribers && !saves(command, chat, subscribers),
        command is Logout ==> saves(command, chat, subscribers) && subscribers_after(
            command,
            chat,
            subscribers.push(chat),
        ) == subscribers_after(command, chat, subscribers),
        command is Logout && !subscribers.contains(chat) ==> subscribers_after(
            command,
            chat,
            subscribers,
        ) == subscribers,
        !(command is Login) && !(command is Logout) ==> subscribers_after(
            command,
            chat,
            subscribers,
        ) == subscribers && !saves(command, chat, subscribers),
{
    reveal(Seq::filter);
    assert(subscribers.push(chat).drop_last() =~= subscribers);
    if !subscribers.contains(chat) {
        lemma_nothing_taken_out(subscribers, chat);
    }
}

proof fn lemma_nothing_taken_out(list: Seq<Seq<char>>, chat: Seq<char>)
    requires
        !list.contains(chat),
    ensures
        all_but(list, chat) == list,
    decreases list.len(),
{
    reveal(Seq::filter);
    if list.len() > 0 {
        let rest = list.drop_last();
        assert(list[list.len() - 1] != chat);
        assert(!rest.contains(chat)) by {
            if rest.contains(chat) {
                let k = choose|k: int| 0 <= k < rest.len() && rest[k] == chat;
                assert(list[k] == chat);
            }
        }
        lemma_nothing_taken_out(rest, chat);
        assert(all_but(list, chat) =~= list);
    } else {
        assert(all_but(list, chat) =~= list);
    }
}

/// An update holds a message where it has a text and the number of a chat, which stands for the chat.
pub proof fn messages_have_a_text_and_a_chat(
    update: JsonView,
    message: JsonView,
    chat: JsonView,
    text: Seq<char>,
    id: int,
    digits: Seq<char>,
)
    requires
        field(update, "message"@) == Some(message),
        field(message, "text"@) == Some(JsonView::Text(text)),
        field(message, "chat"@) == Some(chat),
        field(chat, "id"@) == Some(JsonView::Number(Some(id), digits)),
    ensures
        message_of(update) == Some((int_text(id), text)),
{
}

/// Without a text or the number of a chat there is no message.
pub proof fn what_is_no_message_is_passed_over(update: JsonView)
    ensures
        field(update, "message"@) is None ==> message_of(update) is None,
        (field(update, "message"@) matches Some(m) && !(field(m, "text"@) matches Some(
            JsonView::Text(_),
        ))) ==> message_of(update) is None,
        (field(update, "message"@) matches Some(m) && (field(m, "chat"@) is None)) ==> message_of(
            update,
        ) is None,
{
}

/// The messages of updates come in their order, each once. What is asked for next begins behind the
/// last update that has a number.
pub proof fn updates_are_read_in_order(updates: Seq<JsonView>, update: JsonView, offset: int)
    ensures
        messages_of(Seq::empty()) == Seq::<(Seq<char>, Seq<char>)>::empty(),
        message_of(update) matches Some(m) ==> messages_of(updates.push(update)) == messages_of(
            updates,
        ).push(m),
        message_of(update) is None ==> messages_of(updates.push(update)) == messages_of(updates),
        offset_after(Seq::empty(), offset) == offset,
        field(update, "update_id"@) matches Some(JsonView::Number(Some(id), _)) ==> offset_after(
            updates.push(update),
            offset,
        ) == id + 1,
        !(field(update, "update_id"@) matches Some(JsonView::Number(Some(_), _))) ==> offset_after(
            updates.push(update),
            offset,
        ) == offset_after(updates, offset),
{
    assert(updates.push(update).drop_last() =~= updates);
}

/// The updates are those in the field `result`, where that is a row.
pub proof fn updates_stand_in_the_result(answer: JsonView, items: Seq<JsonView>)
    ensures
        field(answer, "result"@) == Some(JsonView::Array(items)) ==> updates_in(answer) == items,
        !(field(answer, "result"@) matches Some(JsonView::Array(_))) ==> updates_in(answer).len()
            == 0,
{
}

/// The bot is called at its own address, which ends with what is asked of it.
pub proof fn the_bot_has_its_address(token: Seq<char>, method: Seq<char>)
    ensures
        bot_address(token, method) == "https://api.telegram.org/bot"@ + token + seq!['/'] + method,
{
    reveal_strlit("/");
    assert("/"@ =~= seq!['/']);
}

/// A message that is sent is a JSON object with the chat, the text, and no preview of links.
pub proof fn messages_say_chat_and_text(chat_id: Seq<char>, text: Seq<char>)
    ensures
        send_text(chat_id, text) == object_text(
            seq![
                ("chat_id"@, json_quoted(chat_id)),
                ("disable_web_page_preview"@, seq!['t', 'r', 'u', 'e']),
                ("text"@, json_quoted(text)),
            ],
        ),
{
    reveal_strlit("chat_id");
    reveal_strlit("disable_web_page_preview");
    reveal_strlit("text");
    reveal_strlit("{\"chat_id\":");
    reveal_strlit(",\"disable_web_page_preview\":true,\"text\":");
    reveal_strlit("}");
    assert("}"@ =~= seq!['}']);
    let yes = seq!['t', 'r', 'u', 'e'];
    let none = Seq::<(Seq<char>, Seq<char>)>::empty();
    let f1 = none.push(("chat_id"@, json_quoted(chat_id)));
    let f2 = f1.push(("disable_web_page_preview"@, yes));
    let f3 = f2.push(("text"@, json_quoted(text)));
    let m1 = seq!['"'] + "chat_id"@ + seq!['"', ':'];
    lemma_field_follows(none, seq!['{'], "chat_id"@, m1, json_quoted(chat_id));
    let m2 = seq![',', '"'] + "disable_web_page_preview"@ + seq!['"', ':'];
    lemma_field_follows(f1, fields_text(f1), "disable_web_page_preview"@, m2, yes);
    let m3 = seq![',', '"'] + "text"@ + seq!['"', ':'];
    lemma_field_follows(f2, fields_text(f2), "text"@, m3, json_quoted(text));
    assert("{\"chat_id\":"@ =~= seq!['{'] + m1);
    assert(",\"disable_web_page_preview\":true,\"text\":"@ =~= m2 + yes + m3);
    assert(f3 =~= seq![
        ("chat_id"@, json_quoted(chat_id)),
        ("disable_web_page_preview"@, yes),
        ("text"@, json_quoted(text)),
    ]);
    assert(send_text(chat_id, text) =~= fields_text(f3) + seq!['}']);
}

/// Nothing is sent without a bot or a chat, nor before the time until which the bot asked to wait;
/// and else the message goes to the chat.
pub proof fn messages_are_sent_when_they_may(
    plan: SendPlan,
    token: Seq<char>,
    chat_id: Seq<char>,
    text: Seq<char>,
    blocked_until: int,
    now: int,
)
    requires
        planned(plan, token, chat_id, text, blocked_until, now),
    ensures
        plan is Post <==> token.len() > 0 && chat_id.len() > 0 && blocked_until <= now,
        plan is Nothing <==> token.len() == 0 || chat_id.len() == 0,
        plan matches SendPlan::Post { url, body } ==> url@ == "https://api.telegram.org/bot"@ + token
            + seq!['/'] + "sendMessage"@ && body@ == send_text(chat_id, text),
        plan matches SendPlan::RateLimited(why) ==> why@ == "rate limited for "@ + int_text(
            blocked_until - now,
        ) + "ms"@,
{
    the_bot_has_its_address(token, "sendMessage"@);
}

/// The bot asks to wait by the status 429 and the seconds in the field `retry_after` of its
/// `parameters`.
pub proof fn waits_are_asked_for_in_seconds(
    status: u16,
    body: Seq<char>,
    v: JsonView,
    parameters: JsonView,
    secs: int,
    digits: Seq<char>,
)
    ensures
        status != 429 ==> asked_wait(status, body) is None,
        json_parsed(body) is None ==> asked_wait(status, body) is None,
        status == 429 && json_parsed(body) == Some(v) && field(v, "parameters"@) == Some(parameters)
            && field(parameters, "retry_after"@) == Some(JsonView::Number(Some(secs), digits))
            ==> asked_wait(status, body) == Some(secs),
        json_parsed(body) == Some(v) && field(v, "parameters"@) is None ==> asked_wait(status, body)
            is None,
{
}

/// A wait of less than a hundred million years can always be counted.
pub proof fn usual_waits_are_counted(status: u16, body: Seq<char>, now: int)
    requires
        0 <= now < 10_000_000_000_000_000,
        asked_wait(status, body) matches Some(secs) ==> 0 <= secs <= 9_000_000_000_000_000,
    ensures
        !wait_overflows(status, body, now),
{
}

/// Every subscriber is told, where there is a bot, and nobody else.
pub proof fn every_subscriber_is_told(token: Seq<char>, subscribers: Seq<Seq<char>>, chat: Seq<char>)
    ensures
        told(token, subscribers).contains(chat) <==> token.len() > 0 && subscribers.contains(chat),
        token.len() > 0 ==> told(token, subscribers).len() == subscribers.len(),
{
}

/// The bot took a message exactly where its answer has a status of success.
pub proof fn success_is_between_200_and_299(status: u16)
    ensures
        taken(status) <==> status / 100 == 2,
{
}

/// Updates cannot be read exactly where one of them has the largest number that there is, since none
/// can be asked for behind it.
pub proof fn the_largest_number_has_no_next(updates: Seq<JsonView>, i: int, digits: Seq<char>)
    requires
        0 <= i < updates.len(),
    ensures
        field(updates[i], "update_id"@) == Some(
            JsonView::Number(Some(9_223_372_036_854_775_807int), digits),
        ) ==> ids_overflow(updates),
        ids_overflow(updates) ==> exists|k: int|
            0 <= k < updates.len() && (field(#[trigger] updates[k], "update_id"@) matches Some(
                JsonView::Number(n, _),
            ) && n == Some(9_223_372_036_854_775_807int)),
{
    if ids_overflow(updates) {
        let k = choose|k: int|
            0 <= k < updates.len() && crate::json::as_int(
                field(#[trigger] updates[k], "update_id"@),
            ) == Some(i64::MAX as int);
        assert(field(updates[k], "update_id"@) is Some);
    }
}

} // verus!
