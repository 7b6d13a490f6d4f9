use mexc_lag::json::parse_json;
use mexc_lag::telegram::{
    answer_command, blocked_after, blocked_after_at, bot_url, command_of, load_telegram_subscribers,
    plan_send_at, read_updates, recipients, save_telegram_subscribers, send_result, start_bot,
    telegram_send_raw, BotCommand, BotStart, Message, SendPlan,
};

fn owned(list: &[&str]) -> Vec<String> {
    list.iter().map(|s| s.to_string()).collect()
}

fn message(chat: &str, text: &str) -> Message {
    Message { chat_id: chat.to_string(), text: text.to_string() }
}

#[test]
fn the_bot_needs_a_token_and_a_chat() {
    assert!(matches!(start_bot("", "5"), BotStart::NoToken));
    assert!(matches!(start_bot("t", " \n"), BotStart::NoChat));
    assert!(matches!(start_bot("t", " 5 "), BotStart::Run(chat) if chat == "5"));
    assert_eq!(bot_url("t", "getUpdates"), "https://api.telegram.org/bott/getUpdates");
}

#[test]
fn updates_are_read() {
    let answer = parse_json(
        r#"{"ok":true,"result":[
            {"update_id":7,"message":{"text":"/login","chat":{"id":-55}}},
            {"update_id":8,"edited":{}},
            {"message":{"text":"x","chat":{"id":"no"}}},
            {"update_id":12,"message":{"chat":{"id":1}}}]}"#,
    )
    .unwrap();
    let (next, messages) = read_updates(&answer, 3).unwrap();
    assert_eq!(next, 13);
    assert_eq!(messages.len(), 1);
    assert_eq!((messages[0].chat_id.as_str(), messages[0].text.as_str()), ("-55", "/login"));
    for empty in [r#"{"result":[]}"#, r#"{"result":5}"#, "[]"] {
        let (next, messages) = read_updates(&parse_json(empty).unwrap(), 3).unwrap();
        assert_eq!((next, messages.len()), (3, 0));
    }
    let last = parse_json(r#"{"result":[{"update_id":9223372036854775807}]}"#).unwrap();
    assert!(read_updates(&last, 0).is_err());
}

#[test]
fn commands_are_told_apart() {
    assert_eq!(command_of("5", &message("6", "/login")), BotCommand::Refuse);
    assert_eq!(command_of("5", &message("5", " /login\n")), BotCommand::Login);
    assert_eq!(command_of("5", &message("5", "/logout")), BotCommand::Logout);
    assert_eq!(command_of("5", &message("5", "/status")), BotCommand::Status);
    assert_eq!(command_of("5", &message("5", "/login pw")), BotCommand::PasswordSent);
    assert_eq!(command_of("5", &message("5", "/loginpw")), BotCommand::Unknown);
    assert_eq!(command_of("5", &message("5", "hello")), BotCommand::Unknown);
}

#[test]
fn a_login_subscribes_once() {
    let a = answer_command(BotCommand::Login, "5", owned(&["1"]));
    assert_eq!(a.save, Some(owned(&["1", "5"])));
    assert_eq!(a.reply, Some("Логин успешен. Вы будете получать отчеты каждые 5 часов."));
    let again = answer_command(BotCommand::Login, "5", owned(&["1", "5"]));
    assert_eq!(again.save, None);
    assert_eq!(again.reply, a.reply);
}

#[test]
fn a_logout_unsubscribes() {
    let a = answer_command(BotCommand::Logout, "5", owned(&["5", "1", "5"]));
    assert_eq!(a.save, Some(owned(&["1"])));
    assert_eq!(a.reply, Some("Вы вышли из рассылки отчетов."));
    assert_eq!(answer_command(BotCommand::Logout, "5", vec![]).save, Some(vec![]));
}

#[test]
fn other_commands_change_nothing() {
    let yes = answer_command(BotCommand::Status, "5", owned(&["5"]));
    assert_eq!(yes.reply, Some("Вы залогинены и будете получать отчеты."));
    let no = answer_command(BotCommand::Status, "5", vec![]);
    assert_eq!(no.reply, Some("Вы не залогинены. Используйте /login из разрешенного чата."));
    let refused = answer_command(BotCommand::Refuse, "6", vec![]);
    assert_eq!(refused.reply, Some("Доступ запрещен для этого Telegram чата."));
    let warned = answer_command(BotCommand::PasswordSent, "5", vec![]);
    assert_eq!(
        warned.reply,
        Some("Не отправляйте пароль в Telegram. Используйте /login из разрешенного чата.")
    );
    let unknown = answer_command(BotCommand::Unknown, "5", vec![]);
    assert_eq!(unknown.reply, None);
    for a in [yes, no, refused, warned, unknown] {
        assert!(a.save.is_none());
    }
}

#[test]
fn saved_subscribers_are_loaded() {
    for list in [owned(&[]), owned(&["5"]), owned(&["5", "a\"b\\\n", "é"])] {
        let text = save_telegram_subscribers(&list);
        assert_eq!(text, serde_json::to_string_pretty(&list).unwrap());
        assert_eq!(load_telegram_subscribers(Some(&text)), list);
    }
    assert_eq!(save_telegram_subscribers(&vec![]), "[]");
    assert_eq!(save_telegram_subscribers(&owned(&["5", "6"])), "[\n  \"5\",\n  \"6\"\n]");
    for text in [None, Some("["), Some("{}"), Some(r#"["5",6]"#)] {
        assert!(load_telegram_subscribers(text).is_empty());
    }
}

#[test]
fn an_object_is_no_list_of_subscribers() {
    let text = r#"{"$serde_json::private::RawValue":"[\"x\"]"}"#;
    assert!(load_telegram_subscribers(Some(text)).is_empty());
}

#[test]
fn alerts_go_to_the_subscribers() {
    assert_eq!(recipients("t", owned(&["1", "2"])), owned(&["1", "2"]));
    assert!(recipients("", owned(&["1", "2"])).is_empty());
}

#[test]
fn messages_are_sent_or_wait() {
    assert!(matches!(plan_send_at("", "5", "hi", 0, 1), Ok(SendPlan::Nothing)));
    assert!(matches!(plan_send_at("t", "", "hi", 0, 1), Ok(SendPlan::Nothing)));
    match plan_send_at("t", "5", "a \"b\"", 100, 100) {
        Ok(SendPlan::Post { url, body }) => {
            assert_eq!(url, "https://api.telegram.org/bott/sendMessage");
            assert_eq!(
                body,
                r#"{"chat_id":"5","disable_web_page_preview":true,"text":"a \"b\""}"#
            );
        }
        _ => panic!("not sent"),
    }
    match plan_send_at("t", "5", "hi", 100, 40) {
        Ok(SendPlan::RateLimited(why)) => assert_eq!(why, "rate limited for 60ms"),
        _ => panic!("sent"),
    }
    assert!(plan_send_at("t", "5", "hi", i64::MAX, -5).is_err());
    assert!(matches!(telegram_send_raw("t", "5", "hi", 0), SendPlan::Post { .. }));
    assert!(matches!(telegram_send_raw("t", "5", "hi", i64::MAX), SendPlan::RateLimited(_)));
}

#[test]
fn the_bot_waits_as_long_as_asked() {
    let asked = r#"{"ok":false,"parameters":{"retry_after":30}}"#;
    assert_eq!(blocked_after_at(429, asked, 7, 1_000), Ok(31_000));
    assert_eq!(blocked_after_at(500, asked, 7, 1_000), Ok(7));
    assert_eq!(blocked_after_at(429, "busy", 7, 1_000), Ok(7));
    assert_eq!(blocked_after_at(429, r#"{"parameters":{}}"#, 7, 1_000), Ok(7));
    let long = r#"{"parameters":{"retry_after":9223372036854775807}}"#;
    assert!(blocked_after_at(429, long, 7, 1_000).is_err());
    let until = blocked_after(429, asked, 0).unwrap();
    assert!(matches!(telegram_send_raw("t", "5", "hi", until), SendPlan::RateLimited(_)));
    assert!(matches!(plan_send_at("t", "5", "hi", until, until), Ok(SendPlan::Post { .. })));
}

#[test]
fn answers_of_the_bot() {
    assert_eq!(send_result(200, "200 OK", ""), Ok(()));
    assert_eq!(send_result(299, "299", ""), Ok(()));
    assert_eq!(
        send_result(400, "400 Bad Request", "no chat"),
        Err("telegram sendMessage HTTP 400 Bad Request: no chat".to_string())
    );
    assert!(send_result(199, "", "").is_err());
}

#[test]
fn only_waits_that_cannot_be_counted_are_errors() {
    let long = r#"{"parameters":{"retry_after":9000000000000000}}"#;
    assert!(blocked_after(429, long, 0).unwrap() > 9_000_000_000_000_000_000);
    let longer = r#"{"parameters":{"retry_after":9223372036854775}}"#;
    assert!(blocked_after(429, longer, 0).is_err());
    assert_eq!(blocked_after(500, longer, 7), Ok(7));
}
