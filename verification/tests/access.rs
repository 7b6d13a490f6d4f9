use mexc_lag::auth::{
    add_user, bearer_token, begin_login, begin_login_at, check_credentials, finish_login,
    finish_login_at, hash_password, typed_username, unauthorized, verify_password, AddUserError, LoginAttempts,
    LoginReply, Sessions, User, BLOCK_MS, SESSION_MS,
};

const DAY: i64 = 24 * 60 * 60 * 1_000;

#[test]
fn five_failures_block_for_fifteen_minutes() {
    let mut a = LoginAttempts::new();
    for i in 0..4 {
        a.record_failure_at("1.1.1.1", 1_000 + i);
        assert!(!a.is_blocked_at("1.1.1.1", 1_000 + i));
    }
    assert_eq!(a.failures("1.1.1.1"), 4);
    a.record_failure_at("1.1.1.1", 2_000);
    assert!(a.is_blocked_at("1.1.1.1", 2_000));
    assert!(a.is_blocked_at("1.1.1.1", 2_000 + 15 * 60 * 1_000 - 1));
    assert!(!a.is_blocked_at("1.1.1.1", 2_000 + 15 * 60 * 1_000));
    assert!(!a.is_blocked_at("2.2.2.2", 2_000));
    a.record_failure_at("1.1.1.1", 5_000_000);
    assert!(a.is_blocked_at("1.1.1.1", 5_000_001));
    assert_eq!(BLOCK_MS, 15 * 60 * 1_000);
}

#[test]
fn a_success_forgives() {
    let mut a = LoginAttempts::new();
    for _ in 0..5 {
        a.record_failure("1.1.1.1");
    }
    assert!(a.is_blocked("1.1.1.1"));
    assert!(matches!(begin_login(&a, "1.1.1.1"), Some(LoginReply::TooManyAttempts)));
    assert!(begin_login(&a, "1.1.1.2").is_none());
    a.record_success("1.1.1.1");
    assert!(!a.is_blocked("1.1.1.1"));
    for _ in 0..4 {
        a.record_failure("1.1.1.1");
    }
    assert!(!a.is_blocked("1.1.1.1"));
}

#[test]
fn tokens_stand_behind_bearer() {
    assert_eq!(bearer_token(Some("Bearer abc")), Some("abc".to_string()));
    assert_eq!(bearer_token(Some("bearer abc")), None);
    assert_eq!(bearer_token(Some("Basic abc")), None);
    assert_eq!(bearer_token(None), None);
}

#[test]
fn requests_need_an_open_session() {
    let mut s = Sessions::new();
    s.open("t".to_string(), "ann".to_string(), 100);
    assert!(s.admits_at(false, Some("Bearer t"), 99));
    assert!(!s.admits_at(false, Some("Bearer t"), 100));
    assert!(!s.admits_at(false, Some("Bearer u"), 99));
    assert!(!s.admits_at(false, Some("t"), 99));
    assert!(!s.admits_at(false, None, 99));
    assert!(s.admits_at(true, None, 1_000));
    assert!(!s.admits(false, Some("Bearer t")));
    assert!(s.admits(true, None));
    assert_eq!(unauthorized(), (401, "Unauthorized"));
}

#[test]
fn logout_ends_the_session() {
    let mut s = Sessions::new();
    s.open("t".to_string(), "ann".to_string(), i64::MAX);
    s.open("u".to_string(), "bob".to_string(), i64::MAX);
    s.logout(None);
    s.logout(Some("Basic t"));
    assert!(s.admits(false, Some("Bearer t")));
    s.logout(Some("Bearer t"));
    assert!(!s.admits(false, Some("Bearer t")));
    assert!(s.admits(false, Some("Bearer u")));
}

#[test]
fn a_password_fits_its_hash_only() {
    let hash = hash_password("s3cret").unwrap();
    assert!(hash.starts_with("$argon2id$"));
    assert_ne!(hash, "s3cret");
    assert!(verify_password("s3cret", &hash));
    assert!(!verify_password("s3cret ", &hash));
    assert!(!verify_password("", &hash));
    assert!(!verify_password("s3cret", "s3cret"));
    assert!(!verify_password("s3cret", ""));
    assert_ne!(hash_password("s3cret").unwrap(), hash);
}

#[test]
fn credentials_are_those_of_the_first_user_with_the_name() {
    let users = vec![
        User { username: "ann".to_string(), hash: hash_password("a").unwrap() },
        User { username: "ann".to_string(), hash: hash_password("b").unwrap() },
    ];
    assert!(check_credentials(&users, "ann", "a"));
    assert!(!check_credentials(&users, "ann", "b"));
    assert!(!check_credentials(&users, "bob", "a"));
    assert!(!check_credentials(&vec![], "ann", "a"));
}

#[test]
fn a_login_opens_a_session_for_seven_days() {
    let mut a = LoginAttempts::new();
    let mut s = Sessions::new();
    a.record_failure_at("ip", 5);
    let reply = finish_login_at(&mut a, &mut s, "ip", "ann".to_string(), true, "tok".to_string(), 10);
    let reply = reply.unwrap();
    assert_eq!(reply.status(), 200);
    assert_eq!(reply.text(), "tok");
    assert_eq!(a.failures("ip"), 0);
    assert!(s.admits_at(false, Some("Bearer tok"), 10 + 7 * DAY - 1));
    assert!(!s.admits_at(false, Some("Bearer tok"), 10 + 7 * DAY));
    assert_eq!(SESSION_MS, 7 * DAY);
}

#[test]
fn a_wrong_login_opens_nothing() {
    let mut a = LoginAttempts::new();
    let mut s = Sessions::new();
    for i in 0..5 {
        assert!(begin_login_at(&a, "ip", 10 + i).is_none());
        let reply = finish_login_at(
            &mut a, &mut s, "ip", "ann".to_string(), false, "tok".to_string(), 10 + i,
        );
        let reply = reply.unwrap();
        assert_eq!(reply.status(), 401);
        assert_eq!(reply.text(), "Invalid credentials");
    }
    assert!(!s.admits_at(false, Some("Bearer tok"), 20));
    let refused = begin_login_at(&a, "ip", 20).unwrap();
    assert_eq!(refused.status(), 429);
    assert_eq!(refused.text(), "Too many failed attempts, wait 15 minutes");
}

#[test]
fn tokens_are_random() {
    let mut a = LoginAttempts::new();
    let mut s = Sessions::new();
    let first = finish_login(&mut a, &mut s, "ip", "ann".to_string(), true).unwrap().text();
    let second = finish_login(&mut a, &mut s, "ip", "ann".to_string(), true).unwrap().text();
    assert_eq!(first.len(), 64);
    assert!(first.chars().all(|c| c.is_ascii_alphanumeric()));
    assert_ne!(first, second);
    assert!(s.admits(false, Some(&format!("Bearer {}", first))));
    assert!(s.admits(false, Some(&format!("Bearer {}", second))));
    let refused = finish_login(&mut a, &mut s, "ip", "ann".to_string(), false).unwrap();
    assert!(matches!(refused, LoginReply::InvalidCredentials));
}

#[test]
fn an_added_user_can_log_in() {
    let users = add_user(vec![], "ann", "one").unwrap();
    let users = add_user(users, "bob", "two").unwrap();
    let users = add_user(users, "ann", "three").unwrap();
    assert_eq!(users.len(), 2);
    assert_eq!(users[0].username, "bob");
    assert!(check_credentials(&users, "ann", "three"));
    assert!(!check_credentials(&users, "ann", "one"));
    assert!(check_credentials(&users, "bob", "two"));
}

#[test]
fn users_need_a_name_and_a_password() {
    assert_eq!(typed_username("  ann \n").unwrap(), "ann");
    let e = typed_username(" \n").unwrap_err();
    assert!(matches!(e, AddUserError::EmptyUsername));
    assert_eq!(e.message(), "username cannot be empty");
    let e = add_user(vec![], "ann", "").unwrap_err();
    assert!(matches!(e, AddUserError::EmptyPassword));
    assert_eq!(e.message(), "password cannot be empty");
    assert_eq!(AddUserError::Hash("hash error: x".to_string()).message(), "hash error: x");
}

#[test]
fn a_refusal_does_not_tell_who_is_there() {
    let users = vec![User { username: "ann".to_string(), hash: hash_password("a").unwrap() }];
    let mut answers = Vec::new();
    for (name, password) in [("ann", "b"), ("bob", "a")] {
        let mut a = LoginAttempts::new();
        let mut s = Sessions::new();
        let valid = check_credentials(&users, name, password);
        let token = "tok".to_string();
        let reply = finish_login_at(&mut a, &mut s, "ip", name.to_string(), valid, token, 10);
        let reply = reply.unwrap();
        let open = s.admits_at(false, Some("Bearer tok"), 11);
        answers.push((reply.status(), reply.text(), a.failures("ip"), open));
    }
    assert_eq!(answers[0], answers[1]);
    assert_eq!(answers[0], (401, "Invalid credentials".to_string(), 1, false));
}

#[test]
fn a_hash_with_too_many_lanes_fits_no_password() {
    let end = "c29tZXNhbHQ$RdescudvJCsgt3ub+b+dWRWJTmaaJObE";
    for params in [
        "m=19456,t=2,p=600000000",
        "m=19456,t=2,p=536870912",
        "m=19456,t=2,p=4294967295",
        "m=19456,t=2,p=99999999999999999999",
        "p=1,m=19456,t=2,p=600000000",
        "p=600000000,m=19456,t=2,p=1",
        "m=19456,t=2,p=16777216",
        "m=19456,t=2,p=0",
        "m=19456,t=2,p=x",
    ] {
        assert!(!verify_password("a", &format!("$argon2id$v=19${params}${end}")), "{}", params);
    }
    let user = User {
        username: "ann".to_string(),
        hash: format!("$argon2id$v=19$m=19456,t=2,p=600000000${end}"),
    };
    assert!(!check_credentials(&vec![user], "ann", "a"));
}

#[test]
fn a_hash_with_several_lanes_fits_its_password() {
    let params = argon2::Params::new(64, 1, 4, None).unwrap();
    let hasher =
        argon2::Argon2::new(argon2::Algorithm::Argon2id, argon2::Version::V0x13, params);
    let salt = argon2::password_hash::SaltString::from_b64("c29tZXNhbHRzYWx0").unwrap();
    let hash = argon2::PasswordHasher::hash_password(&hasher, b"a", &salt).unwrap().to_string();
    assert!(hash.contains(",p=4$"));
    assert!(verify_password("a", &hash));
    assert!(!verify_password("b", &hash));
}
