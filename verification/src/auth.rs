//! Who may use the dashboard: users, their sessions, and addresses that are blocked for a while.

use vstd::hash_map::StringHashMap;
use vstd::prelude::*;

use crate::clock::{clock_shows, now_ms};
use crate::decimal::Overflow;
use crate::text::{begins_with, parse_i64, strip_prefix, trim, trimmed, written_i64};

verus! {

// Addresses that are blocked for a while.

/// How many failures block an address.
pub const MAX_FAILURES: u32 = 5;

/// How long an address is blocked after its last failure: 15 minutes.
pub const BLOCK_MS: i64 = 900_000;

/// How long a session lasts: 7 days.
pub const SESSION_MS: i64 = 604_800_000;

/// The failures of each address, and until when it is blocked if these are too many.
pub struct LoginAttempts {
    records: StringHashMap<(u32, i64)>,
}

/// What is known of the addresses.
pub type Records = Map<Seq<char>, (u32, i64)>;

/// How often `ip` has failed since it last succeeded.
pub open spec fn failures_of(records: Records, ip: Seq<char>) -> int {
    if records.contains_key(ip) {
        records[ip].0 as int
    } else {
        0
    }
}

/// Whether `ip` is blocked at the time `now`.
pub open spec fn blocked_at(records: Records, ip: Seq<char>, now: int) -> bool {
    records.contains_key(ip) && records[ip].0 >= MAX_FAILURES && now < records[ip].1
}

/// What is known after a failure of `ip` at the time `now`.
pub open spec fn failed(records: Records, ip: Seq<char>, now: int) -> Records {
    records.insert(ip, ((failures_of(records, ip) + 1) as u32, (now + BLOCK_MS) as i64))
}

impl View for LoginAttempts {
    type V = Records;

    closed spec fn view(&self) -> Records {
        self.records@
    }
}

impl LoginAttempts {
    /// No failures yet.
    pub fn new() -> (attempts: LoginAttempts)
        ensures
            attempts@ == Records::empty(),
    {
        LoginAttempts { records: StringHashMap::new() }
    }

    /// How often `ip` has failed since it last succeeded.
    pub fn failures(&self, ip: &str) -> (count: u32)
        ensures
            count == failures_of(self@, ip@),
    {
        match self.records.get(ip) {
            Some(record) => record.0,
            None => 0,
        }
    }

    /// Whether `ip` is blocked at the time `now`.
    pub fn is_blocked_at(&self, ip: &str, now: i64) -> (blocked: bool)
        ensures
            blocked == blocked_at(self@, ip@, now as int),
    {
        match self.records.get(ip) {
            Some(record) => record.0 >= MAX_FAILURES && now < record.1,
            None => false,
        }
    }

    /// Whether `ip` is blocked now.
    pub fn is_blocked(&self, ip: &str) -> (blocked: bool)
        ensures
            exists|now: int| clock_shows(now) && blocked == #[trigger] blocked_at(self@, ip@, now),
    {
        let now: i64 = now_ms();
        let blocked = self.is_blocked_at(ip, now);
        assert(clock_shows(now as int));
        blocked
    }

    /// Notes a failure of `ip` at the time `now`.
    pub fn record_failure_at(&mut self, ip: &str, now: i64)
        requires
            failures_of(old(self)@, ip@) < u32::MAX,
            now + BLOCK_MS <= i64::MAX,
        ensures
            final(self)@ == failed(old(self)@, ip@, now as int),
    {
        let count: u32 = self.failures(ip);
        self.records.insert(ip.to_string(), (count + 1, now + BLOCK_MS));
    }

    /// Notes a failure of `ip` now.
    pub fn record_failure(&mut self, ip: &str)
        requires
            failures_of(old(self)@, ip@) < u32::MAX,
        ensures
            exists|now: int|
                clock_shows(now) && final(self)@ == #[trigger] failed(old(self)@, ip@, now),
    {
        let now: i64 = now_ms();
        let ghost before = self@;
        self.record_failure_at(ip, now);
        assert(clock_shows(now as int) && self@ == failed(before, ip@, now as int));
    }

    /// Forgets the failures of `ip`.
    pub fn record_success(&mut self, ip: &str)
        ensures
            final(self)@ == old(self)@.remove(ip@),
    {
        self.records.remove(ip);
    }
}

/// What is known after failures of `ip` at `times`, one after the other.
pub open spec fn failed_at(records: Records, ip: Seq<char>, times: Seq<i64>) -> Records
    decreases times.len(),
{
    if times.len() == 0 {
        records
    } else {
        failed(failed_at(records, ip, times.drop_last()), ip, times.last() as int)
    }
}

/// An address is blocked exactly when it has failed five times since it last succeeded, or more
/// often, and for 15 minutes from its last failure. Another address is blocked as before.
pub proof fn five_failures_block(
    records: Records,
    ip: Seq<char>,
    other: Seq<char>,
    times: Seq<i64>,
    now: int,
)
    requires
        times.len() > 0,
        forall|i: int| 0 <= i < times.len() ==> clock_shows(#[trigger] times[i] as int),
        failures_of(records, ip) + times.len() <= u32::MAX,
        other != ip,
    ensures
        blocked_at(failed_at(records, ip, times), ip, now) <==> failures_of(records, ip)
            + times.len() >= 5 && now < times.last() + 15 * 60 * 1_000,
        blocked_at(failed_at(records, ip, times), other, now) == blocked_at(records, other, now),
{
    lemma_failures(records, ip, other, times);
    assert(clock_shows(times[times.len() - 1] as int));
}

proof fn lemma_failures(records: Records, ip: Seq<char>, other: Seq<char>, times: Seq<i64>)
    requires
        failures_of(records, ip) + times.len() <= u32::MAX,
        other != ip,
    ensures
        failures_of(failed_at(records, ip, times), ip) == failures_of(records, ip) + times.len(),
        failed_at(records, ip, times).contains_key(other) == records.contains_key(other),
        failed_at(records, ip, times)[other] == records[other],
    decreases times.len(),
{
    if times.len() > 0 {
        lemma_failures(records, ip, other, times.drop_last());
    }
}

/// An address that has succeeded is not blocked, and may fail four times again.
pub proof fn success_forgives(records: Records, ip: Seq<char>, times: Seq<i64>, now: int)
    requires
        times.len() <= 4,
    ensures
        !blocked_at(failed_at(records.remove(ip), ip, times), ip, now),
{
    let other = ip.push('.');
    assert(other.len() != ip.len());
    lemma_failures(records.remove(ip), ip, other, times);
}

// Sessions.

/// A session of a user.
#[derive(Debug)]
pub struct Session {
    pub username: String,
    pub expires_ms: i64,
}

/// The sessions by their tokens.
pub struct Sessions {
    by_token: StringHashMap<Session>,
}

impl View for Sessions {
    type V = Map<Seq<char>, Session>;

    closed spec fn view(&self) -> Map<Seq<char>, Session> {
        self.by_token@
    }
}

/// The token that a request carries in its header.
pub open spec fn bearer(header: Option<&str>) -> Option<Seq<char>> {
    match header {
        Some(h) => if begins_with(h@, "Bearer "@) {
            Some(h@.subrange("Bearer "@.len() as int, h@.len() as int))
        } else {
            None
        },
        None => None,
    }
}

/// Whether `token` stands for a session at the time `now`.
pub open spec fn session_open(
    sessions: Map<Seq<char>, Session>,
    token: Option<Seq<char>>,
    now: int,
) -> bool {
    token matches Some(t) && sessions.contains_key(t) && now < sessions[t].expires_ms
}

/// The token that a request carries in its header.
pub fn bearer_token(header: Option<&str>) -> (token: Option<String>)
    ensures
        token is Some <==> bearer(header) is Some,
        token matches Some(t) ==> bearer(header) == Some(t@),
{
    match header {
        Some(h) => strip_prefix(h, "Bearer "),
        None => None,
    }
}

impl Sessions {
    /// No sessions yet.
    pub fn new() -> (sessions: Sessions)
        ensures
            sessions@ == Map::<Seq<char>, Session>::empty(),
    {
        Sessions { by_token: StringHashMap::new() }
    }

    /// Whether a request is let through at the time `now`: one that only asks for the options is,
    /// and else one with the token of a session that is not over.
    pub fn admits_at(&self, asks_options: bool, header: Option<&str>, now: i64) -> (yes: bool)
        ensures
            yes == (asks_options || session_open(self@, bearer(header), now as int)),
    {
        if asks_options {
            return true;
        }
        match bearer_token(header) {
            Some(token) => match self.by_token.get(token.as_str()) {
                Some(session) => now < session.expires_ms,
                None => false,
            },
            None => false,
        }
    }

    /// Whether a request is let through now.
    pub fn admits(&self, asks_options: bool, header: Option<&str>) -> (yes: bool)
        ensures
            asks_options ==> yes,
            bearer(header) is None && !asks_options ==> !yes,
            exists|now: int|
                clock_shows(now) && yes == (asks_options || #[trigger] session_open(
                    self@,
                    bearer(header),
                    now,
                )),
    {
        let now: i64 = now_ms();
        let ghost open = session_open(self@, bearer(header), now as int);
        let yes = self.admits_at(asks_options, header, now);
        assert(clock_shows(now as int) && yes == (asks_options || open));
        yes
    }

    /// Opens a session under `token` that is over at `expires_ms`.
    pub fn open(&mut self, token: String, username: String, expires_ms: i64)
        ensures
            final(self)@ == old(self)@.insert(token@, (Session { username, expires_ms })),
    {
        self.by_token.insert(token, Session { username, expires_ms });
    }

    /// Ends the session whose token a request carries, if there is one.
    pub fn logout(&mut self, header: Option<&str>)
        ensures
            final(self)@ == logged_out(old(self)@, bearer(header)),
    {
        match bearer_token(header) {
            Some(token) => {
                self.by_token.remove(token.as_str());
            },
            None => {},
        }
    }
}

/// What a request is answered that is not let through: a status and a text.
pub fn unauthorized() -> (answer: (u16, &'static str))
    ensures
        answer.0 == 401,
        answer.1@ == "Unauthorized"@,
{
    (401, "Unauthorized")
}

/// The sessions after a logout with `token`.
pub open spec fn logged_out(
    sessions: Map<Seq<char>, Session>,
    token: Option<Seq<char>>,
) -> Map<Seq<char>, Session> {
    match token {
        Some(t) => sessions.remove(t),
        None => sessions,
    }
}

/// After a logout the token opens nothing at any time, and every other token what it opened.
pub proof fn logout_ends_the_session(
    sessions: Map<Seq<char>, Session>,
    token: Seq<char>,
    other: Seq<char>,
    now: int,
)
    requires
        other != token,
    ensures
        !session_open(logged_out(sessions, Some(token)), Some(token), now),
        session_open(logged_out(sessions, Some(token)), Some(other), now) == session_open(
            sessions,
            Some(other),
            now,
        ),
{
}

// Passwords.

/// A user, and the hash of the user's password.
#[derive(Debug)]
pub struct User {
    pub username: String,
    pub hash: String,
}

/// A hash against which the password of an unknown user is checked, so that the answer takes as
/// long as for a known one.
const NOBODYS_HASH: &'static str =
    "$argon2id$v=19$m=19456,t=2,p=1$c29tZXNhbHQ$RdescudvJCsgt3ub+b+dWRWJTmaaJObE";

/// Whether a parameter of a hash asks for no more lanes than can be counted in eights.
pub open spec fn lanes_fit(param: (Seq<char>, Seq<char>)) -> bool {
    param.0 == "p"@ ==> (written_i64(param.1) matches Some(n) ==> n < 0x2000_0000)
}

/// Whether each parameter of `hash` asks for no more lanes than can be counted in eights.
pub open spec fn hash_lanes_fit(hash: Seq<char>) -> bool {
    argon2_params(hash) matches Some(params) ==> forall|i: int|
        0 <= i < params.len() ==> lanes_fit(#[trigger] params[i])
}

/// Whether `password` is the one behind `hash`. A hash that asks for too many lanes is nobody's.
pub open spec fn password_fits(password: Seq<char>, hash: Seq<char>) -> bool {
    hash_lanes_fit(hash) && argon2_verdict(password, hash) == Some(true)
}

fn too_many_lanes(hash: &str) -> (yes: bool)
    ensures
        yes == !hash_lanes_fit(hash@),
{
    let params = match hash_params(hash) {
        Some(params) => params,
        None => {
            return false;
        },
    };
    let ghost all = params_view(params@);
    let mut i: usize = 0;
    while i < params.len()
        invariant
            i <= params@.len(),
            all == params_view(params@),
            argon2_params(hash@) == Some(all),
            forall|k: int| 0 <= k < i ==> lanes_fit(#[trigger] all[k]),
        decreases params@.len() - i,
    {
        assert(all[i as int] == (params@[i as int].0@, params@[i as int].1@));
        if *params[i].0.as_str() == *"p" {
            if let Some(n) = parse_i64(params[i].1.as_str()) {
                if n >= 0x2000_0000 {
                    assert(!lanes_fit(argon2_params(hash@)->0[i as int]));
                    return true;
                }
            }
        }
        i += 1;
    }
    false
}

/// Whether `password` is the one behind `hash`. A text that is no hash fits no password, and
/// neither does one that asks for too many lanes.
pub fn verify_password(password: &str, hash: &str) -> (fits: bool)
    ensures
        fits == password_fits(password@, hash@),
{
    if too_many_lanes(hash) {
        return false;
    }
    match checked_password(password, hash) {
        Some(fits) => fits,
        None => false,
    }
}

/// A new hash for `password`. It is another one each time, and `password` fits each of them. There
/// is none only for a password of more than `2^32 - 1` bytes.
pub fn hash_password(password: &str) -> (hash: Result<String, String>)
    ensures
        password@.len() <= 0x3fff_ffff ==> hash is Ok,
        hash matches Ok(h) ==> password_fits(password@, h@),
        hash matches Err(message) ==> begins_with(message@, "hash error: "@),
{
    match fresh_hash(password) {
        Ok(h) => Ok(h),
        Err(e) => {
            let message = "hash error: ".to_string().concat(e.as_str());
            assert(message@.subrange(0, "hash error: "@.len() as int) =~= "hash error: "@);
            Err(message)
        },
    }
}

/// The hash for `username`: that of the first user with that name.
pub open spec fn hash_for(users: Seq<User>, username: Seq<char>) -> Option<Seq<char>>
    decreases users.len(),
{
    if users.len() == 0 {
        None
    } else if users[0].username@ == username {
        Some(users[0].hash@)
    } else {
        hash_for(users.drop_first(), username)
    }
}

/// Whether there is a user `username` and `password` is theirs.
pub open spec fn credentials_fit(
    users: Seq<User>,
    username: Seq<char>,
    password: Seq<char>,
) -> bool {
    hash_for(users, username) matches Some(hash) && password_fits(password, hash)
}

fn find_user<'a>(users: &'a Vec<User>, username: &str) -> (user: Option<&'a User>)
    ensures
        user is Some <==> hash_for(users@, username@) is Some,
        user matches Some(u) ==> hash_for(users@, username@) == Some(u.hash@),
{
    let mut i: usize = 0;
    assert(users@.skip(0) =~= users@);
    while i < users.len()
        invariant
            i <= users@.len(),
            hash_for(users@, username@) == hash_for(users@.skip(i as int), username@),
        decreases users@.len() - i,
    {
        assert(users@.skip(i as int)[0] == users@[i as int]);
        if *users[i].username.as_str() == *username {
            return Some(&users[i]);
        }
        assert(users@.skip(i as int).drop_first() =~= users@.skip(i + 1));
        i += 1;
    }
    None
}

/// Whether there is a user `username` and `password` is theirs. A password is checked in any case,
/// so that the time does not show whether there is such a user.
pub fn check_credentials(users: &Vec<User>, username: &str, password: &str) -> (valid: bool)
    ensures
        valid == credentials_fit(users@, username@, password@),
{
    match find_user(users, username) {
        Some(user) => verify_password(password, user.hash.as_str()),
        None => {
            let _ = verify_password(password, NOBODYS_HASH);
            false
        },
    }
}

// Logins.

/// What a login is answered.
#[derive(Debug)]
pub enum LoginReply {
    /// The address is blocked.
    TooManyAttempts,
    /// The name or the password is wrong.
    InvalidCredentials,
    /// The session is open under this token.
    Token(String),
}

impl LoginReply {
    /// The status of the answer.
    pub fn status(&self) -> (code: u16)
        ensures
            code == (match *self {
                LoginReply::TooManyAttempts => 429u16,
                LoginReply::InvalidCredentials => 401u16,
                LoginReply::Token(_) => 200u16,
            }),
    {
        match self {
            LoginReply::TooManyAttempts => 429,
            LoginReply::InvalidCredentials => 401,
            LoginReply::Token(_) => 200,
        }
    }

    /// The text of a refusal, and the token of an open session.
    pub fn text(&self) -> (text: String)
        ensures
            text@ == (match *self {
                LoginReply::TooManyAttempts => "Too many failed attempts, wait 15 minutes"@,
                LoginReply::InvalidCredentials => "Invalid credentials"@,
                LoginReply::Token(token) => token@,
            }),
    {
        match self {
            LoginReply::TooManyAttempts => "Too many failed attempts, wait 15 minutes".to_string(),
            LoginReply::InvalidCredentials => "Invalid credentials".to_string(),
            LoginReply::Token(token) => token.clone(),
        }
    }
}

/// Whether a login from `ip` is refused at once at the time `now`, and how.
pub fn begin_login_at(attempts: &LoginAttempts, ip: &str, now: i64) -> (refused: Option<LoginReply>)
    ensures
        refused is Some <==> blocked_at(attempts@, ip@, now as int),
        refused matches Some(reply) ==> reply == LoginReply::TooManyAttempts,
{
    if attempts.is_blocked_at(ip, now) {
        Some(LoginReply::TooManyAttempts)
    } else {
        None
    }
}

/// Whether a login from `ip` is refused at once now, and how.
pub fn begin_login(attempts: &LoginAttempts, ip: &str) -> (refused: Option<LoginReply>)
    ensures
        refused matches Some(reply) ==> reply == LoginReply::TooManyAttempts,
        exists|now: int|
            clock_shows(now) && (refused is Some <==> #[trigger] blocked_at(attempts@, ip@, now)),
{
    let now: i64 = now_ms();
    let refused = begin_login_at(attempts, ip, now);
    assert(clock_shows(now as int) && (refused is Some <==> blocked_at(
        attempts@,
        ip@,
        now as int,
    )));
    refused
}

/// Whether a login that is not refused at once has been answered as it is at the time `now`: one
/// with the right password opens a session under `token` for 7 days and clears the failures of
/// `ip`; another one adds a failure.
pub open spec fn login_answered(
    before: (Records, Map<Seq<char>, Session>),
    after: (Records, Map<Seq<char>, Session>),
    reply: LoginReply,
    ip: Seq<char>,
    username: String,
    valid: bool,
    token: Seq<char>,
    now: int,
) -> bool {
    if valid {
        &&& reply matches LoginReply::Token(t) && t@ == token
        &&& after.0 == before.0.remove(ip)
        &&& after.1 == before.1.insert(
            token,
            Session { username, expires_ms: (now + SESSION_MS) as i64 },
        )
    } else {
        &&& reply == LoginReply::InvalidCredentials
        &&& after.0 == failed(before.0, ip, now)
        &&& after.1 == before.1
    }
}

/// Answers a login from `ip` at the time `now` whose password was checked. There is an error, and
/// nothing changes, only where the failures of `ip` are too many to count.
pub fn finish_login_at(
    attempts: &mut LoginAttempts,
    sessions: &mut Sessions,
    ip: &str,
    username: String,
    valid: bool,
    token: String,
    now: i64,
) -> (reply: Result<LoginReply, Overflow>)
    requires
        now + SESSION_MS <= i64::MAX,
    ensures
        reply is Err <==> !valid && failures_of(old(attempts)@, ip@) == u32::MAX,
        reply is Err ==> final(attempts)@ == old(attempts)@ && final(sessions)@ == old(sessions)@,
        reply matches Ok(r) ==> login_answered(
            (old(attempts)@, old(sessions)@),
            (final(attempts)@, final(sessions)@),
            r,
            ip@,
            username,
            valid,
            token@,
            now as int,
        ),
{
    if valid {
        attempts.record_success(ip);
        sessions.open(token.clone(), username, now + SESSION_MS);
        Ok(LoginReply::Token(token))
    } else {
        if attempts.failures(ip) == u32::MAX {
            return Err(Overflow);
        }
        attempts.record_failure_at(ip, now);
        Ok(LoginReply::InvalidCredentials)
    }
}

/// Answers a login from `ip` now whose password was checked. A new session gets a random token.
/// There is an error, and nothing changes, only where the failures of `ip` are too many to count.
pub fn finish_login(
    attempts: &mut LoginAttempts,
    sessions: &mut Sessions,
    ip: &str,
    username: String,
    valid: bool,
) -> (reply: Result<LoginReply, Overflow>)
    ensures
        reply is Err <==> !valid && failures_of(old(attempts)@, ip@) == u32::MAX,
        reply is Err ==> final(attempts)@ == old(attempts)@ && final(sessions)@ == old(sessions)@,
        reply matches Ok(r) ==> exists|token: Seq<char>, now: int|
            is_token(token) && clock_shows(now) && #[trigger] login_answered(
                (old(attempts)@, old(sessions)@),
                (final(attempts)@, final(sessions)@),
                r,
                ip@,
                username,
                valid,
                token,
                now,
            ),
{
    let token = if valid {
        random_token()
    } else {
        String::new()
    };
    let now: i64 = now_ms();
    let ghost drawn = if valid {
        token@
    } else {
        Seq::new(64, |i: int| '0')
    };
    let ghost before = (attempts@, sessions@);
    let reply = finish_login_at(attempts, sessions, ip, username, valid, token, now);
    assert(is_token(drawn) && clock_shows(now as int));
    assert(reply matches Ok(r) ==> login_answered(
        before,
        (attempts@, sessions@),
        r,
        ip@,
        username,
        valid,
        drawn,
        now as int,
    ));
    reply
}

/// A login with the right password is answered with status 200 and a token that lets requests
/// through for 7 days and no longer, and the address is not blocked.
pub proof fn login_opens_a_session(
    before: (Records, Map<Seq<char>, Session>),
    after: (Records, Map<Seq<char>, Session>),
    reply: LoginReply,
    ip: Seq<char>,
    username: String,
    token: Seq<char>,
    now: int,
    later: int,
)
    requires
        login_answered(before, after, reply, ip, username, true, token, now),
        clock_shows(now),
    ensures
        session_open(after.1, Some(token), later) <==> later < now + 7 * 24 * 60 * 60 * 1_000,
        !blocked_at(after.0, ip, later),
{
}

/// A login with a wrong name or password opens no session and is answered with status 401. The
/// fifth of them in a row blocks the address for 15 minutes.
pub proof fn wrong_password_opens_nothing(
    before: (Records, Map<Seq<char>, Session>),
    after: (Records, Map<Seq<char>, Session>),
    reply: LoginReply,
    ip: Seq<char>,
    username: String,
    token: Seq<char>,
    now: int,
    later: int,
)
    requires
        login_answered(before, after, reply, ip, username, false, token, now),
        clock_shows(now),
        failures_of(before.0, ip) < u32::MAX,
    ensures
        reply == LoginReply::InvalidCredentials,
        after.1 == before.1,
        blocked_at(after.0, ip, later) <==> failures_of(before.0, ip) >= 4 && later < now + 15 * 60
            * 1_000,
{
}

/// A refusal does not tell whether there is such a user: a login with a name that nobody has, and
/// one with a wrong password for a name that somebody has, are answered with the same words and
/// leave the same failures and sessions behind.
pub proof fn refusal_does_not_tell_who_is_there(
    users: Seq<User>,
    before: (Records, Map<Seq<char>, Session>),
    ip: Seq<char>,
    now: int,
    unknown: String,
    unknown_password: Seq<char>,
    unknown_token: Seq<char>,
    unknown_reply: LoginReply,
    unknown_after: (Records, Map<Seq<char>, Session>),
    known: String,
    wrong_password: Seq<char>,
    known_token: Seq<char>,
    known_reply: LoginReply,
    known_after: (Records, Map<Seq<char>, Session>),
)
    requires
        hash_for(users, unknown@) is None,
        hash_for(users, known@) matches Some(hash) && !password_fits(wrong_password, hash),
        login_answered(
            before,
            unknown_after,
            unknown_reply,
            ip,
            unknown,
            credentials_fit(users, unknown@, unknown_password),
            unknown_token,
            now,
        ),
        login_answered(
            before,
            known_after,
            known_reply,
            ip,
            known,
            credentials_fit(users, known@, wrong_password),
            known_token,
            now,
        ),
    ensures
        unknown_reply == LoginReply::InvalidCredentials,
        known_reply == unknown_reply,
        known_after == unknown_after,
{
}

// New users.

/// Why a user cannot be added.
#[derive(Debug)]
pub enum AddUserError {
    EmptyUsername,
    EmptyPassword,
    Hash(String),
}

impl AddUserError {
    /// The error in words.
    pub fn message(&self) -> (text: String)
        ensures
            text@ == (match *self {
                AddUserError::EmptyUsername => "username cannot be empty"@,
                AddUserError::EmptyPassword => "password cannot be empty"@,
                AddUserError::Hash(message) => message@,
            }),
    {
        match self {
            AddUserError::EmptyUsername => "username cannot be empty".to_string(),
            AddUserError::EmptyPassword => "password cannot be empty".to_string(),
            AddUserError::Hash(message) => message.clone(),
        }
    }
}

/// The name of a new user in a line that was typed.
pub fn typed_username(line: &str) -> (name: Result<String, AddUserError>)
    ensures
        name is Err <==> trimmed(line@).len() == 0,
        name matches Err(e) ==> e == AddUserError::EmptyUsername,
        name matches Ok(n) ==> n@ == trimmed(line@),
{
    let name = trim(line);
    if name.as_str().unicode_len() == 0 {
        return Err(AddUserError::EmptyUsername);
    }
    Ok(name)
}

/// The users other than `username`.
pub open spec fn others(users: Seq<User>, username: Seq<char>) -> Seq<User> {
    users.filter(|u: User| u.username@ != username)
}

fn without_user(users: Vec<User>, username: &str) -> (rest: Vec<User>)
    ensures
        rest@ == others(users@, username@),
{
    let ghost all = users@;
    let ghost wanted = |u: User| u.username@ != username@;
    let mut users = users;
    let mut rest: Vec<User> = Vec::new();
    let ghost mut done: int = 0;
    users = reversed(users);
    assert(all.take(0).filter(wanted) =~= Seq::<User>::empty()) by {
        reveal(Seq::filter);
    }
    while users.len() > 0
        invariant
            0 <= done <= all.len(),
            users@ == all.skip(done).reverse(),
            users@.len() == all.len() - done,
            wanted == (|u: User| u.username@ != username@),
            rest@ == all.take(done).filter(wanted),
        decreases users@.len(),
    {
        let ghost left = users@;
        match users.pop() {
            Some(user) => {
                proof {
                    assert(left.last() == all.skip(done)[0]);
                    assert(user == all[done]);
                    assert(all.take(done + 1).drop_last() =~= all.take(done));
                    assert(all.take(done + 1).last() == user);
                    reveal(Seq::filter);
                    assert(users@ =~= all.skip(done + 1).reverse());
                    done = done + 1;
                }
                if *user.username.as_str() != *username {
                    rest.push(user);
                }
            },
            None => {},
        }
    }
    assert(all.take(all.len() as int) =~= all);
    rest
}

fn reversed(list: Vec<User>) -> (back: Vec<User>)
    ensures
        back@ == list@.reverse(),
{
    let ghost all = list@;
    let mut list = list;
    let mut back: Vec<User> = Vec::new();
    while list.len() > 0
        invariant
            list@.len() + back@.len() == all.len(),
            list@ == all.take(list@.len() as int),
            back@ == all.skip(list@.len() as int).reverse(),
        decreases list@.len(),
    {
        match list.pop() {
            Some(user) => {
                back.push(user);
                assert(back@ =~= all.skip(list@.len() as int).reverse());
            },
            None => {},
        }
    }
    assert(all.skip(0) =~= all);
    back
}

/// The users with `username` under a new password, which takes the place of an earlier one.
pub fn add_user(users: Vec<User>, username: &str, password: &str) -> (added: Result<
    Vec<User>,
    AddUserError,
>)
    ensures
        password@.len() == 0 <==> added == Err::<Vec<User>, AddUserError>(
            AddUserError::EmptyPassword,
        ),
        0 < password@.len() <= 0x3fff_ffff ==> added is Ok,
        added matches Err(e) ==> !(e is EmptyUsername),
        added matches Ok(new) ==> {
            &&& new@.len() > 0
            &&& new@.drop_last() == others(users@, username@)
            &&& new@.last().username@ == username@
            &&& password_fits(password@, new@.last().hash@)
        },
{
    if password.unicode_len() == 0 {
        return Err(AddUserError::EmptyPassword);
    }
    match hash_password(password) {
        Ok(hash) => {
            let mut new = without_user(users, username);
            let ghost rest = new@;
            new.push(User { username: username.to_string(), hash });
            assert(new@.drop_last() =~= rest);
            Ok(new)
        },
        Err(message) => Err(AddUserError::Hash(message)),
    }
}

proof fn lemma_hash_for_joined(a: Seq<User>, b: Seq<User>, name: Seq<char>)
    ensures
        hash_for(a + b, name) == (if hash_for(a, name) is Some {
            hash_for(a, name)
        } else {
            hash_for(b, name)
        }),
    decreases a.len(),
{
    if a.len() == 0 {
        assert(a + b =~= b);
    } else {
        assert((a + b).drop_first() =~= a.drop_first() + b);
        lemma_hash_for_joined(a.drop_first(), b, name);
    }
}

proof fn lemma_others(users: Seq<User>, username: Seq<char>, name: Seq<char>)
    ensures
        name == username ==> hash_for(others(users, username), name) is None,
        name != username ==> hash_for(others(users, username), name) == hash_for(users, name),
    decreases users.len(),
{
    reveal(Seq::filter);
    if users.len() > 0 {
        let rest = users.drop_last();
        let last = seq![users.last()];
        lemma_others(rest, username, name);
        assert(users =~= rest + last);
        lemma_hash_for_joined(rest, last, name);
        lemma_hash_for_joined(others(rest, username), last, name);
        assert(last.drop_first() =~= Seq::<User>::empty());
        reveal_with_fuel(hash_for, 2);
        if users.last().username@ != username {
            assert(others(users, username) =~= others(rest, username) + last);
        } else {
            assert(others(users, username) =~= others(rest, username));
        }
    }
}

/// A user that was added can log in with the new password, and every other user as before.
pub proof fn added_user_can_log_in(
    users: Seq<User>,
    new: Seq<User>,
    username: Seq<char>,
    password: Seq<char>,
    other: Seq<char>,
    other_password: Seq<char>,
)
    requires
        new.len() > 0,
        new.drop_last() == others(users, username),
        new.last().username@ == username,
        password_fits(password, new.last().hash@),
        other != username,
    ensures
        credentials_fit(new, username, password),
        credentials_fit(new, other, other_password) == credentials_fit(
            users,
            other,
            other_password,
        ),
{
    let last = seq![new.last()];
    assert(new =~= new.drop_last() + last);
    lemma_hash_for_joined(new.drop_last(), last, username);
    lemma_hash_for_joined(new.drop_last(), last, other);
    lemma_others(users, username, username);
    lemma_others(users, username, other);
    assert(last.drop_first() =~= Seq::<User>::empty());
    reveal_with_fuel(hash_for, 2);
}

// The tokens of sessions.

/// Whether `c` is a letter or a digit of ASCII.
pub open spec fn is_letter_or_digit(c: char) -> bool {
    '0' <= c <= '9' || 'A' <= c <= 'Z' || 'a' <= c <= 'z'
}

/// Whether `token` can be the token of a session: 64 letters and digits of ASCII.
pub open spec fn is_token(token: Seq<char>) -> bool {
    &&& token.len() == 64
    &&& forall|i: int| 0 <= i < token.len() ==> is_letter_or_digit(#[trigger] token[i])
}

/// Draws a token.
fn random_token() -> (token: String)
    ensures
        is_token(token@),
{
    let mut token = String::new();
    let mut i: usize = 0;
    while i < 64
        invariant
            i <= 64,
            token@.len() == i,
            forall|k: int| 0 <= k < token@.len() ==> is_letter_or_digit(#[trigger] token@[k]),
        decreases 64 - i,
    {
        token.push(random_letter());
        i += 1;
    }
    token
}

// What follows is called from `argon2` and `rand`.

/// What `argon2::Argon2::verify_password` says of a password and a hash that
/// `argon2::PasswordHash::new` can read.
pub uninterp spec fn argon2_verdict(password: Seq<char>, hash: Seq<char>) -> Option<bool>;

/// The parameters in a hash that `argon2::PasswordHash::new` can read, in their order.
pub uninterp spec fn argon2_params(hash: Seq<char>) -> Option<Seq<(Seq<char>, Seq<char>)>>;

/// The names and values of parameters.
pub open spec fn params_view(params: Seq<(String, String)>) -> Seq<(Seq<char>, Seq<char>)> {
    params.map_values(|p: (String, String)| (p.0@, p.1@))
}

/// `argon2::PasswordHash::new` and `argon2::password_hash::ParamsString::iter`: whether the text is
/// a hash, and which parameters it has, is a function of the text. A name may come more than once.
#[verifier::external_body]
fn hash_params(hash: &str) -> (params: Option<Vec<(String, String)>>)
    ensures
        params is Some <==> argon2_params(hash@) is Some,
        params matches Some(list) ==> argon2_params(hash@) == Some(params_view(list@)),
{
    let parsed = argon2::PasswordHash::new(hash).ok()?;
    Some(parsed.params.iter().map(|p| (p.0.to_string(), p.1.to_string())).collect())
}

/// `argon2::PasswordHash::new` and `argon2::Argon2::verify_password`: whether the text is a hash,
/// and whether the password fits it, is a function of the two texts. The lanes are multiplied by
/// eight before they are checked, so a hash that asks for too many is left out. A hash that asks
/// for more memory than the machine has ends the process.
#[verifier::external_body]
fn checked_password(password: &str, hash: &str) -> (verdict: Option<bool>)
    requires
        hash_lanes_fit(hash@),
    ensures
        verdict == argon2_verdict(password@, hash@),
{
    let parsed = argon2::PasswordHash::new(hash).ok()?;
    let hasher = argon2::Argon2::default();
    Some(argon2::PasswordVerifier::verify_password(&hasher, password.as_bytes(), &parsed).is_ok())
}

/// `argon2::Argon2::hash_password` with a salt of `SaltString::generate`: the hash rests on chance,
/// the password fits it, and it asks for one lane. There is one for each password of at most
/// `2^32 - 1` bytes, which `2^30 - 1` characters never exceed. An error is given in words.
#[verifier::external_body]
fn fresh_hash(password: &str) -> (hash: Result<String, String>)
    ensures
        password@.len() <= 0x3fff_ffff ==> hash is Ok,
        hash matches Ok(h) ==> argon2_verdict(password@, h@) == Some(true),
        hash matches Ok(h) ==> hash_lanes_fit(h@),
{
    let mut random = argon2::password_hash::rand_core::OsRng;
    let salt = argon2::password_hash::SaltString::generate(&mut random);
    let hasher = argon2::Argon2::default();
    match argon2::PasswordHasher::hash_password(&hasher, password.as_bytes(), &salt) {
        Ok(h) => Ok(h.to_string()),
        Err(e) => Err(e.to_string()),
    }
}

/// `rand::distributions::Alphanumeric` drawn from `rand::thread_rng`: which letter or digit comes
/// rests on chance.
#[verifier::external_body]
fn random_letter() -> (c: char)
    ensures
        is_letter_or_digit(c),
{
    rand::Rng::sample(&mut rand::thread_rng(), rand::distributions::Alphanumeric) as char
}

} // verus!
