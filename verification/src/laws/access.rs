//! Who is let in.

use vstd::prelude::*;

use crate::auth::{
    argon2_params, argon2_verdict, bearer, blocked_at, credentials_fit, failed, failures_of, hash_for, login_answered, others,
    password_fits, session_open, LoginReply, Records, Session, User,
};
use crate::clock::clock_shows;
use crate::text::written_i64;

verus! {

/// A request carries the token that stands behind `Bearer ` in its header, and none where the header
/// begins otherwise.
pub proof fn tokens_stand_behind_bearer(header: &str, token: Seq<char>)
    ensures
        bearer(Some(header)) == Some(token) <==> header@ == seq!['B', 'e', 'a', 'r', 'e', 'r', ' ']
            + token,
        bearer(None) is None,
{
    reveal_strlit("Bearer ");
    let start = seq!['B', 'e', 'a', 'r', 'e', 'r', ' '];
    assert("Bearer "@ =~= start);
    let h = header@;
    if h == start + token {
        assert(h.subrange(0, 7) =~= start);
        assert(h.subrange(7, h.len() as int) =~= token);
    }
    if bearer(Some(header)) == Some(token) {
        assert(h =~= start + token);
    }
}

/// A request is let through by the token of a session until that session is over, and by no other.
pub proof fn sessions_let_through_until_they_are_over(
    sessions: Map<Seq<char>, Session>,
    token: Seq<char>,
    now: int,
)
    ensures
        session_open(sessions, Some(token), now) ==> sessions.contains_key(token) && now
            < sessions[token].expires_ms,
        sessions.contains_key(token) && now < sessions[token].expires_ms ==> session_open(
            sessions,
            Some(token),
            now,
        ),
        !session_open(sessions, None, now),
{
}

/// A user has the hash of the first entry with the name, and nobody else has one.
pub proof fn users_have_their_first_hash(users: Seq<User>, name: Seq<char>, k: int)
    ensures
        (0 <= k < users.len() && users[k].username@ == name && forall|i: int|
            0 <= i < k ==> (#[trigger] users[i]).username@ != name) ==> hash_for(users, name)
            == Some(users[k].hash@),
        (forall|i: int| 0 <= i < users.len() ==> (#[trigger] users[i]).username@ != name)
            ==> hash_for(users, name) is None,
    decreases users.len(),
{
    if users.len() > 0 {
        let rest = users.drop_first();
        users_have_their_first_hash(rest, name, k - 1);
        if 0 <= k < users.len() && users[k].username@ == name && forall|i: int|
            0 <= i < k ==> (#[trigger] users[i]).username@ != name {
            if k > 0 {
                assert(users[0].username@ != name);
                assert forall|i: int| 0 <= i < k - 1 implies (#[trigger] rest[i]).username@
                    != name by {
                    assert(rest[i] == users[i + 1]);
                }
                assert(rest[k - 1] == users[k]);
            }
        }
        if forall|i: int| 0 <= i < users.len() ==> (#[trigger] users[i]).username@ != name {
            assert(users[0].username@ != name);
            assert forall|i: int| 0 <= i < rest.len() implies (#[trigger] rest[i]).username@
                != name by {
                assert(rest[i] == users[i + 1]);
            }
        }
    }
}

/// A name and a password fit exactly where the first user with the name has a hash that the password
/// fits.
pub proof fn credentials_are_a_name_and_its_password(
    users: Seq<User>,
    name: Seq<char>,
    password: Seq<char>,
    k: int,
)
    requires
        0 <= k < users.len(),
        users[k].username@ == name,
        forall|i: int| 0 <= i < k ==> (#[trigger] users[i]).username@ != name,
    ensures
        credentials_fit(users, name, password) <==> password_fits(password, users[k].hash@),
{
    users_have_their_first_hash(users, name, k);
}

/// A failure counts one more for its address and blocks it, where it is one too many, for a quarter
/// of an hour from then. It says nothing of other addresses.
pub proof fn failures_count_for_their_address(
    records: Records,
    ip: Seq<char>,
    other: Seq<char>,
    now: int,
    later: int,
)
    requires
        clock_shows(now),
        failures_of(records, ip) < u32::MAX,
        other != ip,
    ensures
        failures_of(failed(records, ip, now), ip) == failures_of(records, ip) + 1,
        failures_of(failed(records, ip, now), other) == failures_of(records, other),
        blocked_at(failed(records, ip, now), ip, later) <==> failures_of(records, ip) + 1 >= 5
            && later < now + 900_000,
        blocked_at(failed(records, ip, now), other, later) == blocked_at(records, other, later),
{
}

/// A login with the right password is answered with its new token, under which a session of that
/// user is open for seven days. The failures of the address are forgotten, and nothing else changes.
/// A login with a wrong one is answered as such, counts one failure, and opens nothing.
pub proof fn logins_are_answered(
    before: (Records, Map<Seq<char>, Session>),
    after: (Records, Map<Seq<char>, Session>),
    reply: LoginReply,
    ip: Seq<char>,
    username: String,
    valid: bool,
    token: Seq<char>,
    now: int,
    other: Seq<char>,
)
    requires
        login_answered(before, after, reply, ip, username, valid, token, now),
        clock_shows(now),
        failures_of(before.0, ip) < u32::MAX,
    ensures
        valid ==> {
            &&& reply matches LoginReply::Token(t) && t@ == token
            &&& after.1.contains_key(token)
            &&& after.1[token].username == username
            &&& after.1[token].expires_ms == now + 7 * 24 * 60 * 60 * 1_000
            &&& failures_of(after.0, ip) == 0
            &&& other != token ==> after.1.contains_key(other) == before.1.contains_key(other)
                && (before.1.contains_key(other) ==> after.1[other] == before.1[other])
        },
        !valid ==> {
            &&& reply is InvalidCredentials
            &&& after.1 == before.1
            &&& failures_of(after.0, ip) == failures_of(before.0, ip) + 1
        },
        other != ip ==> failures_of(after.0, other) == failures_of(before.0, other),
{
}

/// The users other than the one who is added are all that were there under other names, in their
/// order, and nobody besides.
pub proof fn other_users_stay(users: Seq<User>, name: Seq<char>)
    ensures
        forall|i: int|
            0 <= i < users.len() && (#[trigger] users[i]).username@ != name ==> others(
                users,
                name,
            ).contains(users[i]),
        forall|k: int|
            0 <= k < others(users, name).len() ==> (#[trigger] others(users, name)[k]).username@
                != name && users.contains(others(users, name)[k]),
        others(users, name).len() <= users.len(),
        (forall|i: int| 0 <= i < users.len() ==> (#[trigger] users[i]).username@ != name) ==> others(
            users,
            name,
        ) == users,
    decreases users.len(),
{
    reveal(Seq::filter);
    if users.len() > 0 {
        let rest = users.drop_last();
        let (before, all) = (others(rest, name), others(users, name));
        other_users_stay(rest, name);
        assert forall|i: int|
            0 <= i < users.len() && (#[trigger] users[i]).username@ != name implies all.contains(
            users[i],
        ) by {
            if i < rest.len() {
                assert(rest[i] == users[i]);
                assert(before.contains(rest[i]));
                let k = choose|k: int| 0 <= k < before.len() && before[k] == rest[i];
                assert(all[k] == before[k]);
            } else {
                assert(all[all.len() - 1] == users.last());
            }
        }
        assert forall|k: int| 0 <= k < all.len() implies (#[trigger] all[k]).username@ != name
            && users.contains(all[k]) by {
            if k < before.len() {
                assert(all[k] == before[k]);
                let i = choose|i: int| 0 <= i < rest.len() && rest[i] == before[k];
                assert(users[i] == all[k]);
            } else {
                assert(users[users.len() - 1] == all[k]);
            }
        }
        if forall|i: int| 0 <= i < users.len() ==> (#[trigger] users[i]).username@ != name {
            assert forall|i: int| 0 <= i < rest.len() implies (#[trigger] rest[i]).username@
                != name by {
                assert(rest[i] == users[i]);
            }
            assert(users[users.len() - 1].username@ != name);
            assert(all =~= users);
        }
    } else {
        assert(others(users, name) =~= users);
    }
}

/// A password fits a hash exactly where argon2 says that it does, and the hash does not ask for more
/// lanes than can be counted in eights.
pub proof fn passwords_fit_where_argon2_says_so(password: Seq<char>, hash: Seq<char>)
    ensures
        password_fits(password, hash) ==> argon2_verdict(password, hash) == Some(true),
        argon2_verdict(password, hash) == Some(true) && (argon2_params(hash) matches Some(params)
            ==> forall|i: int|
            0 <= i < params.len() && (#[trigger] params[i]).0 == "p"@ ==> (written_i64(
                params[i].1,
            ) matches Some(n) ==> n < 536_870_912)) ==> password_fits(password, hash),
{
}

} // verus!
