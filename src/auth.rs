use argon2::PasswordVerifier as _;
use vstd::prelude::*;

use crate::ctx::Ctx;
use crate::error::MyError;
use crate::token::{
    fresh, issue_token, issued_dot, lemma_token_round_trip, lemma_token_shape_unique, parse_token, timestamp_is_valid, timestamp_of,
    token_id_at, token_rest_at, token_shape_at, token_text,
};

verus! {

/// What to do with the session cookie after a request has been checked.
#[derive(Debug)]
pub enum CookieUpdate {
    /// Leave the cookie as it is.
    Unchanged,
    /// Write a cookie holding this token.
    Refresh(String),
    /// Delete the cookie, so that the client has to log in again.
    Clear,
}

/// The identity resolved for a request, and what happens to its cookie.
#[derive(Debug)]
pub struct AuthOutcome {
    pub ctx: Result<Ctx, MyError>,
    pub cookie: CookieUpdate,
}

/// The index of the dot in a well-shaped token.
pub open spec fn token_dot(s: Seq<char>) -> int {
    choose|k: int| token_shape_at(s, k)
}

/// The identity that the token text `s` establishes at time `now`, or the
/// authentication failure it meets first.
pub open spec fn token_verdict(s: Seq<char>, now: int) -> Result<int, MyError> {
    if !(exists|k: int| token_shape_at(s, k)) || token_id_at(s, token_dot(s)) > i32::MAX {
        Err(MyError::AuthFailTokenWrongFormat)
    } else {
        match timestamp_of(token_rest_at(s, token_dot(s))) {
            None => Err(MyError::AuthFailInvalidTimestamp),
            Some(t) => if fresh(t, now) {
                Ok(token_id_at(s, token_dot(s)))
            } else {
                Err(MyError::AuthFailExpiredTokenCookie)
            },
        }
    }
}

/// A token issued for a non-negative identity resolves to that identity while
/// it is fresh, and is expired afterwards: parsing gives back the identity and
/// the time it was issued.
pub proof fn lemma_issued_token_verdict(user_id: i32, issued_at: i64, now: int)
    requires
        user_id >= 0,
    ensures
        token_verdict(token_text(user_id as int, issued_at as int), now) == if fresh(
            issued_at as int,
            now,
        ) {
            Ok::<int, MyError>(user_id as int)
        } else {
            Err::<int, MyError>(MyError::AuthFailExpiredTokenCookie)
        },
{
    let s = token_text(user_id as int, issued_at as int);
    lemma_token_round_trip(user_id, issued_at);
    let k = issued_dot(user_id as nat);
    assert(token_shape_at(s, k));
    lemma_token_shape_unique(s, k, token_dot(s));
}

/// `r` is the outcome of checking the cookie value `cookie` at time `now`:
/// no cookie is rejected and left alone; a failing token is rejected and
/// cleared; a valid one resolves its identity and is re-issued at `now`.
pub open spec fn resolves(cookie: Option<Seq<char>>, now: int, r: AuthOutcome) -> bool {
    match cookie {
        None => r.ctx == Err::<Ctx, MyError>(MyError::AuthFailNoAuthTokenCookie)
            && r.cookie is Unchanged,
        Some(s) => match token_verdict(s, now) {
            Ok(id) => {
                &&& r.ctx matches Ok(c) && c.id() == id
                &&& r.cookie matches CookieUpdate::Refresh(t) && t@ == token_text(id, now)
            },
            Err(e) => r.ctx == Err::<Ctx, MyError>(e) && r.cookie is Clear,
        },
    }
}

pub open spec fn cookie_view(cookie: Option<&str>) -> Option<Seq<char>> {
    match cookie {
        Some(s) => Some(s@),
        None => None,
    }
}

/// Checks the session cookie of a request at the clock reading `now`.
pub fn resolve_ctx(cookie: Option<&str>, now: i64) -> (r: AuthOutcome)
    ensures
        resolves(cookie_view(cookie), now as int, r),
{
    let token = match cookie {
        None => {
            return AuthOutcome {
                ctx: Err(MyError::AuthFailNoAuthTokenCookie),
                cookie: CookieUpdate::Unchanged,
            };
        },
        Some(t) => t,
    };
    let (user_id, exp) = match parse_token(token) {
        Ok(parts) => parts,
        Err(e) => {
            proof {
                if exists|k: int| token_shape_at(token@, k) {
                    let k = token_dot(token@);
                    assert(token_shape_at(token@, k));
                }
            }
            return AuthOutcome { ctx: Err(e), cookie: CookieUpdate::Clear };
        },
    };
    proof {
        let k = choose|k: int|
            {
                &&& token_shape_at(token@, k)
                &&& user_id == token_id_at(token@, k)
                &&& exp@ == token_rest_at(token@, k)
            };
        lemma_token_shape_unique(token@, k, token_dot(token@));
    }
    match timestamp_is_valid(exp.as_str(), now) {
        Ok(()) => AuthOutcome {
            ctx: Ok(Ctx::new(user_id)),
            cookie: CookieUpdate::Refresh(issue_token(user_id, now)),
        },
        Err(e) => AuthOutcome { ctx: Err(e), cookie: CookieUpdate::Clear },
    }
}

/// Name of the cookie that carries the session token.
pub const AUTH_TOKEN: &'static str = "auth-token";

/// Whether argon2 accepts a password against a stored PHC hash string.
pub uninterp spec fn argon2_accepts(password: Seq<char>, password_hash: Seq<char>) -> bool;

/// Relies on argon2's `PasswordHash::new` and `verify_password` with default
/// parameters: a hash string that does not parse, or a password whose hash
/// under the stored parameters and salt differs, is refused. The answer depends
/// on the two strings alone.
#[verifier::external_body]
fn argon2_verify(password: &str, password_hash: &str) -> (r: bool)
    ensures
        r == argon2_accepts(password@, password_hash@),
{
    match argon2::PasswordHash::new(password_hash) {
        Ok(hash) => argon2::Argon2::default().verify_password(password.as_bytes(), &hash).is_ok(),
        Err(_) => false,
    }
}

/// The result of a login for `user_id`, once the password check answered
/// `accepted`.
pub fn login_outcome(user_id: i32, accepted: bool) -> (r: Result<i32, MyError>)
    ensures
        accepted ==> r == Ok::<i32, MyError>(user_id),
        !accepted ==> r == Err::<i32, MyError>(MyError::LoginFail),
{
    if accepted {
        Ok(user_id)
    } else {
        Err(MyError::LoginFail)
    }
}

/// Checks a login of `user_id` with `password` against the user's stored
/// hash.
pub fn check_login(user_id: i32, password: &str, password_hash: &str) -> (r: Result<
    i32,
    MyError,
>)
    ensures
        argon2_accepts(password@, password_hash@) ==> r == Ok::<i32, MyError>(user_id),
        !argon2_accepts(password@, password_hash@) ==> r == Err::<i32, MyError>(
            MyError::LoginFail,
        ),
{
    let accepted = argon2_verify(password, password_hash);
    login_outcome(user_id, accepted)
}

/// Whether `user_id` may act on `device_id`, once storage has answered
/// whether it owns it.
pub fn check_ownership(user_id: i32, device_id: i32, owns: bool) -> (r: Result<(), MyError>)
    ensures
        owns ==> r is Ok,
        !owns ==> r == Err::<(), MyError>(MyError::UserDoesNotOwnDevice { user_id, device_id }),
{
    if owns {
        Ok(())
    } else {
        Err(MyError::UserDoesNotOwnDevice { user_id, device_id })
    }
}

} // verus!
