use vstd::prelude::*;

use crate::ctx::Ctx;
use crate::decimal::{
    all_digits, digit_char, digits_value, decimal, int_text, is_digit, lemma_decimal_digits,
    lemma_int_text, parse_digits, signed_value,
};
use crate::error::MyError;

verus! {

/// Seconds for which an issued token stays valid.
pub const TOKEN_LIFETIME_SECS: i64 = 3600;

pub open spec fn token_prefix() -> Seq<char> {
    seq!['u', 's', 'e', 'r', '-']
}

/// The text of the token that names `user_id`, issued at `issued_at`.
pub open spec fn token_text(user_id: int, issued_at: int) -> Seq<char> {
    token_prefix() + int_text(user_id) + seq!['.'] + int_text(issued_at)
}

/// `s` reads `user-<digits>.<rest>`, with its dot at index `k` and a
/// non-empty rest.
pub open spec fn token_shape_at(s: Seq<char>, k: int) -> bool {
    &&& s.len() >= 5
    &&& s.subrange(0, 5) == token_prefix()
    &&& 5 < k < s.len() - 1
    &&& s[k] == '.'
    &&& all_digits(s.subrange(5, k))
}

/// The identity that a well-shaped token names.
pub open spec fn token_id_at(s: Seq<char>, k: int) -> int {
    digits_value(s.subrange(5, k))
}

/// The timestamp text of a well-shaped token.
pub open spec fn token_rest_at(s: Seq<char>, k: int) -> Seq<char> {
    s.subrange(k + 1, s.len() as int)
}

/// A token is fresh while fewer than an hour's seconds have passed since it
/// was issued.
pub open spec fn fresh(issued_at: int, now: int) -> bool {
    now - issued_at < TOKEN_LIFETIME_SECS
}

/// What the timestamp text of a token denotes, when it is an `i64`.
pub open spec fn timestamp_of(s: Seq<char>) -> Option<int> {
    match signed_value(s) {
        Some(v) => if i64::MIN <= v <= i64::MAX {
            Some(v)
        } else {
            None
        },
        None => None,
    }
}

/// A token has at most one shape: the dot that ends the digits.
pub proof fn lemma_token_shape_unique(s: Seq<char>, k1: int, k2: int)
    requires
        token_shape_at(s, k1),
        token_shape_at(s, k2),
    ensures
        k1 == k2,
{
    if k1 < k2 {
        assert(s.subrange(5, k2)[k1 - 5] == s[k1]);
    } else if k2 < k1 {
        assert(s.subrange(5, k1)[k2 - 5] == s[k2]);
    }
}

fn digit_str(d: u64) -> (r: &'static str)
    requires
        d < 10,
    ensures
        r@ == seq![digit_char(d as int)],
{
    proof {
        reveal_strlit("0");
        reveal_strlit("1");
        reveal_strlit("2");
        reveal_strlit("3");
        reveal_strlit("4");
        reveal_strlit("5");
        reveal_strlit("6");
        reveal_strlit("7");
        reveal_strlit("8");
        reveal_strlit("9");
    }
    if d == 0 {
        "0"
    } else if d == 1 {
        "1"
    } else if d == 2 {
        "2"
    } else if d == 3 {
        "3"
    } else if d == 4 {
        "4"
    } else if d == 5 {
        "5"
    } else if d == 6 {
        "6"
    } else if d == 7 {
        "7"
    } else if d == 8 {
        "8"
    } else {
        "9"
    }
}

fn push_decimal(out: &mut String, n: u64)
    ensures
        final(out)@ == old(out)@ + decimal(n as nat),
    decreases n,
{
    if n >= 10 {
        push_decimal(out, n / 10);
    }
    out.append(digit_str(n % 10));
}

fn push_int(out: &mut String, i: i64)
    ensures
        final(out)@ == old(out)@ + int_text(i as int),
{
    if i < 0 {
        proof {
            reveal_strlit("-");
        }
        out.append("-");
        let magnitude: u64 = (0i128 - i as i128) as u64;
        push_decimal(out, magnitude);
    } else {
        push_decimal(out, i as u64);
    }
}

/// The token text `user-<user_id>.<issued_at>`.
pub fn issue_token(user_id: i32, issued_at: i64) -> (r: String)
    ensures
        r@ == token_text(user_id as int, issued_at as int),
{
    proof {
        reveal_strlit("user-");
        reveal_strlit(".");
    }
    let mut out = String::from_str("user-");
    push_int(&mut out, user_id as i64);
    out.append(".");
    push_int(&mut out, issued_at);
    out
}

/// Splits a token of the shape `user-<digits>.<rest>` into the identity and
/// the timestamp text.
pub fn parse_token(token: &str) -> (r: Result<(i32, String), MyError>)
    ensures
        match r {
            Ok((id, rest)) => exists|k: int|
                {
                    &&& token_shape_at(token@, k)
                    &&& id == token_id_at(token@, k)
                    &&& rest@ == token_rest_at(token@, k)
                },
            Err(e) => e == MyError::AuthFailTokenWrongFormat && forall|k: int|
                token_shape_at(token@, k) ==> token_id_at(token@, k) > i32::MAX,
        },
{
    let len = token.unicode_len();
    if len < 5 || token.get_char(0) != 'u' || token.get_char(1) != 's' || token.get_char(2)
        != 'e' || token.get_char(3) != 'r' || token.get_char(4) != '-' {
        proof {
            if len >= 5 {
                let p = token@.subrange(0, 5);
                assert(p[0] == token@[0] && p[1] == token@[1] && p[2] == token@[2] && p[3]
                    == token@[3] && p[4] == token@[4]);
                assert(p != token_prefix());
            }
        }
        return Err(MyError::AuthFailTokenWrongFormat);
    }
    assert(token@.subrange(0, 5) =~= token_prefix());
    // Find the end of the run of digits.
    let mut k: usize = 5;
    while k < len && is_ascii_digit(token.get_char(k))
        invariant
            5 <= k <= len == token@.len(),
            all_digits(token@.subrange(5, k as int)),
        decreases len - k,
    {
        assert(token@.subrange(5, k + 1) =~= token@.subrange(5, k as int).push(token@[k as int]));
        k = k + 1;
    }
    if k == 5 || k >= len - 1 || token.get_char(k) != '.' {
        proof {
            assert forall|j: int| token_shape_at(token@, j) implies false by {
                if j < k {
                    assert(token@.subrange(5, k as int)[j - 5] == token@[j]);
                } else if j > k {
                    assert(token@.subrange(5, j)[k - 5] == token@[k as int]);
                }
            }
        }
        return Err(MyError::AuthFailTokenWrongFormat);
    }
    assert(token_shape_at(token@, k as int));
    match parse_digits(token, 5, k, i32::MAX as u64) {
        Some(id) => {
            let rest = String::from_str(token.substring_char(k + 1, len));
            Ok((id as i32, rest))
        },
        None => {
            proof {
                assert forall|j: int| token_shape_at(token@, j) implies token_id_at(token@, j)
                    > i32::MAX by {
                    lemma_token_shape_unique(token@, j, k as int);
                }
            }
            Err(MyError::AuthFailTokenWrongFormat)
        },
    }
}

fn is_ascii_digit(c: char) -> (r: bool)
    ensures
        r == is_digit(c),
{
    c >= '0' && c <= '9'
}

/// Reads a timestamp: an optional sign followed by decimal digits, as an `i64`.
pub fn parse_timestamp(text: &str) -> (r: Option<i64>)
    ensures
        match r {
            Some(v) => timestamp_of(text@) == Some(v as int),
            None => timestamp_of(text@) is None,
        },
{
    let len = text.unicode_len();
    if len == 0 {
        return None;
    }
    let first = text.get_char(0);
    if len > 1 && (first == '-' || first == '+') {
        let ghost body = text@.drop_first();
        assert(text@.subrange(1, len as int) =~= body);
        if first == '-' {
            match parse_digits(text, 1, len, 9223372036854775808u64) {
                Some(m) => {
                    let v: i64 = (0i128 - m as i128) as i64;
                    Some(v)
                },
                None => None,
            }
        } else {
            match parse_digits(text, 1, len, i64::MAX as u64) {
                Some(m) => Some(m as i64),
                None => None,
            }
        }
    } else {
        let ghost whole = text@;
        assert(text@.subrange(0, len as int) =~= whole);
        proof {
            if first == '-' || first == '+' {
                assert(!is_digit(whole[0]));
            }
        }
        match parse_digits(text, 0, len, i64::MAX as u64) {
            Some(m) => Some(m as i64),
            None => None,
        }
    }
}

/// Whether a token issued at `issued_at` is still valid at `now`.
pub fn is_fresh(issued_at: i64, now: i64) -> (r: bool)
    ensures
        r == fresh(issued_at as int, now as int),
{
    (now as i128) - (issued_at as i128) < TOKEN_LIFETIME_SECS as i128
}

/// Checks the timestamp text of a token against the clock reading `now`.
pub fn timestamp_is_valid(exp: &str, now: i64) -> (r: Result<(), MyError>)
    ensures
        match timestamp_of(exp@) {
            None => r == Err::<(), MyError>(MyError::AuthFailInvalidTimestamp),
            Some(t) => if fresh(t, now as int) {
                r is Ok
            } else {
                r == Err::<(), MyError>(MyError::AuthFailExpiredTokenCookie)
            },
        },
{
    match parse_timestamp(exp) {
        None => Err(MyError::AuthFailInvalidTimestamp),
        Some(t) => if is_fresh(t, now) {
            Ok(())
        } else {
            Err(MyError::AuthFailExpiredTokenCookie)
        },
    }
}

/// Where the dot stands in a token issued for a non-negative identity.
pub open spec fn issued_dot(user_id: nat) -> int {
    5 + decimal(user_id).len() as int
}

/// Parsing an issued token gives back its identity and its timestamp, for
/// every identity that a token can name (those that are not negative).
pub proof fn lemma_token_round_trip(user_id: i32, issued_at: i64)
    requires
        user_id >= 0,
    ensures
        token_shape_at(
            token_text(user_id as int, issued_at as int),
            issued_dot(user_id as nat),
        ),
        token_id_at(token_text(user_id as int, issued_at as int), issued_dot(user_id as nat))
            == user_id,
        timestamp_of(
            token_rest_at(
                token_text(user_id as int, issued_at as int),
                issued_dot(user_id as nat),
            ),
        ) == Some(issued_at as int),
{
    let s = token_text(user_id as int, issued_at as int);
    let d = decimal(user_id as nat);
    let k = issued_dot(user_id as nat);
    lemma_decimal_digits(user_id as nat);
    lemma_int_text(issued_at as int);
    assert(int_text(user_id as int) == d);
    assert(s.subrange(0, 5) =~= token_prefix());
    assert(s.subrange(5, k) =~= d);
    assert(s[k] == '.');
    assert(token_rest_at(s, k) =~= int_text(issued_at as int));
}

} // verus!
