//! Where a request's tokens and id come from: a bearer `Authorization`
//! header, a request body, a cookie of the `Cookie` header, or the
//! `x-request-id` header.
use vstd::prelude::*;
use crate::error::{AppError, ErrorKind};
use crate::parse::{split_chars, split_on};
use crate::text::{chars_of, owned, slice_chars, starts_with, starts_with_chars, string_from_chars, trim, trim_chars};

verus! {

/// The value of the first cookie named `name` whose value is not empty: the
/// header is split at `;`, each piece trimmed, and a piece counts when it
/// begins with `name=`.
pub open spec fn first_cookie(pieces: Seq<Seq<char>>, name: Seq<char>) -> Option<Seq<char>>
    decreases pieces.len(),
{
    if pieces.len() == 0 {
        None
    } else {
        let c = trim(pieces[0]);
        let p = name + "="@;
        if starts_with(c, p) && c.len() > p.len() {
            Some(c.skip(p.len() as int))
        } else {
            first_cookie(pieces.drop_first(), name)
        }
    }
}

/// `first_cookie` of a whole `Cookie` header.
pub open spec fn cookie_in(header: Seq<char>, name: Seq<char>) -> Option<Seq<char>> {
    first_cookie(split_on(header, ';'), name)
}

/// Finds the value of a cookie in a `Cookie` header, as `cookie_in` says.
pub fn cookie_value(header: &str, name: &str) -> (r: Option<String>)
    ensures
        match r {
            Some(v) => cookie_in(header@, name@) == Some(v@),
            None => cookie_in(header@, name@) is None,
        },
{
    let v = chars_of(header);
    let pieces = split_chars(&v, ';');
    let ghost ps = pieces@.map_values(|p: Vec<char>| p@);
    let mut prefix = chars_of(name);
    prefix.push('=');
    proof {
        reveal_strlit("=");
        assert(prefix@ =~= name@ + "="@);
    }
    let mut i: usize = 0;
    assert(ps.skip(0) =~= ps);
    while i < pieces.len()
        invariant
            i <= pieces@.len(),
            ps == pieces@.map_values(|p: Vec<char>| p@),
            ps == split_on(v@, ';'),
            v@ == header@,
            prefix@ == name@ + "="@,
            first_cookie(ps, name@) == first_cookie(ps.skip(i as int), name@),
        decreases pieces.len() - i,
    {
        let c = trim_chars(&pieces[i]);
        proof {
            assert(ps.skip(i as int)[0] == ps[i as int]);
            assert(ps[i as int] == pieces@[i as int]@);
            assert(ps.skip(i as int).drop_first() =~= ps.skip(i as int + 1));
        }
        if starts_with_chars(&c, &prefix) && c.len() > prefix.len() {
            let rest = slice_chars(&c, prefix.len(), c.len());
            assert(rest@ =~= c@.skip(prefix@.len() as int));
            return Some(string_from_chars(rest.as_slice()));
        }
        i = i + 1;
    }
    None
}

/// The message of a missing sign-up token.
pub open spec fn missing_signup_token_message() -> Seq<char> {
    "인증 정보가 유효하지 않습니다."@
}

/// The message of a missing refresh token.
pub open spec fn missing_refresh_token_message() -> Seq<char> {
    "Refresh Token이 필요합니다."@
}

/// The token of a `Bearer` authorization header, where it carries one.
pub open spec fn bearer_token(authorization: Option<Seq<char>>) -> Option<Seq<char>> {
    match authorization {
        Some(a) => if starts_with(a, "Bearer "@) && a.len() > "Bearer "@.len() {
            Some(a.skip("Bearer "@.len() as int))
        } else {
            None
        },
        None => None,
    }
}

/// The cookie named `name` of an optional `Cookie` header.
pub open spec fn cookie_of(cookie: Option<Seq<char>>, name: Seq<char>) -> Option<Seq<char>> {
    match cookie {
        Some(h) => cookie_in(h, name),
        None => None,
    }
}

/// The view of an optional text.
pub open spec fn opt_view(o: Option<&str>) -> Option<Seq<char>> {
    match o {
        Some(s) => Some(s@),
        None => None,
    }
}

fn cookie_from(cookie: Option<&str>, name: &str) -> (r: Option<String>)
    ensures
        match r {
            Some(v) => cookie_of(opt_view(cookie), name@) == Some(v@),
            None => cookie_of(opt_view(cookie), name@) is None,
        },
{
    match cookie {
        Some(h) => cookie_value(h, name),
        None => None,
    }
}

/// The sign-up token of a request: the `Bearer` token of its authorization
/// header, else its cookie named `cookie_name`; `Unauthorized` without one.
/// A header that is not readable text is passed as `None`.
pub fn signup_token(authorization: Option<&str>, cookie: Option<&str>, cookie_name: &str) -> (r: Result<String, AppError>)
    ensures
        match r {
            Ok(t) => match bearer_token(opt_view(authorization)) {
                Some(b) => t@ == b,
                None => cookie_of(opt_view(cookie), cookie_name@) == Some(t@),
            },
            Err(e) => e@ == (ErrorKind::Unauthorized, missing_signup_token_message())
                && bearer_token(opt_view(authorization)) is None
                && cookie_of(opt_view(cookie), cookie_name@) is None,
        },
{
    match authorization {
        Some(a) => {
            let v = chars_of(a);
            let p = chars_of("Bearer ");
            if starts_with_chars(&v, &p) && v.len() > p.len() {
                let rest = slice_chars(&v, p.len(), v.len());
                assert(rest@ =~= v@.skip(p@.len() as int));
                return Ok(string_from_chars(rest.as_slice()));
            }
        },
        None => {},
    }
    match cookie_from(cookie, cookie_name) {
        Some(t) => Ok(t),
        None => Err(AppError::Unauthorized(owned("인증 정보가 유효하지 않습니다."))),
    }
}

/// The refresh token of a request: the one in its body when not empty, else
/// its cookie named `cookie_name`; `InvalidToken` without one. A header that
/// is not readable text is passed as `None`.
pub fn refresh_token(body_token: Option<&str>, cookie: Option<&str>, cookie_name: &str) -> (r: Result<String, AppError>)
    ensures
        match r {
            Ok(t) => match opt_view(body_token) {
                Some(b) if b.len() > 0 => t@ == b,
                _ => cookie_of(opt_view(cookie), cookie_name@) == Some(t@),
            },
            Err(e) => e@ == (ErrorKind::InvalidToken, missing_refresh_token_message())
                && !(opt_view(body_token) matches Some(b) && b.len() > 0)
                && cookie_of(opt_view(cookie), cookie_name@) is None,
        },
{
    match body_token {
        Some(b) => {
            if b.unicode_len() > 0 {
                return Ok(owned(b));
            }
        },
        None => {},
    }
    match cookie_from(cookie, cookie_name) {
        Some(t) => Ok(t),
        None => Err(AppError::InvalidToken(owned("Refresh Token이 필요합니다."))),
    }
}

/// The id a request carries through its handling.
#[derive(Debug, Clone)]
pub struct RequestId(pub String);

/// The id of a request: its `x-request-id` header where it has a readable
/// one, else a fresh random UUID.
pub fn request_id(header: Option<&str>) -> (r: String)
    ensures
        header matches Some(h) ==> r@ == h@,
        header is None ==> crate::event::is_v4_uuid_text(r@),
{
    match header {
        Some(h) => owned(h),
        None => crate::event::new_uuid_string(),
    }
}

} // verus!
