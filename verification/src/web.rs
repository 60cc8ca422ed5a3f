//! The rules that every request and response passes: cookies, the CSRF
//! check, the security headers.
use axum::http::header::InvalidHeaderValue;
use axum::http::HeaderValue;
use vstd::prelude::*;
use vstd::string::*;

use crate::names::USER_SESSION_COOKIE_NAME;
use crate::text::{decimal_digits, has_prefix, push_decimal_u64, starts_with, str_eq};

verus! {

#[verifier::external_type_specification]
#[verifier::external_body]
pub struct ExHeaderValue(HeaderValue);

#[verifier::external_type_specification]
#[verifier::external_body]
pub struct ExInvalidHeaderValue(InvalidHeaderValue);

/// How long a session cookie lives, in seconds (one day).
pub const COOKIE_MAX_AGE_SECS: u32 = 86400;

/// Whether text can be a header value: every byte is a tab or at least 32
/// and not 127.  A character outside ASCII is encoded in bytes of 128 and
/// more, so it is allowed.
pub open spec fn header_text_valid(s: Seq<char>) -> bool {
    forall|i: int| 0 <= i < s.len() ==> s[i] == '\t' || (32 <= (#[trigger] s[i]) as int && s[i] as int != 127)
}

/// The header value that `HeaderValue::from_str` makes of a text: it holds
/// the bytes of the text and is not marked sensitive.
pub uninterp spec fn header_value_of(s: Seq<char>) -> HeaderValue;

/// `HeaderValue::from_str` (http, re-exported by axum): succeeds exactly
/// when every byte of the text is a tab or a byte of at least 32 other than
/// 127, and then gives the header value of the text.
#[verifier::external_body]
fn parse_header_value(s: &str) -> (r: Result<HeaderValue, InvalidHeaderValue>)
    ensures
        r is Ok <==> header_text_valid(s@),
        r matches Ok(h) ==> h == header_value_of(s@),
{
    HeaderValue::from_str(s)
}

/// `; Secure` when cookies must only travel over HTTPS.
pub open spec fn secure_flag(secure: bool) -> Seq<char> {
    if secure { "; Secure"@ } else { Seq::empty() }
}

/// The `Set-Cookie` text of a session cookie.
pub open spec fn cookie_text(name: Seq<char>, value: Seq<char>, secure: bool) -> Seq<char> {
    name + "="@ + value + "; HttpOnly; Max-Age="@ + decimal_digits(COOKIE_MAX_AGE_SECS as nat) + "; Path=/; SameSite=Lax"@ + secure_flag(secure)
}

/// The `Set-Cookie` text that removes a cookie.
pub open spec fn clear_cookie_text(name: Seq<char>, secure: bool) -> Seq<char> {
    name + "=; HttpOnly; Max-Age=0; Path=/; SameSite=Strict"@ + secure_flag(secure)
}

fn append_secure_flag(s: &mut String, secure: bool)
    ensures
        final(s)@ == old(s)@ + secure_flag(secure),
{
    if secure {
        s.append("; Secure");
    } else {
        assert(old(s)@ + Seq::<char>::empty() =~= old(s)@);
    }
}

/// The text of a session cookie `name=value`, HTTP-only, one day long,
/// for the whole site, `SameSite=Lax`, and `Secure` when asked.
pub fn cookie_string(name: &str, value: &str, secure: bool) -> (r: String)
    ensures
        r@ == cookie_text(name@, value@, secure),
{
    let mut s = String::from_str(name);
    s.append("=");
    s.append(value);
    s.append("; HttpOnly; Max-Age=");
    push_decimal_u64(&mut s, COOKIE_MAX_AGE_SECS as u64);
    s.append("; Path=/; SameSite=Lax");
    append_secure_flag(&mut s, secure);
    s
}

/// The text that removes the cookie `name`.
pub fn clear_cookie_string(name: &str, secure: bool) -> (r: String)
    ensures
        r@ == clear_cookie_text(name@, secure),
{
    let mut s = String::from_str(name);
    s.append("=; HttpOnly; Max-Age=0; Path=/; SameSite=Strict");
    append_secure_flag(&mut s, secure);
    s
}

/// The `Set-Cookie` header of a session cookie; it fails when the name or
/// the value holds a byte that a header cannot carry.
pub fn cookie(name: &str, value: &str, secure: bool) -> (r: Result<HeaderValue, InvalidHeaderValue>)
    ensures
        r is Ok <==> header_text_valid(cookie_text(name@, value@, secure)),
        r matches Ok(h) ==> h == header_value_of(cookie_text(name@, value@, secure)),
{
    let s = cookie_string(name, value, secure);
    parse_header_value(s.as_str())
}

/// The `Set-Cookie` header that removes the cookie `name`.
pub fn clear_cookie(name: &str, secure: bool) -> (r: Result<HeaderValue, InvalidHeaderValue>)
    ensures
        r is Ok <==> header_text_valid(clear_cookie_text(name@, secure)),
        r matches Ok(h) ==> h == header_value_of(clear_cookie_text(name@, secure)),
{
    let s = clear_cookie_string(name, secure);
    parse_header_value(s.as_str())
}

/// Cookies are marked `Secure` when asked to, or when the site is served
/// over HTTPS.
pub fn secure_cookies(requested: bool, base_url: &str) -> (r: bool)
    ensures
        r == (requested || has_prefix(base_url@, "https://"@)),
{
    requested || starts_with(base_url, "https://")
}

/// Whether a request came from htmx: its `HX-Request` header is `true`.
pub fn is_htmx_request(hx_request: Option<&str>) -> (r: bool)
    ensures
        r == (match hx_request { Some(v) => v@ == "true"@, None => false }),
{
    match hx_request {
        Some(v) => str_eq(v, "true"),
        None => false,
    }
}

/// The methods that change state: `POST`, `PUT`, `PATCH` and `DELETE`.
pub open spec fn changes_state(method: Seq<char>) -> bool {
    method == "POST"@ || method == "PUT"@ || method == "PATCH"@ || method == "DELETE"@
}

/// Whether an `Origin` names the site at `host`: `http://` or `https://`
/// followed by exactly the host.
pub open spec fn origin_matches_host(origin: Seq<char>, host: Seq<char>) -> bool {
    origin == "http://"@ + host || origin == "https://"@ + host
}

/// What the CSRF check lets through: a request that changes nothing, an
/// htmx request, and a request whose `Origin` is the scheme followed by
/// exactly its `Host`.
pub open spec fn csrf_passes(method: Seq<char>, hx_request: Option<Seq<char>>, origin: Option<Seq<char>>, host: Option<Seq<char>>) -> bool {
    !changes_state(method)
        || hx_request == Some("true"@)
        || (origin is Some && host is Some && origin_matches_host(origin->0, host->0))
}

/// Whether `origin` is `http://` or `https://` followed by exactly `host`.
pub fn origin_is_host(origin: &str, host: &str) -> (r: bool)
    ensures
        r == origin_matches_host(origin@, host@),
{
    let mut plain = String::from_str("http://");
    plain.append(host);
    let mut tls = String::from_str("https://");
    tls.append(host);
    str_eq(origin, plain.as_str()) || str_eq(origin, tls.as_str())
}

/// The CSRF check, from the request's method and its `HX-Request`, `Origin`
/// and `Host` headers (each absent when missing or not visible ASCII).
pub fn csrf_allows(method: &str, hx_request: Option<&str>, origin: Option<&str>, host: Option<&str>) -> (r: bool)
    ensures
        r == csrf_passes(
            method@,
            match hx_request { Some(v) => Some(v@), None => None },
            match origin { Some(v) => Some(v@), None => None },
            match host { Some(v) => Some(v@), None => None },
        ),
{
    let state_changing = str_eq(method, "POST") || str_eq(method, "PUT") || str_eq(method, "PATCH") || str_eq(method, "DELETE");
    if !state_changing {
        return true;
    }
    if is_htmx_request(hx_request) {
        return true;
    }
    match (origin, host) {
        (Some(o), Some(h)) => origin_is_host(o, h),
        _ => false,
    }
}

/// After a successful response to a request that carried a session cookie,
/// the cookie is sent again so that it lives one more day.
pub fn refreshed_session_cookie(response_ok: bool, session: Option<&str>, secure: bool) -> (r: Option<HeaderValue>)
    ensures
        r is Some <==> response_ok && session is Some
            && header_text_valid(cookie_text(USER_SESSION_COOKIE_NAME@, session->0@, secure)),
        r matches Some(h) ==> h == header_value_of(cookie_text(USER_SESSION_COOKIE_NAME@, session->0@, secure)),
{
    if !response_ok {
        return None;
    }
    match session {
        Some(v) => match cookie(USER_SESSION_COOKIE_NAME, v, secure) {
            Ok(h) => Some(h),
            Err(_) => None,
        },
        None => None,
    }
}

/// The headers set on every response, name and value.
pub fn security_headers() -> (r: Vec<(&'static str, &'static str)>)
    ensures
        r@.len() == 4,
        r@[0].0@ == "X-Content-Type-Options"@ && r@[0].1@ == "nosniff"@,
        r@[1].0@ == "X-Frame-Options"@ && r@[1].1@ == "DENY"@,
        r@[2].0@ == "Referrer-Policy"@ && r@[2].1@ == "strict-origin-when-cross-origin"@,
        r@[3].0@ == "Content-Security-Policy"@ && r@[3].1@ == "default-src 'self'; script-src 'self'; style-src 'self' 'unsafe-inline' https://fonts.googleapis.com; font-src 'self' https://fonts.gstatic.com; img-src 'self' data:; connect-src 'self'"@,
{
    let mut v: Vec<(&'static str, &'static str)> = Vec::new();
    v.push(("X-Content-Type-Options", "nosniff"));
    v.push(("X-Frame-Options", "DENY"));
    v.push(("Referrer-Policy", "strict-origin-when-cross-origin"));
    v.push((
        "Content-Security-Policy",
        "default-src 'self'; script-src 'self'; style-src 'self' 'unsafe-inline' https://fonts.googleapis.com; font-src 'self' https://fonts.gstatic.com; img-src 'self' data:; connect-src 'self'",
    ));
    v
}

} // verus!
