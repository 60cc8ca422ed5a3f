//! Route paths, cookie names and the URLs that pages link to.
use vstd::prelude::*;
use vstd::string::*;

use crate::text::{decimal_int, push_decimal_i64};

verus! {

pub const LOGIN_URL: &'static str = "/login";
pub const GET_STARTED_URL: &'static str = "/start";
pub const CREATE_QUIZ_URL: &'static str = "/create-quiz";
pub const SUBMIT_ANSWER_URL: &'static str = "/submit-answer";

/// The cookie of the sessions that predate user accounts; still read and cleared.
pub const ADMIN_SESSION_COOKIE_NAME: &'static str = "admin_session";
pub const USER_SESSION_COOKIE_NAME: &'static str = "user_session";
pub const QUIZ_SESSION_COOKIE_NAME: &'static str = "quiz_session";
pub const REGISTER_URL: &'static str = "/register";
pub const LOGOUT_URL: &'static str = "/logout";
pub const RESEND_VERIFICATION_URL: &'static str = "/resend-verification";
pub const FORGOT_PASSWORD_URL: &'static str = "/forgot-password";
pub const RESET_PASSWORD_URL: &'static str = "/reset-password";
pub const ACCOUNT_URL: &'static str = "/account";
pub const CHANGE_PASSWORD_URL: &'static str = "/change-password";

pub const LOCALE_COOKIE_NAME: &'static str = "lang";
pub const DEFAULT_LOCALE: &'static str = "en";
pub const SET_LOCALE_URL: &'static str = "/set-locale";

/// `prefix + id + suffix`.
fn wrap_str(prefix: &str, id: &str, suffix: &str) -> (r: String)
    ensures
        r@ == prefix@ + id@ + suffix@,
{
    let mut r = String::from_str(prefix);
    r.append(id);
    r.append(suffix);
    r
}

/// `prefix + decimal(n) + suffix`.
fn wrap_int(prefix: &str, n: i32, suffix: &str) -> (r: String)
    ensures
        r@ == prefix@ + decimal_int(n as int) + suffix@,
{
    let mut r = String::from_str(prefix);
    push_decimal_i64(&mut r, n as i64);
    r.append(suffix);
    r
}

/// `/quiz/{public_id}/dashboard`
pub fn quiz_dashboard_url(public_id: &str) -> (r: String)
    ensures
        r@ == "/quiz/"@ + public_id@ + "/dashboard"@,
{
    wrap_str("/quiz/", public_id, "/dashboard")
}

/// `/quiz/{public_id}/sessions`
pub fn quiz_session_history_url(public_id: &str) -> (r: String)
    ensures
        r@ == "/quiz/"@ + public_id@ + "/sessions"@,
{
    wrap_str("/quiz/", public_id, "/sessions")
}

/// `/quiz/{public_id}`
pub fn quiz_page_url(public_id: &str) -> (r: String)
    ensures
        r@ == "/quiz/"@ + public_id@,
{
    let mut r = String::from_str("/quiz/");
    r.append(public_id);
    r
}

/// `/delete-quiz/{public_id}`
pub fn delete_quiz_url(public_id: &str) -> (r: String)
    ensures
        r@ == "/delete-quiz/"@ + public_id@,
{
    let mut r = String::from_str("/delete-quiz/");
    r.append(public_id);
    r
}

/// `/rename-quiz/{public_id}`
pub fn rename_quiz_url(public_id: &str) -> (r: String)
    ensures
        r@ == "/rename-quiz/"@ + public_id@,
{
    let mut r = String::from_str("/rename-quiz/");
    r.append(public_id);
    r
}

/// `/start-session/{public_id}`
pub fn start_session_url(public_id: &str) -> (r: String)
    ensures
        r@ == "/start-session/"@ + public_id@,
{
    let mut r = String::from_str("/start-session/");
    r.append(public_id);
    r
}

/// `/quiz/{public_id}/abandon`
pub fn abandon_quiz_url(public_id: &str) -> (r: String)
    ensures
        r@ == "/quiz/"@ + public_id@ + "/abandon"@,
{
    wrap_str("/quiz/", public_id, "/abandon")
}

/// `/results/{session_id}`
pub fn results_url(session_id: i32) -> (r: String)
    ensures
        r@ == "/results/"@ + decimal_int(session_id as int),
{
    let mut r = String::from_str("/results/");
    push_decimal_i64(&mut r, session_id as i64);
    r
}

/// `/resume-session/{session_id}/{token}`
pub fn resume_session_url(session_id: i32, token: &str) -> (r: String)
    ensures
        r@ == "/resume-session/"@ + decimal_int(session_id as int) + "/"@ + token@,
{
    let mut r = wrap_int("/resume-session/", session_id, "/");
    r.append(token);
    r
}

/// `/session/{session_id}/delete`
pub fn delete_session_url(session_id: i32) -> (r: String)
    ensures
        r@ == "/session/"@ + decimal_int(session_id as int) + "/delete"@,
{
    wrap_int("/session/", session_id, "/delete")
}

/// `/session/{session_id}/rename`
pub fn rename_session_url(session_id: i32) -> (r: String)
    ensures
        r@ == "/session/"@ + decimal_int(session_id as int) + "/rename"@,
{
    wrap_int("/session/", session_id, "/rename")
}

/// `/question/{session_id}?question_idx={question_idx}`: the page of one
/// question of a session.
pub fn question_url(session_id: i32, question_idx: i32) -> (r: String)
    ensures
        r@ == "/question/"@ + decimal_int(session_id as int) + "?question_idx="@ + decimal_int(question_idx as int),
{
    let mut r = wrap_int("/question/", session_id, "?question_idx=");
    push_decimal_i64(&mut r, question_idx as i64);
    r
}

/// `/toggle-bookmark/{session_id}/{question_id}`
pub fn toggle_bookmark_url(session_id: i32, question_id: i32) -> (r: String)
    ensures
        r@ == "/toggle-bookmark/"@ + decimal_int(session_id as int) + "/"@ + decimal_int(question_id as int),
{
    let mut r = wrap_int("/toggle-bookmark/", session_id, "/");
    push_decimal_i64(&mut r, question_id as i64);
    r
}

/// `/retry-incorrect/{session_id}`
pub fn retry_incorrect_url(session_id: i32) -> (r: String)
    ensures
        r@ == "/retry-incorrect/"@ + decimal_int(session_id as int),
{
    let mut r = String::from_str("/retry-incorrect/");
    push_decimal_i64(&mut r, session_id as i64);
    r
}

/// `/retry-bookmarked/{session_id}`
pub fn retry_bookmarked_url(session_id: i32) -> (r: String)
    ensures
        r@ == "/retry-bookmarked/"@ + decimal_int(session_id as int),
{
    let mut r = String::from_str("/retry-bookmarked/");
    push_decimal_i64(&mut r, session_id as i64);
    r
}

} // verus!
