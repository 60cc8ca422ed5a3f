//! What a request carries besides its body: whether htmx sent it, its
//! locale, and the user it is made for.
//!
//! A user is found by the `user_session` cookie; requests that only carry
//! a valid cookie of the admin sessions that predate accounts are made for
//! the account those sessions were moved to, which is made from the old
//! admin password when it does not exist yet.
use vstd::prelude::*;

use crate::auth::AuthUser;
use crate::error::AppError;
use crate::locale::{choose_locale, chosen_locale, strings_view};
use crate::web::is_htmx_request;

verus! {

/// Whether the request was made by htmx.
pub struct IsHtmx(pub bool);

impl IsHtmx {
    /// From the `HX-Request` header (absent when missing or unreadable).
    pub fn from_header(hx_request: Option<&str>) -> (r: IsHtmx)
        ensures
            r.0 == (match hx_request { Some(v) => v@ == "true"@, None => false }),
    {
        IsHtmx(is_htmx_request(hx_request))
    }
}

/// The locale of the request.
pub struct Locale(pub String);

impl Locale {
    /// From the `lang` cookie and the tags of the `Accept-Language` header
    /// ranked by falling quality (absent when the header is missing).
    pub fn from_parts(cookie: Option<&str>, ranked: Option<&[String]>) -> (r: Locale)
        ensures
            r.0@ == chosen_locale(
                match cookie { Some(c) => Some(c@), None => None },
                match ranked { Some(v) => Some(strings_view(v@)), None => None },
            ),
    {
        let l = choose_locale(cookie, ranked);
        Locale(String::from_str(l))
    }
}

/// A request made for a logged-in user.
pub struct AuthGuard(pub AuthUser);

/// The address of the account the old admin sessions were moved to.
pub const LEGACY_ADMIN_EMAIL: &'static str = "admin@local";

/// The next step of finding the user of a request.
pub enum GuardStep {
    /// Look up the user of this `user_session` value.
    LookUpUserSession(String),
    /// Check that this old `admin_session` value is still valid.
    CheckAdminSession(String),
    /// Look up the account with the address `LEGACY_ADMIN_EMAIL`.
    LookUpAdminUser,
    /// Make the account with the address `LEGACY_ADMIN_EMAIL` from the old
    /// admin password (see `auth::migration_password`), then look it up.
    CreateAdminUser,
    /// The request is made for this user.
    Accept(AuthUser),
    /// No user: the request is refused as unauthorized.
    Reject(AppError),
}

/// The step after the user-session lookup (or without a user-session
/// cookie): the old admin session, when its cookie came, else refusal.
pub open spec fn after_user_session(admin_cookie: Option<Seq<char>>, step: GuardStep) -> bool {
    match admin_cookie {
        Some(a) => step matches GuardStep::CheckAdminSession(v) && v@ == a,
        None => step == GuardStep::Reject(AppError::Unauthorized),
    }
}

fn admin_or_reject(admin_cookie: Option<&str>) -> (r: GuardStep)
    ensures
        after_user_session(match admin_cookie { Some(a) => Some(a@), None => None }, r),
{
    match admin_cookie {
        Some(a) => GuardStep::CheckAdminSession(String::from_str(a)),
        None => GuardStep::Reject(AppError::Unauthorized),
    }
}

/// The first step: the user session when its cookie came, else the old
/// admin session, else refusal.
pub fn guard_start(user_cookie: Option<&str>, admin_cookie: Option<&str>) -> (r: GuardStep)
    ensures
        match user_cookie {
            Some(u) => r matches GuardStep::LookUpUserSession(v) && v@ == u@,
            None => after_user_session(match admin_cookie { Some(a) => Some(a@), None => None }, r),
        },
{
    match user_cookie {
        Some(u) => GuardStep::LookUpUserSession(String::from_str(u)),
        None => admin_or_reject(admin_cookie),
    }
}

/// After the user-session lookup (a failed lookup finds nobody): the user
/// found, else the old admin session, else refusal.
pub fn guard_after_user_lookup(found: Option<AuthUser>, admin_cookie: Option<&str>) -> (r: GuardStep)
    ensures
        match found {
            Some(u) => r == GuardStep::Accept(u),
            None => after_user_session(match admin_cookie { Some(a) => Some(a@), None => None }, r),
        },
{
    match found {
        Some(u) => GuardStep::Accept(u),
        None => admin_or_reject(admin_cookie),
    }
}

/// After checking the old admin session (a failed check counts as invalid):
/// look up the account it was moved to, or refuse.
pub fn guard_after_admin_check(valid: bool) -> (r: GuardStep)
    ensures
        valid ==> r == GuardStep::LookUpAdminUser,
        !valid ==> r == GuardStep::Reject(AppError::Unauthorized),
{
    if valid {
        GuardStep::LookUpAdminUser
    } else {
        GuardStep::Reject(AppError::Unauthorized)
    }
}

/// After looking up the account of the old admin sessions: the account
/// found, else it is made.
pub fn guard_after_admin_user(found: Option<AuthUser>) -> (r: GuardStep)
    ensures
        match found {
            Some(u) => r == GuardStep::Accept(u),
            None => r == GuardStep::CreateAdminUser,
        },
{
    match found {
        Some(u) => GuardStep::Accept(u),
        None => GuardStep::CreateAdminUser,
    }
}

/// After making the account of the old admin sessions and looking it up (a
/// failure finds nobody): the account, else refusal.
pub fn guard_after_admin_create(created: Option<AuthUser>) -> (r: GuardStep)
    ensures
        match created {
            Some(u) => r == GuardStep::Accept(u),
            None => r == GuardStep::Reject(AppError::Unauthorized),
        },
{
    match created {
        Some(u) => GuardStep::Accept(u),
        None => GuardStep::Reject(AppError::Unauthorized),
    }
}

/// Only administrators may open the admin pages; anyone else is refused
/// as forbidden.
pub fn admin_only(user: &AuthUser) -> (r: Result<(), AppError>)
    ensures
        user.is_admin ==> r == Ok::<(), AppError>(()),
        !user.is_admin ==> r == Err::<(), AppError>(AppError::Forbidden),
{
    if user.is_admin {
        Ok(())
    } else {
        Err(AppError::Forbidden)
    }
}

/// A request about another user's session or quiz is refused as forbidden.
pub fn owner_only(is_owner: bool) -> (r: Result<(), AppError>)
    ensures
        is_owner ==> r == Ok::<(), AppError>(()),
        !is_owner ==> r == Err::<(), AppError>(AppError::Forbidden),
{
    if is_owner {
        Ok(())
    } else {
        Err(AppError::Forbidden)
    }
}

} // verus!
