//! Sharing quizzes: an owner may publish a quiz, and other users may add a
//! published quiz to their library.
use vstd::prelude::*;

use crate::error::AppError;
use crate::selection::contains_id;

verus! {

/// A quiz as the marketplace and the shared-quiz page show it.
pub struct SharedQuizInfo {
    pub id: i32,
    pub public_id: String,
    pub name: String,
    pub is_shared: bool,
    pub owner_name: String,
    pub question_count: i64,
}

/// Only the owner may publish or withdraw a quiz; anyone else is refused as
/// unauthorized.
pub fn share_owner_check(is_owner: bool) -> (r: Result<(), AppError>)
    ensures
        is_owner ==> r == Ok::<(), AppError>(()),
        !is_owner ==> r == Err::<(), AppError>(AppError::Unauthorized),
{
    if is_owner {
        Ok(())
    } else {
        Err(AppError::Unauthorized)
    }
}

/// The quiz a shared link shows: the one found, when it is published; a
/// quiz that does not exist or is not published is not available.
pub fn available_shared_quiz(found: Option<SharedQuizInfo>) -> (r: Option<SharedQuizInfo>)
    ensures
        match found {
            Some(info) => if info.is_shared { r == Some(info) } else { r is None },
            None => r is None,
        },
{
    match found {
        Some(info) => if info.is_shared { Some(info) } else { None },
        None => None,
    }
}

/// Whether a quiz is already in the user's library.
pub fn in_library(user_quiz_ids: &[i32], quiz_id: i32) -> (r: bool)
    ensures
        r == user_quiz_ids@.contains(quiz_id),
{
    contains_id(user_quiz_ids, quiz_id)
}

/// How the publish toggle of a quiz looks: its icon, the translation key of
/// its title, and its style.
pub fn share_toggle_look(is_shared: bool) -> (r: (&'static str, &'static str, &'static str))
    ensures
        is_shared ==> r.0@ == "public"@ && r.1@ == "share.shared_label"@
            && r.2@ == "cursor: pointer; color: #28a745; font-size: 1.2rem; opacity: 0.8; transition: opacity 0.15s;"@,
        !is_shared ==> r.0@ == "public_off"@ && r.1@ == "share.share_btn"@
            && r.2@ == "cursor: pointer; font-size: 1.2rem; opacity: 0.5; transition: opacity 0.15s;"@,
{
    if is_shared {
        ("public", "share.shared_label", "cursor: pointer; color: #28a745; font-size: 1.2rem; opacity: 0.8; transition: opacity 0.15s;")
    } else {
        ("public_off", "share.share_btn", "cursor: pointer; font-size: 1.2rem; opacity: 0.5; transition: opacity 0.15s;")
    }
}

} // verus!
