//! The form that starts a quiz session.
//!
//! htmx sends every form value as a string, so the question count may come
//! as a JSON number or as a string holding one; either must fit an `i32`.
//! A missing count or mode takes its default.
use vstd::prelude::*;

use crate::answer::{parse_i32, parsed_i32};
use crate::selection::{
    clamp_question_count, clamped_count, default_question_count, default_selection_mode,
    normalize_selection_mode, normalized_mode, mode_unanswered, DEFAULT_QUESTION_COUNT,
};

verus! {

/// The question count as it was sent.
pub enum CountField {
    /// A negative JSON integer.
    Signed(i64),
    /// A non-negative JSON integer.
    Unsigned(u64),
    /// A JSON string.
    Text(String),
    /// Any other JSON value (a fraction, `true`, `null`, ...).
    Other,
}

/// The count a field gives, if it gives one.
pub open spec fn count_of(field: CountField) -> Option<i32> {
    match field {
        CountField::Signed(v) => if i32::MIN <= v <= i32::MAX { Some(v as i32) } else { None },
        CountField::Unsigned(v) => if v <= i32::MAX { Some(v as i32) } else { None },
        CountField::Text(s) => parsed_i32(s@),
        CountField::Other => None,
    }
}

/// `i32::try_from` a signed integer.
pub fn count_from_i64(v: i64) -> (r: Option<i32>)
    ensures
        r == (if i32::MIN <= v <= i32::MAX { Some(v as i32) } else { None }),
{
    if i32::MIN as i64 <= v && v <= i32::MAX as i64 {
        Some(v as i32)
    } else {
        None
    }
}

/// `i32::try_from` an unsigned integer.
pub fn count_from_u64(v: u64) -> (r: Option<i32>)
    ensures
        r == (if v <= i32::MAX { Some(v as i32) } else { None }),
{
    if v <= i32::MAX as u64 {
        Some(v as i32)
    } else {
        None
    }
}

/// The count a field gives: an integer in the range of `i32`, or a string
/// that parses as one.
pub fn question_count_of(field: &CountField) -> (r: Option<i32>)
    ensures
        r == count_of(*field),
{
    match field {
        CountField::Signed(v) => count_from_i64(*v),
        CountField::Unsigned(v) => count_from_u64(*v),
        CountField::Text(s) => parse_i32(s.as_str()),
        CountField::Other => None,
    }
}

/// Why the start form was refused.
#[derive(Debug, Clone, Copy, PartialEq, Eq)]
pub enum StartFormError {
    /// No session name.
    MissingName,
    /// A question count that is not an `i32`.
    InvalidCount,
}

/// The start form, read.
pub struct StartSessionBody {
    pub name: String,
    pub question_count: i32,
    pub selection_mode: String,
}

impl StartSessionBody {
    /// Reads the start form from its fields, each absent when it was not
    /// sent: the name is required, the count defaults to
    /// `DEFAULT_QUESTION_COUNT` and the mode to `unanswered`.
    pub fn from_fields(name: Option<String>, question_count: Option<CountField>, selection_mode: Option<String>) -> (r: Result<StartSessionBody, StartFormError>)
        ensures
            match r {
                Ok(b) => name is Some && b.name@ == name->0@
                    && b.question_count == (match question_count { Some(f) => count_of(f)->0, None => DEFAULT_QUESTION_COUNT })
                    && (question_count is Some ==> count_of(question_count->0) is Some)
                    && b.selection_mode@ == (match selection_mode { Some(m) => m@, None => mode_unanswered() }),
                Err(e) => (name is None && e == StartFormError::MissingName)
                    || (name is Some && question_count is Some && count_of(question_count->0) is None
                        && e == StartFormError::InvalidCount),
            },
            (name is Some && (question_count is None || count_of(question_count->0) is Some)) <==> r is Ok,
    {
        let name = match name {
            Some(n) => n,
            None => {
                return Err(StartFormError::MissingName);
            },
        };
        let count = match question_count {
            Some(f) => match question_count_of(&f) {
                Some(c) => c,
                None => {
                    return Err(StartFormError::InvalidCount);
                },
            },
            None => default_question_count(),
        };
        let mode = match selection_mode {
            Some(m) => m,
            None => default_selection_mode(),
        };
        Ok(StartSessionBody { name, question_count: count, selection_mode: mode })
    }

    /// The settings the session is created with: the count clamped into the
    /// allowed range and the mode replaced by the default when unknown.
    pub fn session_settings(&self) -> (r: (i32, String))
        ensures
            r.0 == clamped_count(self.question_count as int),
            r.1@ == normalized_mode(self.selection_mode@),
    {
        (clamp_question_count(self.question_count), normalize_selection_mode(self.selection_mode.as_str()))
    }
}

} // verus!
