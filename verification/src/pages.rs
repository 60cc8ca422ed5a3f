//! What the pages show: the data each page is drawn from, the state of each
//! form, and the choices a page makes (which links it offers, how an option
//! is marked).
use vstd::prelude::*;
use vstd::string::*;

use crate::auth::{ChangePasswordOutcome, LoginOutcome, RegisterOutcome, ResetPasswordOutcome};
use crate::models::{QuestionModel, SessionReportModel};
use crate::names::{question_url, results_url, resume_session_url};
use crate::text::{decimal_int, push_decimal_i64, str_eq};

verus! {

/// The user shown in the navigation bar.
pub struct NavUser<'a> {
    pub display_name: &'a str,
    pub is_admin: bool,
}

/// The start page of a quiz.
pub struct StartPageData {
    pub quiz_name: String,
    pub total_questions: i32,
    pub quiz_id: i32,
}

/// A question to answer.
pub struct QuestionData {
    pub quiz_name: String,
    pub question: QuestionModel,
    pub question_idx: i32,
    pub questions_count: i32,
    pub is_answered: bool,
    pub selected_answers: Vec<i32>,
    pub is_resuming: bool,
    pub session_id: i32,
    pub question_id: i32,
    pub is_bookmarked: bool,
    pub quiz_id: String,
}

/// An answered question with its feedback.
pub struct AnswerData {
    pub quiz_name: String,
    pub question: QuestionModel,
    pub question_idx: i32,
    pub questions_count: i32,
    pub session_id: i32,
    pub quiz_id: String,
    pub selected: Vec<i32>,
    pub from_context: Option<String>,
    pub current_idx: Option<i32>,
    pub question_id: i32,
    pub is_bookmarked: bool,
}

/// The session history of a quiz.
pub struct SessionHistoryData {
    pub quiz_name: String,
    pub quiz_id: String,
    pub sessions: Vec<SessionReportModel>,
}

/// The registration form.
#[derive(Debug, Clone, Copy, PartialEq, Eq)]
pub enum RegisterState {
    NoError,
    EmailTaken,
    EmptyFields,
    WeakPassword,
}

/// The login form.
#[derive(Debug, Clone, Copy, PartialEq, Eq)]
pub enum LoginState {
    NoError,
    IncorrectPassword,
    EmailNotVerified,
}

/// The forgotten-password page.
#[derive(Debug, Clone, Copy, PartialEq, Eq)]
pub enum ForgotPasswordState {
    NoError,
    EmailNotConfigured,
    EmailSent,
}

/// The password-reset page.
#[derive(Debug, Clone, Copy, PartialEq, Eq)]
pub enum ResetPasswordState {
    Form,
    InvalidToken,
    EmptyPassword,
    WeakPassword,
    Success,
}

/// The password-change form of the account page.
#[derive(Debug, Clone, Copy, PartialEq, Eq)]
pub enum ChangePasswordState {
    NoError,
    IncorrectPassword,
    EmptyFields,
    WeakPassword,
    DemoUser,
    Success,
}

/// The reply to a registration.
#[derive(Debug, Clone, PartialEq, Eq)]
pub enum RegisterReply {
    /// Set the session cookie to this token and go to the home page.
    StartSession(String),
    /// Ask the user to look for the verification e-mail sent to this address.
    CheckEmail(String),
    /// Show the form again, in this state.
    Form(RegisterState),
}

/// The reply to a registration outcome.  A registration whose verification
/// e-mail could not be sent also asks the user to check their mail, where a
/// new e-mail can be requested.
pub fn register_reply(outcome: RegisterOutcome) -> (r: RegisterReply)
    ensures
        match outcome {
            RegisterOutcome::LoggedIn(t) => r == RegisterReply::StartSession(t),
            RegisterOutcome::VerificationSent(e) => r == RegisterReply::CheckEmail(e),
            RegisterOutcome::VerificationEmailFailed(e) => r == RegisterReply::CheckEmail(e),
            RegisterOutcome::EmptyFields => r == RegisterReply::Form(RegisterState::EmptyFields),
            RegisterOutcome::EmailTaken => r == RegisterReply::Form(RegisterState::EmailTaken),
            RegisterOutcome::WeakPassword => r == RegisterReply::Form(RegisterState::WeakPassword),
        },
{
    match outcome {
        RegisterOutcome::LoggedIn(t) => RegisterReply::StartSession(t),
        RegisterOutcome::VerificationSent(e) => RegisterReply::CheckEmail(e),
        RegisterOutcome::VerificationEmailFailed(e) => RegisterReply::CheckEmail(e),
        RegisterOutcome::EmptyFields => RegisterReply::Form(RegisterState::EmptyFields),
        RegisterOutcome::EmailTaken => RegisterReply::Form(RegisterState::EmailTaken),
        RegisterOutcome::WeakPassword => RegisterReply::Form(RegisterState::WeakPassword),
    }
}

/// The reply to a login.
#[derive(Debug, Clone, PartialEq, Eq)]
pub enum LoginReply {
    /// Set the session cookie to this token and go to the home page.
    StartSession(String),
    /// Show the form again, in this state.
    Form(LoginState),
}

/// The reply to a login outcome.
pub fn login_reply(outcome: LoginOutcome) -> (r: LoginReply)
    ensures
        match outcome {
            LoginOutcome::Success(t) => r == LoginReply::StartSession(t),
            LoginOutcome::InvalidCredentials => r == LoginReply::Form(LoginState::IncorrectPassword),
            LoginOutcome::EmailNotVerified => r == LoginReply::Form(LoginState::EmailNotVerified),
        },
{
    match outcome {
        LoginOutcome::Success(t) => LoginReply::StartSession(t),
        LoginOutcome::InvalidCredentials => LoginReply::Form(LoginState::IncorrectPassword),
        LoginOutcome::EmailNotVerified => LoginReply::Form(LoginState::EmailNotVerified),
    }
}

/// The forgotten-password page after a request: sent, or e-mail not configured.
pub fn forgot_password_state(sent: bool) -> (r: ForgotPasswordState)
    ensures
        r == (if sent { ForgotPasswordState::EmailSent } else { ForgotPasswordState::EmailNotConfigured }),
{
    if sent {
        ForgotPasswordState::EmailSent
    } else {
        ForgotPasswordState::EmailNotConfigured
    }
}

/// The reset page for a link: the form, carrying the token, when the token
/// is valid; the invalid-token page, with no token, otherwise.
pub fn reset_page_state(valid: bool, token: &str) -> (r: (ResetPasswordState, String))
    ensures
        valid ==> r.0 == ResetPasswordState::Form && r.1@ == token@,
        !valid ==> r.0 == ResetPasswordState::InvalidToken && r.1@.len() == 0,
{
    if valid {
        (ResetPasswordState::Form, String::from_str(token))
    } else {
        (ResetPasswordState::InvalidToken, String::new())
    }
}

/// The reset page after a reset: a rejected password shows the form again
/// with the token; success and an invalid token end it without one.
pub fn reset_reply(outcome: ResetPasswordOutcome, token: &str) -> (r: (ResetPasswordState, String))
    ensures
        match outcome {
            ResetPasswordOutcome::Success => r.0 == ResetPasswordState::Success && r.1@.len() == 0,
            ResetPasswordOutcome::EmptyPassword => r.0 == ResetPasswordState::EmptyPassword && r.1@ == token@,
            ResetPasswordOutcome::WeakPassword => r.0 == ResetPasswordState::WeakPassword && r.1@ == token@,
            ResetPasswordOutcome::InvalidToken => r.0 == ResetPasswordState::InvalidToken && r.1@.len() == 0,
        },
{
    match outcome {
        ResetPasswordOutcome::Success => (ResetPasswordState::Success, String::new()),
        ResetPasswordOutcome::EmptyPassword => (ResetPasswordState::EmptyPassword, String::from_str(token)),
        ResetPasswordOutcome::WeakPassword => (ResetPasswordState::WeakPassword, String::from_str(token)),
        ResetPasswordOutcome::InvalidToken => (ResetPasswordState::InvalidToken, String::new()),
    }
}

/// The account page after a password change.
pub fn change_password_state(outcome: ChangePasswordOutcome) -> (r: ChangePasswordState)
    ensures
        match outcome {
            ChangePasswordOutcome::Success => r == ChangePasswordState::Success,
            ChangePasswordOutcome::EmptyFields => r == ChangePasswordState::EmptyFields,
            ChangePasswordOutcome::WeakPassword => r == ChangePasswordState::WeakPassword,
            ChangePasswordOutcome::IncorrectPassword => r == ChangePasswordState::IncorrectPassword,
            ChangePasswordOutcome::DemoUser => r == ChangePasswordState::DemoUser,
        },
{
    match outcome {
        ChangePasswordOutcome::Success => ChangePasswordState::Success,
        ChangePasswordOutcome::EmptyFields => ChangePasswordState::EmptyFields,
        ChangePasswordOutcome::WeakPassword => ChangePasswordState::WeakPassword,
        ChangePasswordOutcome::IncorrectPassword => ChangePasswordState::IncorrectPassword,
        ChangePasswordOutcome::DemoUser => ChangePasswordState::DemoUser,
    }
}

/// The label of a selection mode: the translation key of a known mode, the
/// mode itself otherwise.
pub open spec fn mode_label(mode: Seq<char>) -> Seq<char> {
    if mode == "unanswered"@ {
        "mode.unanswered"@
    } else if mode == "incorrect"@ {
        "mode.incorrect"@
    } else if mode == "random"@ {
        "mode.random"@
    } else if mode == "bookmarked"@ {
        "mode.bookmarked"@
    } else {
        mode
    }
}

/// The label under which a selection mode is shown (a translation key, or
/// the mode as it is).
pub fn selection_mode_label(mode: &str) -> (r: String)
    ensures
        r@ == mode_label(mode@),
{
    if str_eq(mode, "unanswered") {
        String::from_str("mode.unanswered")
    } else if str_eq(mode, "incorrect") {
        String::from_str("mode.incorrect")
    } else if str_eq(mode, "random") {
        String::from_str("mode.random")
    } else if str_eq(mode, "bookmarked") {
        String::from_str("mode.bookmarked")
    } else {
        String::from_str(mode)
    }
}

/// The selection mode of a stored session; sessions that predate modes were random.
pub fn session_mode(stored: Option<String>) -> (r: String)
    ensures
        r@ == (match stored { Some(m) => m@, None => "random"@ }),
{
    match stored {
        Some(m) => m,
        None => String::from_str("random"),
    }
}

/// How an option is marked once answered.
#[derive(Debug, Clone, Copy, PartialEq, Eq)]
pub enum OptionFeedback {
    /// A right option (chosen or not).
    Correct,
    /// A wrong option that was chosen.
    Incorrect,
    /// A wrong option left alone.
    Neutral,
}

impl OptionFeedback {
    /// The CSS class of the option.
    pub fn css_class(&self) -> (r: &'static str)
        ensures
            r@ == (match *self {
                OptionFeedback::Correct => "option-correct"@,
                OptionFeedback::Incorrect => "option-incorrect"@,
                OptionFeedback::Neutral => "option-neutral"@,
            }),
    {
        match self {
            OptionFeedback::Correct => "option-correct",
            OptionFeedback::Incorrect => "option-incorrect",
            OptionFeedback::Neutral => "option-neutral",
        }
    }
}

/// How an answered option is marked: right options as correct, chosen wrong
/// ones as incorrect, the rest neutral.
pub fn option_feedback(is_answer: bool, is_selected: bool) -> (r: OptionFeedback)
    ensures
        r == (if is_answer { OptionFeedback::Correct } else if is_selected { OptionFeedback::Incorrect } else { OptionFeedback::Neutral }),
{
    if is_answer {
        OptionFeedback::Correct
    } else if is_selected {
        OptionFeedback::Incorrect
    } else {
        OptionFeedback::Neutral
    }
}

/// The CSS class of the bookmark button.
pub fn bookmark_class(is_bookmarked: bool) -> (r: &'static str)
    ensures
        r@ == (if is_bookmarked { "bookmark-btn active material-symbols-rounded"@ } else { "bookmark-btn material-symbols-rounded"@ }),
{
    if is_bookmarked {
        "bookmark-btn active material-symbols-rounded"
    } else {
        "bookmark-btn material-symbols-rounded"
    }
}

/// The translation key of the bookmark button's title: what a press does.
pub fn bookmark_title_key(is_bookmarked: bool) -> (r: &'static str)
    ensures
        r@ == (if is_bookmarked { "quiz.unbookmark"@ } else { "quiz.bookmark"@ }),
{
    if is_bookmarked {
        "quiz.unbookmark"
    } else {
        "quiz.bookmark"
    }
}

/// The number a question is shown with: its index counted from one.
pub fn question_number(question_idx: i32) -> (r: i32)
    requires
        question_idx < i32::MAX,
    ensures
        r == question_idx + 1,
{
    question_idx + 1
}

/// The link to the previous question, for every question but the first.
pub fn previous_question_url(session_id: i32, question_idx: i32) -> (r: Option<String>)
    ensures
        question_idx > 0 ==> r is Some && r->0@ == "/question/"@ + decimal_int(session_id as int) + "?question_idx="@ + decimal_int(question_idx - 1),
        question_idx <= 0 ==> r is None,
{
    if question_idx > 0 {
        Some(question_url(session_id, question_idx - 1))
    } else {
        None
    }
}

/// Where the button under an answer leads.
#[derive(Debug, Clone, PartialEq, Eq)]
pub enum AnswerForward {
    /// After the last question: the session's results.
    Results(String),
    /// Otherwise: the next question.
    Next(String),
}

/// The button under an answer: the results after the last question, the
/// next question before it.
pub fn answer_forward(session_id: i32, question_idx: i32, questions_count: i32) -> (r: AnswerForward)
    requires
        question_idx < i32::MAX,
    ensures
        match r {
            AnswerForward::Results(u) => question_idx + 1 == questions_count
                && u@ == "/results/"@ + decimal_int(session_id as int),
            AnswerForward::Next(u) => question_idx + 1 != questions_count
                && u@ == "/question/"@ + decimal_int(session_id as int) + "?question_idx="@ + decimal_int(question_idx + 1),
        },
{
    if question_idx + 1 == questions_count {
        AnswerForward::Results(results_url(session_id))
    } else {
        AnswerForward::Next(question_url(session_id, question_idx + 1))
    }
}

/// The links under an answer opened from a session's report: back to the
/// results, and on to the question the session stands at when one is given.
pub struct ReportLinks {
    pub back_to_results: String,
    pub return_to_current: Option<String>,
}

/// The links of an answer opened from the report (`from=report`); `None`
/// for an answer reached while answering.
pub fn report_links(from_context: Option<&str>, session_id: i32, current_idx: Option<i32>) -> (r: Option<ReportLinks>)
    ensures
        match from_context {
            Some(f) if f@ == "report"@ => r is Some
                && r->0.back_to_results@ == "/results/"@ + decimal_int(session_id as int)
                && match current_idx {
                    Some(c) => r->0.return_to_current is Some && r->0.return_to_current->0@
                        == "/question/"@ + decimal_int(session_id as int) + "?question_idx="@ + decimal_int(c as int),
                    None => r->0.return_to_current is None,
                },
            _ => r is None,
        },
{
    let from_report = match from_context {
        Some(f) => str_eq(f, "report"),
        None => false,
    };
    if !from_report {
        return None;
    }
    let current = match current_idx {
        Some(c) => Some(question_url(session_id, c)),
        None => None,
    };
    Some(ReportLinks { back_to_results: results_url(session_id), return_to_current: current })
}

/// The link from a session's report to one of its questions: it carries
/// `from=report`, and for a session still running the index it stands at.
pub open spec fn report_question_link(session_id: int, question_idx: int, is_complete: bool, answered_count: int) -> Seq<char> {
    let base = "/question/"@ + decimal_int(session_id) + "?question_idx="@ + decimal_int(question_idx) + "&from=report"@;
    if is_complete {
        base
    } else {
        base + "&current_idx="@ + decimal_int(answered_count)
    }
}

/// The link from a session's report to one of its questions.
pub fn report_question_url(session_id: i32, question_idx: i32, is_complete: bool, answered_count: i32) -> (r: String)
    ensures
        r@ == report_question_link(session_id as int, question_idx as int, is_complete, answered_count as int),
{
    let mut r = question_url(session_id, question_idx);
    r.append("&from=report");
    if !is_complete {
        r.append("&current_idx=");
        push_decimal_i64(&mut r, answered_count as i64);
    }
    r
}

/// The link of a session's progress in the history: its results when it is
/// complete, the way back into it otherwise.
pub fn session_progress_url(s: &SessionReportModel) -> (r: String)
    ensures
        r@ == (if s.is_complete {
            "/results/"@ + decimal_int(s.id as int)
        } else {
            "/resume-session/"@ + decimal_int(s.id as int) + "/"@ + s.session_token@
        }),
{
    if s.is_complete {
        results_url(s.id)
    } else {
        resume_session_url(s.id, s.session_token.as_str())
    }
}

/// Whether the results offer to retry: only for a complete session with
/// something to retry.
pub fn offers_retry(count: usize, is_complete: bool) -> (r: bool)
    ensures
        r == (count > 0 && is_complete),
{
    count > 0 && is_complete
}

} // verus!
