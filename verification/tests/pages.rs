use quizinart::error::AppError;
use quizinart::sharing::{available_shared_quiz, in_library, share_owner_check, share_toggle_look, SharedQuizInfo};
use quizinart::auth::{ChangePasswordOutcome, LoginOutcome, RegisterOutcome, ResetPasswordOutcome};
use quizinart::models::{AnswerModel, QuizCategoryOverallStats, QuizOverallStats, SessionReportModel};
use quizinart::names::{
    abandon_quiz_url, delete_quiz_url, delete_session_url, question_url, quiz_dashboard_url,
    quiz_page_url, quiz_session_history_url, rename_quiz_url, rename_session_url, results_url,
    resume_session_url, retry_bookmarked_url, retry_incorrect_url, start_session_url,
    toggle_bookmark_url,
};
use quizinart::pages::{
    answer_forward, bookmark_class, bookmark_title_key, change_password_state,
    forgot_password_state, login_reply, offers_retry, option_feedback, previous_question_url,
    question_number, register_reply, report_links, report_question_url, reset_page_state,
    reset_reply, selection_mode_label, session_mode, session_progress_url, AnswerForward,
    ChangePasswordState, ForgotPasswordState, LoginReply, LoginState, OptionFeedback,
    RegisterReply, RegisterState, ResetPasswordState,
};
use quizinart::stats::{
    answered_categories, bookmarked_count, format_study_time, has_answered_category,
    incorrect_count, is_session_complete,
};

#[test]
fn urls_of_quizzes_and_sessions() {
    assert_eq!(quiz_dashboard_url("01ABC"), "/quiz/01ABC/dashboard");
    assert_eq!(quiz_session_history_url("01ABC"), "/quiz/01ABC/sessions");
    assert_eq!(quiz_page_url("01ABC"), "/quiz/01ABC");
    assert_eq!(delete_quiz_url("01ABC"), "/delete-quiz/01ABC");
    assert_eq!(rename_quiz_url("01ABC"), "/rename-quiz/01ABC");
    assert_eq!(start_session_url("01ABC"), "/start-session/01ABC");
    assert_eq!(abandon_quiz_url("01ABC"), "/quiz/01ABC/abandon");
    assert_eq!(results_url(42), "/results/42");
    assert_eq!(results_url(-3), "/results/-3");
    assert_eq!(resume_session_url(7, "tok"), "/resume-session/7/tok");
    assert_eq!(delete_session_url(7), "/session/7/delete");
    assert_eq!(rename_session_url(2147483647), "/session/2147483647/rename");
    assert_eq!(question_url(3, 0), "/question/3?question_idx=0");
    assert_eq!(toggle_bookmark_url(3, 11), "/toggle-bookmark/3/11");
    assert_eq!(retry_incorrect_url(5), "/retry-incorrect/5");
    assert_eq!(retry_bookmarked_url(5), "/retry-bookmarked/5");
}

#[test]
fn study_time_formats() {
    assert_eq!(format_study_time(0), "0:00");
    assert_eq!(format_study_time(999), "0:00");
    assert_eq!(format_study_time(65_000), "1:05");
    assert_eq!(format_study_time(3_599_999), "59:59");
    assert_eq!(format_study_time(3_600_000), "1:00:00");
    assert_eq!(format_study_time(3_725_000), "1:02:05");
    assert_eq!(format_study_time(36_000_000 * 10), "100:00:00");
    assert_eq!(format_study_time(-61_000), "-1:-1");
    assert_eq!(format_study_time(-5_000), "0:-5");
    for ms in [0i64, 1_234, 59_000, 61_001, 4_000_000, 86_400_000, -1_000, -3_700_000, i64::MIN, i64::MAX] {
        let total = ms / 1000;
        let (h, m, s) = (total / 3600, (total % 3600) / 60, total % 60);
        let expected = if h > 0 { format!("{h}:{m:02}:{s:02}") } else { format!("{m}:{s:02}") };
        assert_eq!(format_study_time(ms), expected, "ms = {ms}");
    }
}

#[test]
fn dashboard_numbers() {
    let o = QuizOverallStats { total_questions: 50, unique_asked: 10, total_correct: 7, total_answered: 12 };
    assert_eq!(o.remaining_questions(), 40);
    assert_eq!(o.total_incorrect(), 5);
    assert_eq!(o.estimated_remaining_ms(600_000), Some(40 * 60_000));
    assert_eq!(o.estimated_remaining_ms(0), Some(40 * 30_000));
    let fresh = QuizOverallStats { total_questions: 4, unique_asked: 0, total_correct: 0, total_answered: 0 };
    assert_eq!(fresh.estimated_remaining_ms(123), Some(4 * 30_000));
    let done = QuizOverallStats { total_questions: 4, unique_asked: 4, total_correct: 3, total_answered: 4 };
    assert_eq!(done.estimated_remaining_ms(1_000), None);
}

fn cat(name: &str, answered: i64) -> QuizCategoryOverallStats {
    QuizCategoryOverallStats {
        category: name.to_string(),
        total_in_category: 10,
        unique_asked: answered,
        total_correct: 0,
        total_answered: answered,
    }
}

#[test]
fn radar_axes_are_answered_categories() {
    let cats = vec![cat("a", 0), cat("b", 3), cat("c", 0), cat("d", 1)];
    assert_eq!(answered_categories(&cats), vec!["b".to_string(), "d".to_string()]);
    assert!(has_answered_category(&cats));
    assert!(!has_answered_category(&[cat("x", 0)]));
    assert!(answered_categories(&[]).is_empty());
}

fn answer(correct: bool, bookmarked: bool, idx: i32) -> AnswerModel {
    AnswerModel { question: format!("q{idx}"), is_correct: correct, question_idx: idx, is_bookmarked: bookmarked }
}

#[test]
fn session_result_counts_and_links() {
    let answers = vec![answer(true, false, 0), answer(false, true, 1), answer(false, false, 2), answer(true, true, 3)];
    assert_eq!(incorrect_count(&answers), 2);
    assert_eq!(bookmarked_count(&answers), 2);
    assert!(offers_retry(2, true));
    assert!(!offers_retry(2, false));
    assert!(!offers_retry(0, true));
    assert!(is_session_complete(10, 10));
    assert!(!is_session_complete(9, 10));
    assert_eq!(report_question_url(5, 2, true, 10), "/question/5?question_idx=2&from=report");
    assert_eq!(report_question_url(5, 2, false, 4), "/question/5?question_idx=2&from=report&current_idx=4");
}

fn report(complete: bool) -> SessionReportModel {
    SessionReportModel {
        id: 8,
        name: "s".to_string(),
        score: 1,
        total_questions: 5,
        answered_questions: 2,
        is_complete: complete,
        session_token: "TOKEN".to_string(),
        question_count: Some(5),
        selection_mode: None,
    }
}

#[test]
fn session_history_links() {
    assert_eq!(session_progress_url(&report(true)), "/results/8");
    assert_eq!(session_progress_url(&report(false)), "/resume-session/8/TOKEN");
    assert_eq!(selection_mode_label("unanswered"), "mode.unanswered");
    assert_eq!(selection_mode_label("bookmarked"), "mode.bookmarked");
    assert_eq!(selection_mode_label("custom"), "custom");
    assert_eq!(session_mode(None), "random");
    assert_eq!(session_mode(Some("incorrect".to_string())), "incorrect");
}

#[test]
fn answer_page_choices() {
    assert_eq!(option_feedback(true, false), OptionFeedback::Correct);
    assert_eq!(option_feedback(true, true), OptionFeedback::Correct);
    assert_eq!(option_feedback(false, true), OptionFeedback::Incorrect);
    assert_eq!(option_feedback(false, false), OptionFeedback::Neutral);
    assert_eq!(OptionFeedback::Incorrect.css_class(), "option-incorrect");
    assert_eq!(bookmark_class(true), "bookmark-btn active material-symbols-rounded");
    assert_eq!(bookmark_class(false), "bookmark-btn material-symbols-rounded");
    assert_eq!(bookmark_title_key(true), "quiz.unbookmark");
    assert_eq!(question_number(0), 1);
    assert_eq!(previous_question_url(4, 0), None);
    assert_eq!(previous_question_url(4, 3), Some("/question/4?question_idx=2".to_string()));
    assert_eq!(answer_forward(4, 9, 10), AnswerForward::Results("/results/4".to_string()));
    assert_eq!(answer_forward(4, 3, 10), AnswerForward::Next("/question/4?question_idx=4".to_string()));
    assert!(report_links(None, 4, Some(2)).is_none());
    assert!(report_links(Some("elsewhere"), 4, Some(2)).is_none());
    let links = report_links(Some("report"), 4, Some(2)).expect("from the report");
    assert_eq!(links.back_to_results, "/results/4");
    assert_eq!(links.return_to_current.as_deref(), Some("/question/4?question_idx=2"));
    let links = report_links(Some("report"), 4, None).expect("from the report");
    assert!(links.return_to_current.is_none());
}

#[test]
fn form_states_follow_outcomes() {
    assert_eq!(register_reply(RegisterOutcome::LoggedIn("t".to_string())), RegisterReply::StartSession("t".to_string()));
    assert_eq!(register_reply(RegisterOutcome::VerificationSent("a@b".to_string())), RegisterReply::CheckEmail("a@b".to_string()));
    assert_eq!(register_reply(RegisterOutcome::VerificationEmailFailed("a@b".to_string())), RegisterReply::CheckEmail("a@b".to_string()));
    assert_eq!(register_reply(RegisterOutcome::EmailTaken), RegisterReply::Form(RegisterState::EmailTaken));
    assert_eq!(register_reply(RegisterOutcome::WeakPassword), RegisterReply::Form(RegisterState::WeakPassword));
    assert_eq!(login_reply(LoginOutcome::InvalidCredentials), LoginReply::Form(LoginState::IncorrectPassword));
    assert_eq!(login_reply(LoginOutcome::Success("s".to_string())), LoginReply::StartSession("s".to_string()));
    assert_eq!(forgot_password_state(true), ForgotPasswordState::EmailSent);
    assert_eq!(forgot_password_state(false), ForgotPasswordState::EmailNotConfigured);
    assert_eq!(reset_page_state(true, "tok"), (ResetPasswordState::Form, "tok".to_string()));
    assert_eq!(reset_page_state(false, "tok"), (ResetPasswordState::InvalidToken, String::new()));
    assert_eq!(reset_reply(ResetPasswordOutcome::WeakPassword, "tok"), (ResetPasswordState::WeakPassword, "tok".to_string()));
    assert_eq!(reset_reply(ResetPasswordOutcome::Success, "tok"), (ResetPasswordState::Success, String::new()));
    assert_eq!(change_password_state(ChangePasswordOutcome::DemoUser), ChangePasswordState::DemoUser);
}

fn shared(is_shared: bool) -> SharedQuizInfo {
    SharedQuizInfo {
        id: 9,
        public_id: "01P".to_string(),
        name: "Quiz".to_string(),
        is_shared,
        owner_name: "Owner".to_string(),
        question_count: 30,
    }
}

#[test]
fn sharing_rules() {
    assert_eq!(share_owner_check(true), Ok(()));
    assert_eq!(share_owner_check(false), Err(AppError::Unauthorized));
    assert_eq!(available_shared_quiz(Some(shared(true))).map(|q| q.id), Some(9));
    assert!(available_shared_quiz(Some(shared(false))).is_none());
    assert!(available_shared_quiz(None).is_none());
    assert!(in_library(&[1, 9, 3], 9));
    assert!(!in_library(&[1, 3], 9));
    assert_eq!(share_toggle_look(true).0, "public");
    assert_eq!(share_toggle_look(false).1, "share.share_btn");
}
