//! The rows that the database gives the pages.
use vstd::prelude::*;

verus! {

/// A quiz in a user's library.
pub struct Quiz {
    pub id: i32,
    pub public_id: String,
    pub name: String,
    /// The number of questions.
    pub count: i64,
    pub is_shared: bool,
    /// Whether the user owns the quiz (else it came from the marketplace).
    pub is_owner: bool,
    pub owner_name: String,
}

/// A question with its options, as a page shows it.
pub struct QuestionModel {
    pub question: String,
    pub is_multiple_choice: bool,
    pub options: Vec<QuestionOptionModel>,
}

/// One option of a question.
pub struct QuestionOptionModel {
    pub id: i32,
    pub is_answer: bool,
    pub option: String,
    pub explanation: Option<String>,
}

/// A quiz session.
pub struct QuizSessionModel {
    pub id: i32,
    pub quiz_id: i32,
    pub name: String,
    pub question_count: Option<i32>,
    pub selection_mode: Option<String>,
}

/// One answered question of a session, for its report.
pub struct AnswerModel {
    pub question: String,
    pub is_correct: bool,
    pub question_idx: i32,
    pub is_bookmarked: bool,
}

/// How often a question was answered correctly.
pub struct QuestionStatsModel {
    pub question: String,
    pub correct_answers: i64,
}

/// One session of a quiz, for the session history.
pub struct SessionReportModel {
    pub id: i32,
    pub name: String,
    pub score: i32,
    pub total_questions: i32,
    pub answered_questions: i32,
    pub is_complete: bool,
    pub session_token: String,
    pub question_count: Option<i32>,
    pub selection_mode: Option<String>,
}

/// The totals of a quiz over all its sessions.
pub struct QuizOverallStats {
    pub total_questions: i64,
    pub unique_asked: i64,
    pub total_correct: i64,
    pub total_answered: i64,
}

/// The totals of one category of a quiz over all its sessions.
pub struct QuizCategoryOverallStats {
    pub category: String,
    pub total_in_category: i64,
    pub unique_asked: i64,
    pub total_correct: i64,
    pub total_answered: i64,
}

} // verus!
