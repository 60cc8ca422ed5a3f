use quizinart::forms::{CountField, StartFormError, StartSessionBody};
use quizinart::quiz::{
    is_resuming, new_retry_session_name, quiz_page_view, retry_questions, retry_session_name,
    session_token_to_resume, QuizPageView, RetryKind,
};
use quizinart::selection::{
    clamp_question_count, dedupe_question_ids, default_question_count, default_selection_mode,
    id_set, ids_outside_pool, normalize_selection_mode, select_questions, select_questions_with_fresh_seed,
    DEFAULT_QUESTION_COUNT, MAX_QUESTION_COUNT, MIN_QUESTION_COUNT,
};

fn count_field(v: &serde_json::Value) -> CountField {
    if let Some(u) = v.as_u64() {
        CountField::Unsigned(u)
    } else if let Some(i) = v.as_i64() {
        CountField::Signed(i)
    } else if let Some(s) = v.as_str() {
        CountField::Text(s.to_string())
    } else {
        CountField::Other
    }
}

/// Reads the start form from JSON, field by field.
fn start_body(json: &str) -> Result<StartSessionBody, StartFormError> {
    let v: serde_json::Value = serde_json::from_str(json).expect("valid JSON");
    let name = v.get("name").and_then(|n| n.as_str()).map(|s| s.to_string());
    let count = v.get("question_count").map(count_field);
    let mode = v.get("selection_mode").and_then(|m| m.as_str()).map(|s| s.to_string());
    StartSessionBody::from_fields(name, count, mode)
}

fn has_duplicates(v: &[i32]) -> bool {
    let mut seen = std::collections::HashSet::new();
    !v.iter().all(|x| seen.insert(*x))
}

#[test]
fn start_session_body_accepts_numeric_string() {
    let body = start_body(r#"{"name":"alice","question_count":"10","selection_mode":"random"}"#)
        .expect("should parse numeric string");

    assert_eq!(body.question_count, 10);
}

#[test]
fn start_session_body_rejects_out_of_range_i64() {
    let result = start_body(r#"{"name":"alice","question_count":2147483648,"selection_mode":"random"}"#);

    assert!(result.is_err());
}

#[test]
fn start_session_body_rejects_out_of_range_u64() {
    let result =
        start_body(r#"{"name":"alice","question_count":9223372036854775808,"selection_mode":"random"}"#);

    assert!(result.is_err());
}

#[test]
fn start_session_body_defaults_and_errors() {
    let body = start_body(r#"{"name":"bob"}"#).expect("defaults apply");
    assert_eq!(body.question_count, DEFAULT_QUESTION_COUNT);
    assert_eq!(body.selection_mode, "unanswered");
    let body = start_body(r#"{"name":"bob","question_count":-3}"#).expect("negative fits i32");
    assert_eq!(body.question_count, -3);
    assert_eq!(body.session_settings(), (MIN_QUESTION_COUNT, "unanswered".to_string()));
    assert_eq!(start_body(r#"{"question_count":5}"#).err(), Some(StartFormError::MissingName));
    assert_eq!(start_body(r#"{"name":"bob","question_count":"ten"}"#).err(), Some(StartFormError::InvalidCount));
    assert_eq!(start_body(r#"{"name":"bob","question_count":1.5}"#).err(), Some(StartFormError::InvalidCount));
    assert_eq!(start_body(r#"{"name":"bob","question_count":"+7"}"#).map(|b| b.question_count).ok(), Some(7));
}

#[test]
fn session_settings_clamp_and_normalize() {
    let body = start_body(r#"{"name":"c","question_count":100,"selection_mode":"weird"}"#).expect("ok");
    assert_eq!(body.session_settings(), (MAX_QUESTION_COUNT, "unanswered".to_string()));
    let body = start_body(r#"{"name":"c","question_count":"12","selection_mode":"incorrect"}"#).expect("ok");
    assert_eq!(body.session_settings(), (12, "incorrect".to_string()));
    assert_eq!(normalize_selection_mode("random"), "random");
    assert_eq!(normalize_selection_mode("bookmarked"), "unanswered");
}

#[test]
fn question_count_is_clamped() {
    assert_eq!(clamp_question_count(0), MIN_QUESTION_COUNT);
    assert_eq!(clamp_question_count(i32::MIN), MIN_QUESTION_COUNT);
    assert_eq!(clamp_question_count(31), MAX_QUESTION_COUNT);
    assert_eq!(clamp_question_count(17), 17);
    assert_eq!(clamp_question_count(clamp_question_count(99)), clamp_question_count(99));
    assert_eq!(default_question_count(), 10);
    assert_eq!(default_selection_mode(), "unanswered");
}

#[test]
fn random_selection_has_no_duplicates_and_caps_at_total() {
    let all: Vec<i32> = (1..=20).collect();
    for seed in [0, 1, 42, -7, i32::MAX] {
        let r = select_questions(vec![], all.clone(), 10, "random", seed);
        assert_eq!(r.len(), 10);
        assert!(!has_duplicates(&r));
        assert!(r.iter().all(|x| all.contains(x)));
    }
    let few: Vec<i32> = (1..=3).collect();
    let r = select_questions(vec![], few.clone(), 10, "random", 5);
    assert_eq!(r.len(), 3);
    let mut sorted = r.clone();
    sorted.sort();
    assert_eq!(sorted, few);
}

#[test]
fn selection_is_fixed_by_the_seed() {
    let all: Vec<i32> = (1..=30).collect();
    let a = select_questions(vec![], all.clone(), 8, "random", 1234);
    let b = select_questions(vec![], all.clone(), 8, "random", 1234);
    assert_eq!(a, b);
}

#[test]
fn selection_shuffles_the_questions() {
    let all: Vec<i32> = (1..=20).collect();
    let orders: Vec<Vec<i32>> = (0..5).map(|seed| select_questions(vec![], all.clone(), 20, "random", seed)).collect();
    assert!(orders.iter().any(|o| o != &all));
    for o in &orders {
        let mut sorted = o.clone();
        sorted.sort();
        assert_eq!(sorted, all);
    }
}

#[test]
fn unanswered_selection_takes_the_pool_first() {
    let all: Vec<i32> = (1..=20).collect();
    let pool: Vec<i32> = vec![3, 6, 9, 12, 15, 18];
    let r = select_questions(pool.clone(), all.clone(), 5, "unanswered", 9);
    assert_eq!(r.len(), 5);
    assert!(r.iter().all(|x| pool.contains(x)));
    assert!(!has_duplicates(&r));
}

#[test]
fn unanswered_selection_fills_up_from_all_questions() {
    let all: Vec<i32> = (1..=20).collect();
    let pool: Vec<i32> = vec![2, 4];
    let r = select_questions(pool.clone(), all.clone(), 10, "incorrect", 3);
    assert_eq!(r.len(), 10);
    assert!(!has_duplicates(&r));
    let mut head = r[..2].to_vec();
    head.sort();
    assert_eq!(head, pool);
    assert!(r[2..].iter().all(|x| !pool.contains(x) && all.contains(x)));
    let (seed, r2) = select_questions_with_fresh_seed(pool.clone(), all.clone(), 30, "unanswered");
    assert_eq!(r2.len(), 20);
    assert!(!has_duplicates(&r2));
    assert_eq!(select_questions(pool.clone(), all.clone(), 30, "unanswered", seed), r2);
}

#[test]
fn fill_skips_the_pool() {
    assert_eq!(ids_outside_pool(&[1, 2, 3, 4, 5], &[4, 2]), vec![1, 3, 5]);
    assert_eq!(ids_outside_pool(&[1, 2], &[]), vec![1, 2]);
    assert_eq!(ids_outside_pool(&[1, 2], &[1, 2, 7]), Vec::<i32>::new());
    let set = id_set(&[3, 3, 8]);
    assert_eq!(set.len(), 2);
    assert!(set.contains(&3) && set.contains(&8));
}

#[test]
fn retry_questions_deduplicate_ids() {
    assert_eq!(retry_questions(&[]), None);
    let (ids, count) = retry_questions(&[5, 3, 5, 1, 3]).expect("something to retry");
    assert_eq!(ids, vec![5, 3, 1]);
    assert_eq!(count, 3);
    assert_eq!(dedupe_question_ids(&[1, 1, 1]), vec![1]);
    assert_eq!(dedupe_question_ids(&dedupe_question_ids(&[4, 2, 4])), vec![4, 2]);
}

#[test]
fn retry_session_names_carry_a_lowercase_suffix() {
    let ulid = "01ARZ3NDEKTSV4RRFFQ69G5FAV";
    assert_eq!(retry_session_name("exam", ulid, RetryKind::Incorrect), "exam-retry-01arz3");
    assert_eq!(retry_session_name("exam", ulid, RetryKind::Bookmarked), "exam-bm-01arz3");
    assert_eq!(RetryKind::Incorrect.mode(), "incorrect");
    assert_eq!(RetryKind::Bookmarked.mode(), "bookmarked");
    let fresh = new_retry_session_name("s", RetryKind::Incorrect);
    assert!(fresh.starts_with("s-retry-"));
    assert_eq!(fresh.len(), "s-retry-".len() + 6);
    assert!(fresh["s-retry-".len()..].chars().all(|c| c.is_ascii_digit() || c.is_ascii_lowercase()));
}

#[test]
fn quiz_page_resumes_only_its_own_session() {
    assert_eq!(session_token_to_resume(Some("")), None);
    assert_eq!(session_token_to_resume(None), None);
    assert_eq!(session_token_to_resume(Some("tok")), Some("tok"));
    assert_eq!(quiz_page_view(Some(4), 4), QuizPageView::CurrentQuestion);
    assert_eq!(quiz_page_view(Some(5), 4), QuizPageView::StartPage);
    assert_eq!(quiz_page_view(None, 4), QuizPageView::StartPage);
    assert!(is_resuming(1));
    assert!(!is_resuming(0));
}
