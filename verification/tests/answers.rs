use quizinart::answer::{
    grade_answer, is_final_question, parse_answer_body, parse_i32, same_ids, selected_option_ids,
    split_form_pairs, SubmitAnswerBody,
};
use quizinart::error::AppError;

#[test]
fn answer_body_reads_single_option() {
    let body = parse_answer_body("option=12").expect("decodes");
    assert_eq!(body.option.as_deref(), Some("12"));
    assert!(body.options.is_empty());
    assert_eq!(selected_option_ids(&body), Ok(vec![12]));
}

#[test]
fn answer_body_reads_multiple_options_in_order() {
    let body = parse_answer_body("options=3&other=x&options=1&options=%32").expect("decodes");
    assert_eq!(body.options, vec!["3".to_string(), "1".to_string(), "2".to_string()]);
    assert_eq!(selected_option_ids(&body), Ok(vec![3, 1, 2]));
}

#[test]
fn answer_body_keeps_last_option_and_skips_pieces_without_equals() {
    let body = parse_answer_body("option=1&junk&option=2").expect("decodes");
    assert_eq!(body.option.as_deref(), Some("2"));
    let pairs = split_form_pairs("a=b=c&d&=e");
    assert_eq!(pairs.len(), 2);
    assert_eq!(pairs[0].key, "a");
    assert_eq!(pairs[0].value, "b=c");
    assert_eq!(pairs[1].key, "");
    assert_eq!(pairs[1].value, "e");
}

#[test]
fn answer_body_with_bad_escape_is_an_input_error() {
    let r = parse_answer_body("option=%FF");
    assert_eq!(r.err(), Some(AppError::Input("failed to decode URL value")));
}

#[test]
fn selected_ids_errors() {
    let none = SubmitAnswerBody { option: None, options: vec![] };
    assert_eq!(selected_option_ids(&none), Err(AppError::Input("no options provided")));
    let bad = SubmitAnswerBody { option: Some("x".to_string()), options: vec![] };
    assert_eq!(selected_option_ids(&bad), Err(AppError::Input("failed to parse option id")));
    let some_bad = SubmitAnswerBody { option: Some("9".to_string()), options: vec!["4".to_string(), "y".to_string()] };
    assert_eq!(selected_option_ids(&some_bad), Ok(vec![4]));
    let all_bad = SubmitAnswerBody { option: Some("9".to_string()), options: vec!["abc".to_string()] };
    assert_eq!(selected_option_ids(&all_bad), Err(AppError::Input("failed to parse option id")));
}

#[test]
fn parse_i32_follows_str_parse() {
    for s in ["0", "-0", "+5", "2147483647", "-2147483648", "2147483648", "", "-", "+", "1a", " 1", "007"] {
        assert_eq!(parse_i32(s), s.parse::<i32>().ok(), "input {s:?}");
    }
}

#[test]
fn decimal_text_parses_back() {
    for n in [0, 1, -1, 42, i32::MAX, i32::MIN, 1000, -99] {
        assert_eq!(parse_i32(&n.to_string()), Some(n));
    }
}

#[test]
fn grading_single_and_multiple_choice() {
    assert!(grade_answer(false, &[2], &[2]));
    assert!(!grade_answer(false, &[3], &[2]));
    assert!(grade_answer(false, &[2, 9], &[1, 2]));
    assert!(grade_answer(true, &[3, 1], &[1, 3]));
    assert!(!grade_answer(true, &[1], &[1, 3]));
    assert!(!grade_answer(true, &[1, 1, 3], &[1, 3]));
    assert!(grade_answer(true, &[], &[]));
    assert!(same_ids(&[5, 4, 5], &[5, 5, 4]));
}

#[test]
fn final_question_detection() {
    assert!(is_final_question(9, 10));
    assert!(!is_final_question(8, 10));
    assert!(!is_final_question(10, 10));
}
