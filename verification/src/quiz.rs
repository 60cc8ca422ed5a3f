//! Quizzes and their sessions: importing a quiz file, naming a retry
//! session, and what a quiz page shows.
use ulid::Ulid;
use vstd::prelude::*;
use vstd::string::*;

use crate::error::AppError;
use crate::selection::{dedupe_question_ids, deduplicated, lemma_deduplicated_laws};
use crate::text::{ascii_lower, chars_of, str_eq, string_from_chars, to_ascii_lower};

verus! {

/// One question of an uploaded quiz file.
pub struct Question {
    pub question: String,
    pub category: Option<String>,
    pub is_multiple_choice: bool,
    pub options: Vec<QuestionOption>,
}

/// One option of an uploaded question.
pub struct QuestionOption {
    pub text: String,
    pub is_answer: bool,
    pub explanation: Option<String>,
}

/// The view of an optional string.
pub open spec fn opt_view(o: Option<String>) -> Option<Seq<char>> {
    match o {
        Some(s) => Some(s@),
        None => None,
    }
}

/// The field named `name` of a multipart form: the value of its last
/// occurrence, as a map that each field is inserted into keeps it.
pub open spec fn last_field(fields: Seq<(Seq<char>, Seq<char>)>, name: Seq<char>) -> Option<Seq<char>>
    decreases fields.len(),
{
    if fields.len() == 0 {
        None
    } else if fields.last().0 == name {
        Some(fields.last().1)
    } else {
        last_field(fields.drop_last(), name)
    }
}

/// Law of form fields: the value read for a name is that of its last
/// occurrence, and a name that does not occur reads as missing.
pub proof fn lemma_last_field_is_last(fields: Seq<(Seq<char>, Seq<char>)>, name: Seq<char>, k: int)
    ensures
        0 <= k < fields.len() && fields[k].0 == name
            && (forall|j: int| k < j < fields.len() ==> (#[trigger] fields[j]).0 != name)
            ==> last_field(fields, name) == Some(fields[k].1),
        (forall|j: int| 0 <= j < fields.len() ==> (#[trigger] fields[j]).0 != name) ==> last_field(fields, name) is None,
    decreases fields.len(),
{
    if fields.len() > 0 {
        let rest = fields.drop_last();
        assert(fields.last() == fields[fields.len() - 1]);
        if 0 <= k < fields.len() - 1 && fields[k].0 == name
            && (forall|j: int| k < j < fields.len() ==> (#[trigger] fields[j]).0 != name) {
            assert forall|j: int| k < j < rest.len() implies (#[trigger] rest[j]).0 != name by {
                assert(rest[j] == fields[j]);
            }
            assert(rest[k] == fields[k]);
        }
        if forall|j: int| 0 <= j < fields.len() ==> (#[trigger] fields[j]).0 != name {
            assert forall|j: int| 0 <= j < rest.len() implies (#[trigger] rest[j]).0 != name by {
                assert(rest[j] == fields[j]);
            }
        }
        lemma_last_field_is_last(rest, name, k);
    }
}

/// The view of a list of form fields.
pub open spec fn fields_view(v: Seq<(String, String)>) -> Seq<(Seq<char>, Seq<char>)> {
    v.map_values(|f: (String, String)| (f.0@, f.1@))
}

fn find_last_field(fields: &[(String, String)], name: &str) -> (r: Option<String>)
    ensures
        opt_view(r) == last_field(fields_view(fields@), name@),
{
    let mut i = fields.len();
    let ghost fv = fields_view(fields@);
    assert(fv.take(fv.len() as int) =~= fv);
    while i > 0
        invariant
            i <= fields@.len(),
            fv == fields_view(fields@),
            last_field(fv, name@) == last_field(fv.take(i as int), name@),
        decreases i,
    {
        let ghost t = fv.take(i as int);
        assert(t.drop_last() =~= fv.take(i - 1));
        assert(t.last() == (fields@[i - 1].0@, fields@[i - 1].1@));
        if str_eq(fields[i - 1].0.as_str(), name) {
            let v = fields[i - 1].1.clone();
            return Some(v);
        }
        i = i - 1;
    }
    None
}

/// What the quiz upload form yields: the quiz name and the text of the quiz
/// file, or the error for the first of them that is missing.
pub open spec fn upload_result(fields: Seq<(Seq<char>, Seq<char>)>) -> Result<(Seq<char>, Seq<char>), AppError> {
    match last_field(fields, "quiz_name"@) {
        None => Err(AppError::Input("missing quiz_name field")),
        Some(n) => match last_field(fields, "quiz_file"@) {
            None => Err(AppError::Input("missing quiz_file field")),
            Some(f) => Ok((n, f)),
        },
    }
}

/// Reads the fields of the quiz upload form, in the order they came.
pub fn quiz_upload_fields(fields: &[(String, String)]) -> (r: Result<(String, String), AppError>)
    ensures
        match (r, upload_result(fields_view(fields@))) {
            (Ok((n, f)), Ok((sn, sf))) => n@ == sn && f@ == sf,
            (Err(e), Err(se)) => e == se,
            _ => false,
        },
{
    let name = match find_last_field(fields, "quiz_name") {
        Some(n) => n,
        None => {
            return Err(AppError::Input("missing quiz_name field"));
        },
    };
    let file = match find_last_field(fields, "quiz_file") {
        Some(f) => f,
        None => {
            return Err(AppError::Input("missing quiz_file field"));
        },
    };
    Ok((name, file))
}

/// One row of the options table of an imported quiz.
pub struct OptionRow {
    pub text: String,
    pub is_answer: bool,
    pub explanation: Option<String>,
    pub question_id: i32,
}

/// The view of one option row.
pub open spec fn row_of(text: Seq<char>, is_answer: bool, explanation: Option<Seq<char>>, question_id: i32) -> (Seq<char>, bool, Option<Seq<char>>, i32) {
    (text, is_answer, explanation, question_id)
}

/// The view of an option row.
pub open spec fn option_row_view(r: OptionRow) -> (Seq<char>, bool, Option<Seq<char>>, i32) {
    row_of(r.text@, r.is_answer, opt_view(r.explanation), r.question_id)
}

/// The rows of one question's options, each with the question's id.
pub open spec fn question_option_rows(opts: Seq<QuestionOption>, question_id: i32) -> Seq<(Seq<char>, bool, Option<Seq<char>>, i32)> {
    opts.map_values(|o: QuestionOption| row_of(o.text@, o.is_answer, opt_view(o.explanation), question_id))
}

/// The option rows of an imported quiz: the options of each question in
/// order, paired with the ids of the inserted questions in order; questions
/// beyond the last id are left out, as `zip` leaves them.
pub open spec fn option_rows_of(questions: Seq<Question>, ids: Seq<i32>) -> Seq<(Seq<char>, bool, Option<Seq<char>>, i32)>
    decreases questions.len(),
{
    if questions.len() == 0 || ids.len() == 0 {
        Seq::empty()
    } else {
        question_option_rows(questions[0].options@, ids[0]) + option_rows_of(questions.skip(1), ids.skip(1))
    }
}

/// `Option<String>::clone`.
fn clone_opt(o: &Option<String>) -> (r: Option<String>)
    ensures
        opt_view(r) == opt_view(*o),
{
    match o {
        Some(s) => Some(s.clone()),
        None => None,
    }
}

/// Lemma: the rows of the first `n` questions, extended by the next one.
pub proof fn lemma_option_rows_step(questions: Seq<Question>, ids: Seq<i32>, n: int)
    requires
        0 <= n < questions.len(),
        n < ids.len(),
    ensures
        option_rows_of(questions.take(n + 1), ids.take(n + 1))
            == option_rows_of(questions.take(n), ids.take(n)) + question_option_rows(questions[n].options@, ids[n]),
    decreases n,
{
    let q1 = questions.take(n + 1);
    let i1 = ids.take(n + 1);
    if n == 0 {
        assert(q1.skip(1).len() == 0);
        assert(option_rows_of(q1.skip(1), i1.skip(1)) == Seq::<(Seq<char>, bool, Option<Seq<char>>, i32)>::empty());
        assert(option_rows_of(questions.take(0), ids.take(0)) == Seq::<(Seq<char>, bool, Option<Seq<char>>, i32)>::empty());
        assert(question_option_rows(q1[0].options@, i1[0]) + Seq::<(Seq<char>, bool, Option<Seq<char>>, i32)>::empty()
            =~= question_option_rows(q1[0].options@, i1[0]));
        assert(Seq::<(Seq<char>, bool, Option<Seq<char>>, i32)>::empty() + question_option_rows(questions[0].options@, ids[0])
            =~= question_option_rows(questions[0].options@, ids[0]));
    } else {
        lemma_option_rows_step(questions.skip(1), ids.skip(1), n - 1);
        assert(q1.skip(1) =~= questions.skip(1).take(n));
        assert(i1.skip(1) =~= ids.skip(1).take(n));
        assert(questions.take(n).skip(1) =~= questions.skip(1).take(n - 1));
        assert(ids.take(n).skip(1) =~= ids.skip(1).take(n - 1));
        assert(questions.skip(1)[n - 1] == questions[n]);
        assert(ids.skip(1)[n - 1] == ids[n]);
        let a = question_option_rows(questions[0].options@, ids[0]);
        let b = option_rows_of(questions.skip(1).take(n - 1), ids.skip(1).take(n - 1));
        let c = question_option_rows(questions[n].options@, ids[n]);
        assert(a + (b + c) =~= (a + b) + c);
    }
}

/// Lemma: the rows of all questions are those of the paired prefix.
pub proof fn lemma_option_rows_prefix(questions: Seq<Question>, ids: Seq<i32>)
    ensures
        option_rows_of(questions, ids) == option_rows_of(
            questions.take(if questions.len() < ids.len() { questions.len() as int } else { ids.len() as int }),
            ids.take(if questions.len() < ids.len() { questions.len() as int } else { ids.len() as int }),
        ),
    decreases questions.len(),
{
    let n = if questions.len() < ids.len() { questions.len() as int } else { ids.len() as int };
    if questions.len() == 0 || ids.len() == 0 {
    } else {
        lemma_option_rows_prefix(questions.skip(1), ids.skip(1));
        assert(questions.take(n).skip(1) =~= questions.skip(1).take(n - 1));
        assert(ids.take(n).skip(1) =~= ids.skip(1).take(n - 1));
        assert(questions.take(n)[0] == questions[0]);
        assert(ids.take(n)[0] == ids[0]);
    }
}

/// The rows of the options table for an imported quiz, from its questions
/// and the ids the inserted questions received, in order.
pub fn option_rows(questions: &[Question], question_ids: &[i32]) -> (r: Vec<OptionRow>)
    ensures
        r@.map_values(|x: OptionRow| option_row_view(x)) == option_rows_of(questions@, question_ids@),
        r@.len() == options_before(questions@,
            if questions@.len() < question_ids@.len() { questions@.len() as int } else { question_ids@.len() as int }),
        forall|i: int, j: int| 0 <= i < questions@.len() && i < question_ids@.len() && 0 <= j < questions@[i].options@.len() ==> {
            let row = #[trigger] r@[options_before(questions@, i) + j];
            let o = questions@[i].options@[j];
            row.text@ == o.text@ && row.is_answer == o.is_answer && opt_view(row.explanation) == opt_view(o.explanation)
                && row.question_id == question_ids@[i]
        },
{
    let n = if questions.len() < question_ids.len() { questions.len() } else { question_ids.len() };
    let mut out: Vec<OptionRow> = Vec::new();
    let mut i: usize = 0;
    assert(option_rows_of(questions@.take(0), question_ids@.take(0)) == Seq::<(Seq<char>, bool, Option<Seq<char>>, i32)>::empty());
    while i < n
        invariant
            i <= n,
            n <= questions@.len(),
            n <= question_ids@.len(),
            out@.map_values(|x: OptionRow| option_row_view(x)) == option_rows_of(questions@.take(i as int), question_ids@.take(i as int)),
        decreases n - i,
    {
        let q = &questions[i];
        let id = question_ids[i];
        let ghost before = out@.map_values(|x: OptionRow| option_row_view(x));
        let mut j: usize = 0;
        while j < q.options.len()
            invariant
                j <= q.options@.len(),
                out@.map_values(|x: OptionRow| option_row_view(x)) == before + question_option_rows(q.options@.take(j as int), id),
            decreases q.options@.len() - j,
        {
            let o = &q.options[j];
            let row = OptionRow { text: o.text.clone(), is_answer: o.is_answer, explanation: clone_opt(&o.explanation), question_id: id };
            let ghost prev = out@;
            out.push(row);
            proof {
                assert(out@.map_values(|x: OptionRow| option_row_view(x)) =~= prev.map_values(|x: OptionRow| option_row_view(x)).push(option_row_view(row)));
                assert(question_option_rows(q.options@.take(j + 1), id) =~= question_option_rows(q.options@.take(j as int), id).push(
                    row_of(o.text@, o.is_answer, opt_view(o.explanation), id)));
                assert(before + question_option_rows(q.options@.take(j + 1), id)
                    =~= (before + question_option_rows(q.options@.take(j as int), id)).push(row_of(o.text@, o.is_answer, opt_view(o.explanation), id)));
            }
            j = j + 1;
        }
        proof {
            assert(q.options@.take(q.options@.len() as int) =~= q.options@);
            lemma_option_rows_step(questions@, question_ids@, i as int);
        }
        i = i + 1;
    }
    proof {
        lemma_option_rows_prefix(questions@, question_ids@);
        lemma_option_rows_carry_options(questions@, question_ids@);
        let rows = option_rows_of(questions@, question_ids@);
        assert(out@.map_values(|x: OptionRow| option_row_view(x)).len() == out@.len());
        assert forall|i: int, j: int| 0 <= i < questions@.len() && i < question_ids@.len() && 0 <= j < questions@[i].options@.len() implies {
            let row = #[trigger] out@[options_before(questions@, i) + j];
            let o = questions@[i].options@[j];
            row.text@ == o.text@ && row.is_answer == o.is_answer && opt_view(row.explanation) == opt_view(o.explanation)
                && row.question_id == question_ids@[i]
        } by {
            let k = options_before(questions@, i) + j;
            lemma_options_before_grows(questions@, i,
                if questions@.len() < question_ids@.len() { questions@.len() as int } else { question_ids@.len() as int });
            assert(rows[k] == (questions@[i].options@[j].text@, questions@[i].options@[j].is_answer,
                opt_view(questions@[i].options@[j].explanation), question_ids@[i]));
            assert(out@.map_values(|x: OptionRow| option_row_view(x))[k] == option_row_view(out@[k]));
        }
    }
    out
}

/// How many options the first `n` questions have together.
pub open spec fn options_before(questions: Seq<Question>, n: int) -> int
    decreases n,
{
    if n <= 0 {
        0
    } else {
        options_before(questions, n - 1) + questions[n - 1].options@.len()
    }
}

/// The options of question `i` come after those of every earlier question.
proof fn lemma_options_before_grows(questions: Seq<Question>, i: int, n: int)
    requires
        0 <= i < n <= questions.len(),
    ensures
        0 <= options_before(questions, i),
        options_before(questions, i) + questions[i].options@.len() <= options_before(questions, n),
    decreases n,
{
    if i + 1 < n {
        lemma_options_before_grows(questions, i, n - 1);
    } else if i > 0 {
        lemma_options_before_grows(questions, i - 1, i);
    }
}

/// The rows of the first `n` questions: one for each of their options, in
/// order, each carrying the option's text, answer flag and explanation and
/// the id of its question.
proof fn lemma_option_rows_prefix_shape(questions: Seq<Question>, ids: Seq<i32>, n: int)
    requires
        0 <= n <= questions.len(),
        n <= ids.len(),
    ensures
        option_rows_of(questions.take(n), ids.take(n)).len() == options_before(questions, n),
        forall|i: int, j: int| 0 <= i < n && 0 <= j < questions[i].options@.len() ==>
            option_rows_of(questions.take(n), ids.take(n))[options_before(questions, i) + j] == (
                (#[trigger] questions[i].options@[j]).text@,
                questions[i].options@[j].is_answer,
                opt_view(questions[i].options@[j].explanation),
                ids[i],
            ),
    decreases n,
{
    if n > 0 {
        lemma_option_rows_prefix_shape(questions, ids, n - 1);
        lemma_option_rows_step(questions, ids, n - 1);
        let a = option_rows_of(questions.take(n - 1), ids.take(n - 1));
        let c = question_option_rows(questions[n - 1].options@, ids[n - 1]);
        assert forall|i: int, j: int| 0 <= i < n && 0 <= j < questions[i].options@.len() implies
            option_rows_of(questions.take(n), ids.take(n))[options_before(questions, i) + j] == (
                (#[trigger] questions[i].options@[j]).text@,
                questions[i].options@[j].is_answer,
                opt_view(questions[i].options@[j].explanation),
                ids[i],
            ) by {
            if i < n - 1 {
                lemma_options_before_grows(questions, i, n - 1);
                assert((a + c)[options_before(questions, i) + j] == a[options_before(questions, i) + j]);
            } else {
                if i > 0 {
                    lemma_options_before_grows(questions, i - 1, i);
                }
                assert((a + c)[options_before(questions, i) + j] == c[j]);
            }
        }
    } else {
        assert(questions.take(0).len() == 0);
    }
}

/// Law of importing a quiz: the option rows are, in order, one row for each
/// option of each question that received an id, and the row of option `j` of
/// question `i` carries that option's text, whether it is an answer, its
/// explanation, and the id of question `i`.
pub proof fn lemma_option_rows_carry_options(questions: Seq<Question>, ids: Seq<i32>)
    ensures
        option_rows_of(questions, ids).len()
            == options_before(questions, if questions.len() < ids.len() { questions.len() as int } else { ids.len() as int }),
        forall|i: int, j: int| 0 <= i < questions.len() && i < ids.len() && 0 <= j < questions[i].options@.len() ==>
            options_before(questions, i) + j < option_rows_of(questions, ids).len() &&
            option_rows_of(questions, ids)[options_before(questions, i) + j] == (
                (#[trigger] questions[i].options@[j]).text@,
                questions[i].options@[j].is_answer,
                opt_view(questions[i].options@[j].explanation),
                ids[i],
            ),
{
    let n = if questions.len() < ids.len() { questions.len() as int } else { ids.len() as int };
    lemma_option_rows_prefix(questions, ids);
    lemma_option_rows_prefix_shape(questions, ids, n);
    assert forall|i: int, j: int| #![trigger questions[i].options@[j]]
        0 <= i < questions.len() && i < ids.len() && 0 <= j < questions[i].options@.len() implies
        options_before(questions, i) + j < option_rows_of(questions, ids).len() by {
        lemma_options_before_grows(questions, i, n);
    }
}

/// The characters of a ULID: Crockford's base 32, upper case.
pub open spec fn is_ulid_char(c: char) -> bool {
    ('0' <= c <= '9') || ('A' <= c <= 'Z' && c != 'I' && c != 'L' && c != 'O' && c != 'U')
}

/// Whether text has the shape of a ULID: 26 characters of its alphabet.
pub open spec fn is_ulid_text(s: Seq<char>) -> bool {
    s.len() == 26 && forall|i: int| 0 <= i < s.len() ==> is_ulid_char(#[trigger] s[i])
}

/// `Ulid::new().to_string()` (ulid): a new ULID from the clock and a random
/// source, as 26 characters of Crockford's base-32 alphabet.  Which ULID
/// comes back is not stated.
#[verifier::external_body]
fn new_ulid() -> (r: String)
    ensures
        is_ulid_text(r@),
{
    Ulid::new().to_string()
}

/// A fresh identifier for a session token or a quiz's public id.
pub fn fresh_token() -> (r: String)
    ensures
        is_ulid_text(r@),
{
    new_ulid()
}

/// Which questions a retry session asks again.
#[derive(Debug, Clone, Copy, PartialEq, Eq)]
pub enum RetryKind {
    /// The questions answered wrongly.
    Incorrect,
    /// The questions bookmarked.
    Bookmarked,
}

/// The part between the session's name and the suffix of a retry name.
pub open spec fn retry_infix(kind: RetryKind) -> Seq<char> {
    match kind {
        RetryKind::Incorrect => "-retry-"@,
        RetryKind::Bookmarked => "-bm-"@,
    }
}

/// The selection mode a retry session is stored with.
pub open spec fn retry_mode(kind: RetryKind) -> Seq<char> {
    match kind {
        RetryKind::Incorrect => "incorrect"@,
        RetryKind::Bookmarked => "bookmarked"@,
    }
}

impl RetryKind {
    /// The selection mode of the retry session.
    pub fn mode(&self) -> (r: &'static str)
        ensures
            r@ == retry_mode(*self),
    {
        match self {
            RetryKind::Incorrect => "incorrect",
            RetryKind::Bookmarked => "bookmarked",
        }
    }
}

/// The name of a retry session: the session's name, the infix of the kind,
/// and the first six characters of a ULID in lower case.
pub open spec fn retry_name(base: Seq<char>, ulid: Seq<char>, kind: RetryKind) -> Seq<char> {
    base + retry_infix(kind) + ascii_lower(ulid.take(6))
}

/// Names a retry session after its session, from the text of a ULID.
pub fn retry_session_name(base: &str, ulid: &str, kind: RetryKind) -> (r: String)
    requires
        is_ulid_text(ulid@),
    ensures
        r@ == retry_name(base@, ulid@, kind),
{
    let cs = chars_of(ulid);
    let mut head: Vec<char> = Vec::new();
    let mut i: usize = 0;
    while i < 6
        invariant
            i <= 6,
            cs@ == ulid@,
            cs@.len() == 26,
            head@ == cs@.take(i as int),
        decreases 6 - i,
    {
        head.push(cs[i]);
        assert(cs@.take(i as int).push(cs@[i as int]) =~= cs@.take(i + 1));
        i = i + 1;
    }
    let head_str = string_from_chars(&head);
    let lower = to_ascii_lower(head_str.as_str());
    let mut r = String::from_str(base);
    match kind {
        RetryKind::Incorrect => r.append("-retry-"),
        RetryKind::Bookmarked => r.append("-bm-"),
    }
    r.append(lower.as_str());
    r
}

/// Names a retry session with a fresh ULID.
pub fn new_retry_session_name(base: &str, kind: RetryKind) -> (r: String)
    ensures
        exists|u: Seq<char>| is_ulid_text(u) && r@ == retry_name(base@, u, kind),
{
    let u = new_ulid();
    retry_session_name(base, u.as_str(), kind)
}

/// The questions of a retry session, each once, first occurrences in order;
/// `None` when there is nothing to retry.
pub fn retry_questions(ids: &[i32]) -> (r: Option<(Vec<i32>, i32)>)
    requires
        ids@.len() <= i32::MAX,
    ensures
        ids@.len() == 0 <==> r is None,
        match r {
            Some((v, c)) => v@ == deduplicated(ids@) && c == deduplicated(ids@).len(),
            None => true,
        },
{
    if ids.len() == 0 {
        return None;
    }
    let deduped = dedupe_question_ids(ids);
    proof {
        lemma_deduplicated_laws(ids@);
    }
    let count = deduped.len() as i32;
    Some((deduped, count))
}

/// What a quiz page shows.
#[derive(Debug, Clone, Copy, PartialEq, Eq)]
pub enum QuizPageView {
    /// The current question of the session in the cookie.
    CurrentQuestion,
    /// The start page of the quiz.
    StartPage,
}

/// The session token to look up for a quiz page: the quiz-session cookie,
/// unless it is missing or empty.
pub fn session_token_to_resume(cookie: Option<&str>) -> (r: Option<&str>)
    ensures
        match cookie {
            Some(t) => if t@.len() > 0 { r == Some(t) } else { r is None },
            None => r is None,
        },
{
    match cookie {
        Some(t) => if t.is_empty() { None } else { Some(t) },
        None => None,
    }
}

/// What a quiz page shows once the session of the cookie was looked up: its
/// current question when the session exists and belongs to this quiz, the
/// start page otherwise.
pub fn quiz_page_view(found_session_quiz: Option<i32>, quiz_id: i32) -> (r: QuizPageView)
    ensures
        r == (if found_session_quiz == Some(quiz_id) { QuizPageView::CurrentQuestion } else { QuizPageView::StartPage }),
{
    match found_session_quiz {
        Some(q) => if q == quiz_id { QuizPageView::CurrentQuestion } else { QuizPageView::StartPage },
        None => QuizPageView::StartPage,
    }
}

/// A resumed session greets the user as resuming when questions were
/// already answered.
pub fn is_resuming(question_idx: i32) -> (r: bool)
    ensures
        r == (question_idx > 0),
{
    question_idx > 0
}

} // verus!
