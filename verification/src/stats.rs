//! The numbers of the dashboard and of a session's results.
use vstd::prelude::*;
use vstd::string::*;

use crate::models::{AnswerModel, QuizCategoryOverallStats, QuizOverallStats};
use crate::text::{decimal_int, push_decimal_i64};

verus! {

/// A number of at least two characters: a single digit gets a leading zero,
/// as `{:02}` prints it.
pub open spec fn pad2(n: int) -> Seq<char> {
    if 0 <= n < 10 {
        seq!['0'] + decimal_int(n)
    } else {
        decimal_int(n)
    }
}

/// Study time as `h:mm:ss`, or `m:ss` below an hour, from milliseconds; the
/// parts are those of Rust's integer division, which rounds towards zero.
pub open spec fn study_time_text(ms: int) -> Seq<char> {
    let total = (if ms < 0 { -ms } else { ms }) / 1000;
    let hours = if ms < 0 { -(total / 3600) } else { total / 3600 };
    let minutes = if ms < 0 { -((total % 3600) / 60) } else { (total % 3600) / 60 };
    let seconds = if ms < 0 { -(total % 60) } else { total % 60 };
    if hours > 0 {
        decimal_int(hours) + seq![':'] + pad2(minutes) + seq![':'] + pad2(seconds)
    } else {
        decimal_int(minutes) + seq![':'] + pad2(seconds)
    }
}

fn push_pad2(out: &mut String, n: i64)
    ensures
        final(out)@ == old(out)@ + pad2(n as int),
{
    if 0 <= n && n < 10 {
        out.append("0");
        proof {
            reveal_strlit("0");
        }
        let ghost mid = out@;
        push_decimal_i64(out, n);
        assert(old(out)@ + pad2(n as int) =~= mid + decimal_int(n as int));
    } else {
        push_decimal_i64(out, n);
    }
}

/// Formats a study time given in milliseconds.
pub fn format_study_time(ms: i64) -> (r: String)
    ensures
        r@ == study_time_text(ms as int),
{
    let a: u64 = if ms < 0 {
        if ms == i64::MIN { 9223372036854775808u64 } else { (-ms) as u64 }
    } else {
        ms as u64
    };
    let total = a / 1000;
    let h = total / 3600;
    let m = (total % 3600) / 60;
    let s = total % 60;
    let neg = ms < 0;
    let hours: i64 = if neg { -(h as i64) } else { h as i64 };
    let minutes: i64 = if neg { -(m as i64) } else { m as i64 };
    let seconds: i64 = if neg { -(s as i64) } else { s as i64 };
    assert(a as int == (if ms < 0 { -(ms as int) } else { ms as int }));
    let mut out = String::new();
    if hours > 0 {
        push_decimal_i64(&mut out, hours);
        out.append(":");
        proof {
            reveal_strlit(":");
        }
        push_pad2(&mut out, minutes);
        out.append(":");
        push_pad2(&mut out, seconds);
        assert(out@ =~= decimal_int(hours as int) + seq![':'] + pad2(minutes as int) + seq![':'] + pad2(seconds as int));
    } else {
        push_decimal_i64(&mut out, minutes);
        out.append(":");
        proof {
            reveal_strlit(":");
        }
        push_pad2(&mut out, seconds);
        assert(out@ =~= decimal_int(minutes as int) + seq![':'] + pad2(seconds as int));
    }
    out
}

/// Questions of the quiz never asked yet.
pub open spec fn remaining_of(o: QuizOverallStats) -> int {
    o.total_questions - o.unique_asked
}

/// The time a question takes on average, in milliseconds: the study time
/// over the questions asked, or half a minute before there is any.
pub open spec fn average_ms(o: QuizOverallStats, study_time_ms: int) -> int {
    if o.unique_asked > 0 && study_time_ms > 0 {
        study_time_ms / (o.unique_asked as int)
    } else {
        30_000
    }
}

/// The estimate of the time left: the average time of a question for each
/// question never asked; nothing when all were asked.
pub open spec fn remaining_estimate(o: QuizOverallStats, study_time_ms: int) -> Option<int> {
    if remaining_of(o) > 0 {
        Some(average_ms(o, study_time_ms) * remaining_of(o))
    } else {
        None
    }
}

impl QuizOverallStats {
    /// Questions of the quiz never asked yet.
    pub fn remaining_questions(&self) -> (r: i64)
        requires
            i64::MIN <= remaining_of(*self) <= i64::MAX,
        ensures
            r == remaining_of(*self),
    {
        self.total_questions - self.unique_asked
    }

    /// Answers given wrongly.
    pub fn total_incorrect(&self) -> (r: i64)
        requires
            i64::MIN <= self.total_answered - self.total_correct <= i64::MAX,
        ensures
            r == self.total_answered - self.total_correct,
    {
        self.total_answered - self.total_correct
    }

    /// Whether the estimate of the time left can be computed in 64 bits:
    /// the remaining questions and, when there are any, the estimate fit.
    pub fn estimate_fits(&self, study_time_ms: i64) -> (r: bool)
        ensures
            r == (i64::MIN <= remaining_of(*self) <= i64::MAX
                && (remaining_of(*self) > 0 ==> i64::MIN <= average_ms(*self, study_time_ms as int) * remaining_of(*self) <= i64::MAX)),
    {
        let remaining = match self.total_questions.checked_sub(self.unique_asked) {
            Some(v) => v,
            None => return false,
        };
        if remaining <= 0 {
            return true;
        }
        let avg: i64 = if self.unique_asked > 0 && study_time_ms > 0 {
            study_time_ms / self.unique_asked
        } else {
            30_000
        };
        avg.checked_mul(remaining).is_some()
    }

    /// The estimated time to ask every remaining question, in milliseconds;
    /// `None` when every question was asked.
    pub fn estimated_remaining_ms(&self, study_time_ms: i64) -> (r: Option<i64>)
        requires
            i64::MIN <= remaining_of(*self) <= i64::MAX,
            remaining_of(*self) > 0 ==> i64::MIN <= average_ms(*self, study_time_ms as int) * remaining_of(*self) <= i64::MAX,
        ensures
            match (r, remaining_estimate(*self, study_time_ms as int)) {
                (Some(v), Some(e)) => v == e,
                (None, None) => true,
                _ => false,
            },
    {
        let remaining = self.total_questions - self.unique_asked;
        if remaining <= 0 {
            return None;
        }
        let avg: i64 = if self.unique_asked > 0 && study_time_ms > 0 {
            study_time_ms / self.unique_asked
        } else {
            30_000
        };
        Some(avg * remaining)
    }
}

/// The names of the categories with at least one answer, in order: the
/// axes of the radar chart.
pub open spec fn answered_category_names(cats: Seq<QuizCategoryOverallStats>) -> Seq<Seq<char>>
    decreases cats.len(),
{
    if cats.len() == 0 {
        Seq::empty()
    } else {
        let rest = answered_category_names(cats.drop_last());
        if cats.last().total_answered > 0 {
            rest.push(cats.last().category@)
        } else {
            rest
        }
    }
}

/// The categories with at least one answer.
pub fn answered_categories(cats: &[QuizCategoryOverallStats]) -> (r: Vec<String>)
    ensures
        r@.map_values(|s: String| s@) == answered_category_names(cats@),
{
    let mut out: Vec<String> = Vec::new();
    let mut i: usize = 0;
    while i < cats.len()
        invariant
            i <= cats@.len(),
            out@.map_values(|s: String| s@) == answered_category_names(cats@.take(i as int)),
        decreases cats@.len() - i,
    {
        assert(cats@.take(i + 1).drop_last() =~= cats@.take(i as int));
        assert(cats@.take(i + 1).last() == cats@[i as int]);
        if cats[i].total_answered > 0 {
            let ghost prev = out@;
            out.push(cats[i].category.clone());
            assert(out@.map_values(|s: String| s@) =~= prev.map_values(|s: String| s@).push(cats@[i as int].category@));
        }
        i = i + 1;
    }
    assert(cats@.take(cats@.len() as int) =~= cats@);
    out
}

/// Whether any category has an answer.
pub fn has_answered_category(cats: &[QuizCategoryOverallStats]) -> (r: bool)
    ensures
        r == exists|i: int| 0 <= i < cats@.len() && #[trigger] cats@[i].total_answered > 0,
{
    let mut i: usize = 0;
    while i < cats.len()
        invariant
            i <= cats@.len(),
            forall|j: int| 0 <= j < i ==> !(#[trigger] cats@[j].total_answered > 0),
        decreases cats@.len() - i,
    {
        if cats[i].total_answered > 0 {
            return true;
        }
        i = i + 1;
    }
    false
}

/// How many answers satisfy `wrong` (wrongly answered) or, else, are bookmarked.
pub open spec fn count_answers(answers: Seq<AnswerModel>, wrong: bool) -> nat
    decreases answers.len(),
{
    if answers.len() == 0 {
        0
    } else {
        let rest = count_answers(answers.drop_last(), wrong);
        let hit = if wrong { !answers.last().is_correct } else { answers.last().is_bookmarked };
        if hit { rest + 1 } else { rest }
    }
}

fn count_matching(answers: &[AnswerModel], wrong: bool) -> (r: usize)
    ensures
        r == count_answers(answers@, wrong),
{
    let mut n: usize = 0;
    let mut i: usize = 0;
    while i < answers.len()
        invariant
            i <= answers@.len(),
            n == count_answers(answers@.take(i as int), wrong),
            n <= i,
        decreases answers@.len() - i,
    {
        assert(answers@.take(i + 1).drop_last() =~= answers@.take(i as int));
        assert(answers@.take(i + 1).last() == answers@[i as int]);
        let hit = if wrong { !answers[i].is_correct } else { answers[i].is_bookmarked };
        if hit {
            n = n + 1;
        }
        i = i + 1;
    }
    assert(answers@.take(answers@.len() as int) =~= answers@);
    n
}

/// The answers of a session given wrongly.
pub fn incorrect_count(answers: &[AnswerModel]) -> (r: usize)
    ensures
        r == count_answers(answers@, true),
        r == answers@.filter(|a: AnswerModel| !a.is_correct).len(),
{
    proof {
        lemma_answer_counts(answers@);
    }
    count_matching(answers, true)
}

/// The questions of a session bookmarked.
pub fn bookmarked_count(answers: &[AnswerModel]) -> (r: usize)
    ensures
        r == count_answers(answers@, false),
        r == answers@.filter(|a: AnswerModel| a.is_bookmarked).len(),
{
    proof {
        lemma_answer_counts(answers@);
    }
    count_matching(answers, false)
}

/// Law of the time-left estimate: there is one exactly when some question
/// was never asked; before any study time (or any question asked) each
/// remaining question counts half a minute; otherwise each counts the study
/// time shared over the questions asked, so more study time never lowers it.
pub proof fn lemma_remaining_estimate_laws(o: QuizOverallStats, study_time_ms: int, more_ms: int)
    ensures
        remaining_estimate(o, study_time_ms) is None <==> o.total_questions <= o.unique_asked,
        o.total_questions > o.unique_asked && (study_time_ms <= 0 || o.unique_asked <= 0)
            ==> remaining_estimate(o, study_time_ms) == Some(30_000 * (o.total_questions - o.unique_asked)),
        o.total_questions > o.unique_asked && study_time_ms > 0 && o.unique_asked > 0
            ==> remaining_estimate(o, study_time_ms) == Some((study_time_ms / (o.unique_asked as int)) * (o.total_questions - o.unique_asked)),
        o.total_questions > o.unique_asked && o.unique_asked > 0 && 0 < study_time_ms <= more_ms
            ==> remaining_estimate(o, study_time_ms)->0 <= remaining_estimate(o, more_ms)->0,
{
    if o.total_questions > o.unique_asked && o.unique_asked > 0 && 0 < study_time_ms <= more_ms {
        let u = o.unique_asked as int;
        let r = o.total_questions - o.unique_asked;
        assert(study_time_ms / u <= more_ms / u) by (nonlinear_arith)
            requires 0 < study_time_ms <= more_ms, u > 0;
        assert((study_time_ms / u) * r <= (more_ms / u) * r) by (nonlinear_arith)
            requires study_time_ms / u <= more_ms / u, r > 0;
    }
}

/// Law of the session counts: the incorrect count is the number of answers
/// not given correctly, and the bookmarked count the number of answers
/// bookmarked; a session with no answers has neither.
pub proof fn lemma_answer_counts(answers: Seq<AnswerModel>)
    ensures
        count_answers(answers, true) == answers.filter(|a: AnswerModel| !a.is_correct).len(),
        count_answers(answers, false) == answers.filter(|a: AnswerModel| a.is_bookmarked).len(),
        answers.len() == 0 ==> count_answers(answers, true) == 0 && count_answers(answers, false) == 0,
    decreases answers.len(),
{
    reveal_with_fuel(Seq::<_>::filter, 1);
    if answers.len() > 0 {
        lemma_answer_counts(answers.drop_last());
    }
}

/// A session is complete once as many questions were answered as it holds.
pub fn is_session_complete(answered: i32, questions_count: i32) -> (r: bool)
    ensures
        r == (answered >= questions_count),
{
    answered >= questions_count
}

} // verus!
