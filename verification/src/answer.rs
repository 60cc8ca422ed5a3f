//! Reading a submitted answer and grading it.
//!
//! An answer arrives as a form body `key=value&key=value...`.  The value of
//! every pair is percent-decoded; the pair `option=<id>` names the one option
//! of a single-choice question and each `options=<id>` one option of a
//! multiple-choice question.
use vstd::prelude::*;
use vstd::multiset::Multiset;

use crate::error::AppError;
use crate::selection::contains_id;
use crate::text::{
    decimal_digits, decimal_int, digit_char, chars_of, chars_range, find_char_from, first_index_of, lemma_first_index_of, pieces_view,
    split_by, split_chars, string_from_chars,
};

verus! {

broadcast use vstd::seq_lib::group_seq_properties, vstd::seq_lib::group_to_multiset_ensures;

/// `str::split_once('=')`: the text before and after the first `=`.
pub open spec fn split_once_eq(s: Seq<char>) -> Option<(Seq<char>, Seq<char>)> {
    let i = first_index_of(s, '=');
    if i >= s.len() {
        None
    } else {
        Some((s.take(i), s.skip(i + 1)))
    }
}

/// The `key=value` pairs of a form body, in order; pieces without `=` are skipped.
pub open spec fn form_pairs_of(pieces: Seq<Seq<char>>) -> Seq<(Seq<char>, Seq<char>)>
    decreases pieces.len(),
{
    if pieces.len() == 0 {
        Seq::empty()
    } else {
        let rest = form_pairs_of(pieces.drop_last());
        match split_once_eq(pieces.last()) {
            Some(kv) => rest.push(kv),
            None => rest,
        }
    }
}

/// The `key=value` pairs of a form body.
pub open spec fn form_pairs(body: Seq<char>) -> Seq<(Seq<char>, Seq<char>)> {
    form_pairs_of(split_by(body, '&'))
}

/// One `key=value` pair of a form body, value not yet decoded.
pub struct FormPair {
    pub key: String,
    pub value: String,
}

/// The view of a list of form pairs.
pub open spec fn form_pairs_view(v: Seq<FormPair>) -> Seq<(Seq<char>, Seq<char>)> {
    v.map_values(|p: FormPair| (p.key@, p.value@))
}

/// The `key=value` pairs of a form body, split at `&` and at the first `=`
/// of each piece; pieces without `=` are skipped.  Nothing is decoded.
pub fn split_form_pairs(body: &str) -> (r: Vec<FormPair>)
    ensures
        form_pairs_view(r@) == form_pairs(body@),
{
    let cs = chars_of(body);
    let pieces = split_chars(&cs, '&');
    let mut out: Vec<FormPair> = Vec::new();
    let mut i: usize = 0;
    while i < pieces.len()
        invariant
            i <= pieces@.len(),
            pieces_view(pieces@) == split_by(body@, '&'),
            form_pairs_view(out@) == form_pairs_of(pieces_view(pieces@).take(i as int)),
        decreases pieces@.len() - i,
    {
        let p = &pieces[i];
        let k = find_char_from(p.as_slice(), 0, '=');
        proof {
            assert(p@.skip(0) =~= p@);
            lemma_first_index_of(p@, '=');
            assert(pieces_view(pieces@).take(i + 1).drop_last() =~= pieces_view(pieces@).take(i as int));
            assert(pieces_view(pieces@).take(i + 1).last() == p@);
        }
        if k < p.len() {
            let key = chars_range(p.as_slice(), 0, k);
            let value = chars_range(p.as_slice(), k + 1, p.len());
            let pair = FormPair { key: string_from_chars(&key), value: string_from_chars(&value) };
            let ghost old_out = out@;
            out.push(pair);
            proof {
                assert(key@ =~= p@.take(k as int));
                assert(value@ =~= p@.skip(k + 1));
                assert(form_pairs_view(out@) =~= form_pairs_view(old_out).push((p@.take(k as int), p@.skip(k + 1))));
            }
        }
        i = i + 1;
    }
    proof {
        assert(pieces_view(pieces@).take(pieces@.len() as int) =~= pieces_view(pieces@));
    }
    out
}

/// What `urlencoding::decode` returns for a string: the percent-decoded text,
/// or nothing when the decoded bytes are not UTF-8.
pub uninterp spec fn url_decoded(data: Seq<char>) -> Option<Seq<char>>;

/// `urlencoding::decode` (owned): percent-decodes `%xx` escapes, keeps `+`
/// and malformed escapes literally, and fails when the decoded bytes are not
/// valid UTF-8.  Stated: the result is `url_decoded` of the input, and a
/// string without `%` comes back unchanged.
#[verifier::external_body]
fn url_decode(data: &str) -> (r: Option<String>)
    ensures
        match r {
            Some(d) => url_decoded(data@) == Some(d@),
            None => url_decoded(data@) is None,
        },
        !data@.contains('%') ==> (r is Some && r->0@ == data@),
{
    match urlencoding::decode(data) {
        Ok(d) => Some(d.into_owned()),
        Err(_) => None,
    }
}

/// The fields of a submitted answer.
pub struct SubmitAnswerBody {
    /// The chosen option of a single-choice question (the last `option` pair).
    pub option: Option<String>,
    /// The chosen options of a multiple-choice question, in order.
    pub options: Vec<String>,
}

/// The name `option`.
pub open spec fn key_option() -> Seq<char> {
    seq!['o', 'p', 't', 'i', 'o', 'n']
}

/// The name `options`.
pub open spec fn key_options() -> Seq<char> {
    seq!['o', 'p', 't', 'i', 'o', 'n', 's']
}

/// The answer fields gathered from pairs whose values are already decoded
/// (`None` marks a value that failed to decode): `None` as a whole when any
/// value failed, else the last `option` and all `options` in order.
pub open spec fn answer_fields(pairs: Seq<(Seq<char>, Option<Seq<char>>)>) -> Option<(Option<Seq<char>>, Seq<Seq<char>>)>
    decreases pairs.len(),
{
    if pairs.len() == 0 {
        Some((None, Seq::empty()))
    } else {
        match answer_fields(pairs.drop_last()) {
            None => None,
            Some(acc) => {
                let (key, value) = pairs.last();
                match value {
                    None => None,
                    Some(v) => if key == key_option() {
                        Some((Some(v), acc.1))
                    } else if key == key_options() {
                        Some((acc.0, acc.1.push(v)))
                    } else {
                        Some(acc)
                    },
                }
            },
        }
    }
}

/// One pair with its decoded value (`None` when decoding failed).
pub struct DecodedPair {
    pub key: String,
    pub value: Option<String>,
}

/// The view of a list of decoded pairs.
pub open spec fn decoded_view(v: Seq<DecodedPair>) -> Seq<(Seq<char>, Option<Seq<char>>)> {
    v.map_values(|p: DecodedPair| (p.key@, match p.value { Some(s) => Some(s@), None => None }))
}

/// The view of an answer body.
pub open spec fn body_view(b: SubmitAnswerBody) -> (Option<Seq<char>>, Seq<Seq<char>>) {
    (match b.option { Some(s) => Some(s@), None => None }, b.options@.map_values(|s: String| s@))
}

/// The error of a value that could not be decoded.
pub open spec fn decode_error() -> AppError {
    AppError::Input("failed to decode URL value")
}

/// Gathers the answer fields from decoded pairs.
pub fn collect_answer_fields(pairs: Vec<DecodedPair>) -> (r: Result<SubmitAnswerBody, AppError>)
    ensures
        match answer_fields(decoded_view(pairs@)) {
            None => r == Err::<SubmitAnswerBody, AppError>(decode_error()),
            Some(f) => r is Ok && body_view(r->Ok_0) == f,
        },
{
    let mut option: Option<String> = None;
    let mut options: Vec<String> = Vec::new();
    let mut i: usize = 0;
    let ghost pv = decoded_view(pairs@);
    let kc = chars_of("option");
    let ksc = chars_of("options");
    proof {
        reveal_strlit("option");
        reveal_strlit("options");
        assert(kc@ =~= key_option());
        assert(ksc@ =~= key_options());
    }
    while i < pairs.len()
        invariant
            i <= pairs@.len(),
            pv == decoded_view(pairs@),
            kc@ == key_option(),
            ksc@ == key_options(),
            answer_fields(pv.take(i as int)) == Some(body_view(SubmitAnswerBody { option, options })),
        decreases pairs@.len() - i,
    {
        let p = &pairs[i];
        proof {
            assert(pv.take(i + 1).drop_last() =~= pv.take(i as int));
            assert(pv.take(i + 1).last() == pv[i as int]);
        }
        match &p.value {
            None => {
                proof {
                    lemma_answer_fields_stuck(pv, i as int);
                }
                return Err(AppError::Input("failed to decode URL value"));
            },
            Some(v) => {
                let key = chars_of(p.key.as_str());
                if crate::text::chars_eq(&key, &kc) {
                    option = Some(v.clone());
                } else if crate::text::chars_eq(&key, &ksc) {
                    let ghost before = options@;
                    options.push(v.clone());
                    assert(options@.map_values(|s: String| s@) =~= before.map_values(|s: String| s@).push(v@));
                }
            },
        }
        i = i + 1;
    }
    assert(pv.take(pairs@.len() as int) =~= pv);
    Ok(SubmitAnswerBody { option, options })
}

/// Lemma: once a value fails to decode, the whole gathering fails.
pub proof fn lemma_answer_fields_stuck(pv: Seq<(Seq<char>, Option<Seq<char>>)>, i: int)
    requires
        0 <= i < pv.len(),
        pv[i].1 is None,
    ensures
        answer_fields(pv) is None,
{
    lemma_answer_fields_none_prefix(pv, i + 1);
}

/// Lemma: a failing prefix makes every longer prefix fail.
pub proof fn lemma_answer_fields_none_prefix(pv: Seq<(Seq<char>, Option<Seq<char>>)>, n: int)
    requires
        0 < n <= pv.len(),
        pv[n - 1].1 is None,
    ensures
        answer_fields(pv) is None,
    decreases pv.len() - n,
{
    if n == pv.len() {
        assert(pv.drop_last().len() == n - 1);
        assert(pv.last() == pv[n - 1]);
    } else {
        let shorter = pv.drop_last();
        assert(shorter[n - 1] == pv[n - 1]);
        lemma_answer_fields_none_prefix(shorter, n);
    }
}

/// The answer fields of a form body: the pairs of the body, each value
/// decoded with `urlencoding::decode`.
pub open spec fn decoded_pairs(pairs: Seq<(Seq<char>, Seq<char>)>) -> Seq<(Seq<char>, Option<Seq<char>>)> {
    pairs.map_values(|p: (Seq<char>, Seq<char>)| (p.0, url_decoded(p.1)))
}

/// Reads a submitted answer body.  Fails with an input error when a value
/// cannot be percent-decoded.
pub fn parse_answer_body(body: &str) -> (r: Result<SubmitAnswerBody, AppError>)
    ensures
        match answer_fields(decoded_pairs(form_pairs(body@))) {
            None => r == Err::<SubmitAnswerBody, AppError>(decode_error()),
            Some(f) => r is Ok && body_view(r->Ok_0) == f,
        },
{
    let pairs = split_form_pairs(body);
    let mut decoded: Vec<DecodedPair> = Vec::new();
    let mut i: usize = 0;
    while i < pairs.len()
        invariant
            i <= pairs@.len(),
            decoded_view(decoded@) == decoded_pairs(form_pairs_view(pairs@)).take(i as int),
        decreases pairs@.len() - i,
    {
        let p = &pairs[i];
        let v = url_decode(p.value.as_str());
        let ghost before = decoded@;
        decoded.push(DecodedPair { key: p.key.clone(), value: v });
        proof {
            assert(decoded_view(decoded@) =~= decoded_view(before).push(decoded_pairs(form_pairs_view(pairs@))[i as int]));
            assert(decoded_pairs(form_pairs_view(pairs@)).take(i + 1) =~= decoded_pairs(form_pairs_view(pairs@)).take(i as int).push(decoded_pairs(form_pairs_view(pairs@))[i as int]));
        }
        i = i + 1;
    }
    proof {
        assert(decoded_pairs(form_pairs_view(pairs@)).take(pairs@.len() as int) =~= decoded_pairs(form_pairs_view(pairs@)));
    }
    collect_answer_fields(decoded)
}

/// Whether `c` is an ASCII decimal digit.
pub open spec fn is_digit(c: char) -> bool {
    '0' <= c && c <= '9'
}

/// The value of a string of decimal digits.
pub open spec fn digits_value(s: Seq<char>) -> int
    decreases s.len(),
{
    if s.len() == 0 {
        0
    } else {
        digits_value(s.drop_last()) * 10 + (s.last() as int - 48)
    }
}

/// Length of the sign that may open a number: 1 for `+` or `-`, else 0.
pub open spec fn sign_len(s: Seq<char>) -> int {
    if s.len() > 0 && (s[0] == '-' || s[0] == '+') {
        1
    } else {
        0
    }
}

/// Whether every character is a decimal digit.
pub open spec fn all_digits(b: Seq<char>) -> bool {
    forall|i: int| 0 <= i < b.len() ==> is_digit(#[trigger] b[i])
}

/// What `str::parse::<i32>()` accepts: an optional `+` or `-`, then one or
/// more decimal digits, with a value in the range of `i32`.
pub open spec fn parsed_i32(s: Seq<char>) -> Option<i32> {
    let body = s.skip(sign_len(s));
    let v = if s.len() > 0 && s[0] == '-' { -digits_value(body) } else { digits_value(body) };
    if body.len() > 0 && all_digits(body) && i32::MIN <= v <= i32::MAX {
        Some(v as i32)
    } else {
        None
    }
}

/// Lemma: the decimal digits of a natural number are digits, at least one,
/// and read back as the number.
pub proof fn lemma_decimal_digits_read_back(n: nat)
    ensures
        decimal_digits(n).len() > 0,
        all_digits(decimal_digits(n)),
        digits_value(decimal_digits(n)) == n,
    decreases n,
{
    let d = decimal_digits(n);
    if n < 10 {
        assert(d[0] == digit_char(n as int));
        assert(d.drop_last() =~= Seq::<char>::empty());
        assert(digit_char(n as int) as int == 48 + n);
        assert(digits_value(d) == digits_value(d.drop_last()) * 10 + (d.last() as int - 48));
    } else {
        lemma_decimal_digits_read_back(n / 10);
        let h = decimal_digits(n / 10);
        assert(d.drop_last() =~= h);
        assert(d.last() == digit_char((n % 10) as int));
        assert forall|i: int| 0 <= i < d.len() implies is_digit(#[trigger] d[i]) by {
            if i < h.len() {
                assert(d[i] == h[i]);
            }
        }
        assert(digit_char((n % 10) as int) as int == 48 + n % 10);
        assert((n / 10) * 10 + n % 10 == n) by (nonlinear_arith);
        assert(digits_value(d) == digits_value(h) * 10 + (d.last() as int - 48));
    }
}

/// Law of numbers in URLs: the decimal text of every `i32` (as `to_string`
/// writes it into a link) parses back to the same `i32`.
pub proof fn lemma_decimal_round_trip(n: i32)
    ensures
        parsed_i32(decimal_int(n as int)) == Some(n),
{
    if n < 0 {
        let m = (-(n as int)) as nat;
        lemma_decimal_digits_read_back(m);
        let s = decimal_int(n as int);
        assert(s.skip(1) =~= decimal_digits(m));
    } else {
        lemma_decimal_digits_read_back(n as nat);
        let s = decimal_int(n as int);
        assert(is_digit(s[0]));
        assert(s.skip(0) =~= s);
    }
}

/// Lemma: appending digits never lowers the value.
pub proof fn lemma_digits_value_grows(s: Seq<char>, n: int)
    requires
        0 <= n <= s.len(),
        forall|i: int| 0 <= i < s.len() ==> is_digit(#[trigger] s[i]),
    ensures
        0 <= digits_value(s.take(n)) <= digits_value(s),
    decreases s.len() - n,
{
    if n < s.len() {
        assert(s.take(n + 1).drop_last() =~= s.take(n));
        assert(s.take(n + 1).last() == s[n]);
        assert(is_digit(s[n]));
        lemma_digits_value_grows(s, n + 1);
    } else {
        assert(s.take(n) =~= s);
        lemma_digits_value_nonneg(s);
    }
}

/// Lemma: a digit string has a non-negative value.
pub proof fn lemma_digits_value_nonneg(s: Seq<char>)
    requires
        forall|i: int| 0 <= i < s.len() ==> is_digit(#[trigger] s[i]),
    ensures
        digits_value(s) >= 0,
    decreases s.len(),
{
    if s.len() > 0 {
        assert(is_digit(s[s.len() - 1]));
        assert forall|i: int| 0 <= i < s.drop_last().len() implies is_digit(#[trigger] s.drop_last()[i]) by {
            assert(s.drop_last()[i] == s[i]);
        }
        lemma_digits_value_nonneg(s.drop_last());
    }
}

/// The value of the digits `cs[start..]` when they are all digits and the
/// value is at most 2^31; `None` otherwise.
fn small_digits_value(cs: &[char], start: usize) -> (r: Option<i64>)
    requires
        start <= cs@.len(),
    ensures
        match r {
            Some(v) => all_digits(cs@.skip(start as int)) && v == digits_value(cs@.skip(start as int)) && 0 <= v <= 2147483648,
            None => !all_digits(cs@.skip(start as int)) || digits_value(cs@.skip(start as int)) > 2147483648,
        },
{
    let ghost body = cs@.skip(start as int);
    let n = cs.len();
    let mut acc: i64 = 0;
    let mut i: usize = start;
    while i < n
        invariant
            start <= i <= n,
            n == cs@.len(),
            body == cs@.skip(start as int),
            all_digits(body.take(i - start)),
            acc == digits_value(body.take(i - start)),
            0 <= acc <= 2147483648,
        decreases n - i,
    {
        let c = cs[i];
        assert(body[i - start] == c);
        if !('0' <= c && c <= '9') {
            assert(!is_digit(body[i - start]));
            return None;
        }
        let d = (c as u32 - 48) as i64;
        assert(body.take(i - start + 1).drop_last() =~= body.take(i - start));
        assert(body.take(i - start + 1).last() == c);
        assert forall|j: int| 0 <= j < i - start + 1 implies is_digit(#[trigger] body.take(i - start + 1)[j]) by {
            if j < i - start {
                assert(body.take(i - start + 1)[j] == body.take(i - start)[j]);
            }
        }
        let next = acc * 10 + d;
        if next > 2147483648 {
            proof {
                if all_digits(body) {
                    lemma_digits_value_grows(body, i - start + 1);
                }
            }
            return None;
        }
        acc = next;
        i = i + 1;
    }
    assert(body.take(n - start) =~= body);
    Some(acc)
}

/// Parses a decimal `i32` as `str::parse::<i32>()` does.
pub fn parse_i32(s: &str) -> (r: Option<i32>)
    ensures
        r == parsed_i32(s@),
{
    let cs = chars_of(s);
    let n = cs.len();
    let neg = n > 0 && cs[0] == '-';
    let start: usize = if n > 0 && (cs[0] == '-' || cs[0] == '+') { 1 } else { 0 };
    assert(start == sign_len(s@));
    if start >= n {
        return None;
    }
    match small_digits_value(&cs, start) {
        None => None,
        Some(v) => {
            if neg {
                Some((-v) as i32)
            } else if v > 2147483647 {
                None
            } else {
                Some(v as i32)
            }
        },
    }
}

/// The option ids named by an answer: every `options` value that parses as an
/// `i32` (others are skipped) when there is any `options` value, and at
/// least one of them must parse; else the one `option` value, which must
/// parse.
pub open spec fn selected_ids_of(option: Option<Seq<char>>, options: Seq<Seq<char>>) -> Result<Seq<i32>, AppError> {
    if options.len() > 0 {
        if parsed_ids(options).len() > 0 {
            Ok(parsed_ids(options))
        } else {
            Err(AppError::Input("failed to parse option id"))
        }
    } else {
        match option {
            Some(o) => match parsed_i32(o) {
                Some(v) => Ok(seq![v]),
                None => Err(AppError::Input("failed to parse option id")),
            },
            None => Err(AppError::Input("no options provided")),
        }
    }
}

/// The values of `options` that parse as `i32`, in order.
pub open spec fn parsed_ids(options: Seq<Seq<char>>) -> Seq<i32>
    decreases options.len(),
{
    if options.len() == 0 {
        Seq::empty()
    } else {
        let rest = parsed_ids(options.drop_last());
        match parsed_i32(options.last()) {
            Some(v) => rest.push(v),
            None => rest,
        }
    }
}

/// The option ids named by a submitted answer.
pub fn selected_option_ids(body: &SubmitAnswerBody) -> (r: Result<Vec<i32>, AppError>)
    ensures
        match r {
            Ok(v) => selected_ids_of(body_view(*body).0, body_view(*body).1) == Ok::<Seq<i32>, AppError>(v@),
            Err(e) => selected_ids_of(body_view(*body).0, body_view(*body).1) == Err::<Seq<i32>, AppError>(e),
        },
        r is Ok ==> r->Ok_0@.len() > 0,
{
    let ghost ov = body_view(*body).1;
    if body.options.len() > 0 {
        let mut out: Vec<i32> = Vec::new();
        let mut i: usize = 0;
        while i < body.options.len()
            invariant
                i <= body.options@.len(),
                ov == body.options@.map_values(|s: String| s@),
                out@ == parsed_ids(ov.take(i as int)),
            decreases body.options@.len() - i,
        {
            proof {
                assert(ov.take(i + 1).drop_last() =~= ov.take(i as int));
                assert(ov.take(i + 1).last() == body.options@[i as int]@);
            }
            match parse_i32(body.options[i].as_str()) {
                Some(v) => out.push(v),
                None => {},
            }
            i = i + 1;
        }
        assert(ov.take(body.options@.len() as int) =~= ov);
        if out.len() == 0 {
            return Err(AppError::Input("failed to parse option id"));
        }
        Ok(out)
    } else {
        match &body.option {
            Some(o) => match parse_i32(o.as_str()) {
                Some(v) => {
                    let out = vec![v];
                    assert(out@ =~= seq![v]);
                    Ok(out)
                },
                None => Err(AppError::Input("failed to parse option id")),
            },
            None => Err(AppError::Input("no options provided")),
        }
    }
}

/// Whether an answer is right: for a multiple-choice question the chosen
/// options are exactly the correct ones (order does not matter, repetitions
/// count); for a single-choice question the first chosen option is correct.
pub open spec fn answer_is_correct(is_multiple_choice: bool, selected: Seq<i32>, correct: Seq<i32>) -> bool {
    if is_multiple_choice {
        selected.to_multiset() == correct.to_multiset()
    } else {
        correct.contains(selected[0])
    }
}

/// Whether the chosen options are the correct ones, counted with repetition.
pub fn same_ids(selected: &[i32], correct: &[i32]) -> (r: bool)
    ensures
        r == (selected@.to_multiset() == correct@.to_multiset()),
{
    let mut rest: Vec<i32> = vstd::slice::slice_to_vec(correct);
    let mut i: usize = 0;
    proof {
        selected@.take(0).to_multiset_ensures();
        assert(selected@.take(0).to_multiset() =~= Multiset::empty());
        assert(Multiset::<i32>::empty().add(rest@.to_multiset()) =~= rest@.to_multiset());
    }
    while i < selected.len()
        invariant
            i <= selected@.len(),
            selected@.take(i as int).to_multiset().add(rest@.to_multiset()) == correct@.to_multiset(),
        decreases selected@.len() - i,
    {
        let x = selected[i];
        let mut k: usize = 0;
        while k < rest.len() && rest[k] != x
            invariant
                k <= rest@.len(),
                forall|j: int| 0 <= j < k ==> rest@[j] != x,
            decreases rest@.len() - k,
        {
            k = k + 1;
        }
        proof {
            assert(selected@.take(i + 1) =~= selected@.take(i as int).push(x));
        }
        if k == rest.len() {
            proof {
                rest@.to_multiset_ensures();
                assert(!rest@.contains(x));
                assert(rest@.to_multiset().count(x) == 0);
                lemma_take_count_le(selected@, i as int + 1, x);
                assert(selected@.take(i + 1).to_multiset().count(x) == selected@.take(i as int).to_multiset().count(x) + 1);
                assert(correct@.to_multiset().count(x) == selected@.take(i as int).to_multiset().count(x));
                assert(selected@.to_multiset().count(x) != correct@.to_multiset().count(x));
            }
            return false;
        }
        let ghost before = rest@;
        rest.remove(k);
        proof {
            before.to_multiset_ensures();
            assert(rest@.to_multiset() =~= before.to_multiset().remove(x));
            assert(before.to_multiset().count(x) > 0);
            assert(selected@.take(i + 1).to_multiset() =~= selected@.take(i as int).to_multiset().insert(x));
            assert(selected@.take(i + 1).to_multiset().add(rest@.to_multiset())
                =~= selected@.take(i as int).to_multiset().add(before.to_multiset()));
        }
        i = i + 1;
    }
    proof {
        assert(selected@.take(selected@.len() as int) =~= selected@);
        rest@.to_multiset_ensures();
        if rest@.len() > 0 {
            let y = rest@[0];
            assert(rest@.to_multiset().count(y) > 0);
            assert(correct@.to_multiset().count(y) == selected@.to_multiset().count(y) + rest@.to_multiset().count(y));
        } else {
            assert(rest@.to_multiset() =~= Multiset::empty());
            assert(selected@.to_multiset().add(Multiset::empty()) =~= selected@.to_multiset());
        }
    }
    rest.len() == 0
}

/// Lemma: a prefix counts an element at most as often as the whole.
pub proof fn lemma_take_count_le(s: Seq<i32>, n: int, x: i32)
    requires
        0 <= n <= s.len(),
    ensures
        s.take(n).to_multiset().count(x) <= s.to_multiset().count(x),
    decreases s.len() - n,
{
    if n < s.len() {
        lemma_take_count_le(s, n + 1, x);
        assert(s.take(n + 1) =~= s.take(n).push(s[n]));
        s.take(n).to_multiset_ensures();
    } else {
        assert(s.take(n) =~= s);
    }
}

/// Grades an answer; see [`answer_is_correct`].  A single-choice answer must
/// name at least one option.
pub fn grade_answer(is_multiple_choice: bool, selected: &[i32], correct: &[i32]) -> (r: bool)
    requires
        !is_multiple_choice ==> selected@.len() > 0,
    ensures
        r == answer_is_correct(is_multiple_choice, selected@, correct@),
{
    if is_multiple_choice {
        same_ids(selected, correct)
    } else {
        contains_id(correct, selected[0])
    }
}

/// Law of grading: a multiple-choice answer is graded the same whatever order
/// the chosen and the correct options come in, and naming exactly the correct
/// options is right.
pub proof fn lemma_grading_ignores_order(s1: Seq<i32>, s2: Seq<i32>, c1: Seq<i32>, c2: Seq<i32>)
    requires
        s1.to_multiset() == s2.to_multiset(),
        c1.to_multiset() == c2.to_multiset(),
    ensures
        answer_is_correct(true, s1, c1) == answer_is_correct(true, s2, c2),
        answer_is_correct(true, c1, c2),
{
}

/// Whether the answered question is the last of the session.
pub open spec fn is_last_question(question_idx: int, questions_count: int) -> bool {
    question_idx + 1 == questions_count
}

/// Whether the answered question is the last of the session.
pub fn is_final_question(question_idx: i32, questions_count: i32) -> (r: bool)
    requires
        question_idx < i32::MAX,
    ensures
        r == is_last_question(question_idx as int, questions_count as int),
{
    question_idx + 1 == questions_count
}

} // verus!
