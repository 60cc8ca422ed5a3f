//! Small verified building blocks for strings: character access,
//! decimal rendering of integers, ASCII case folding and splitting at a
//! separator.
use vstd::prelude::*;
use vstd::string::*;

verus! {

/// The character of a decimal digit `d` (`0 <= d < 10`).
pub open spec fn digit_char(d: int) -> char {
    (48 + d) as char
}

/// The decimal representation of a natural number, most significant digit first.
pub open spec fn decimal_digits(n: nat) -> Seq<char>
    decreases n,
{
    if n < 10 {
        seq![digit_char(n as int)]
    } else {
        decimal_digits(n / 10).push(digit_char((n % 10) as int))
    }
}

/// The decimal representation of an integer, with a leading `-` when negative.
pub open spec fn decimal_int(n: int) -> Seq<char> {
    if n < 0 {
        seq!['-'] + decimal_digits((-n) as nat)
    } else {
        decimal_digits(n as nat)
    }
}

/// The decimal representation of `n`, left-padded with zeros to at least two digits.
pub open spec fn two_digits(n: nat) -> Seq<char> {
    if n < 10 {
        seq!['0'] + decimal_digits(n)
    } else {
        decimal_digits(n)
    }
}

/// ASCII lower-casing of one character; other characters are kept.
pub open spec fn ascii_lower_char(c: char) -> char {
    if 'A' <= c && c <= 'Z' {
        ((c as int) + 32) as char
    } else {
        c
    }
}

/// ASCII lower-casing of a character sequence.
pub open spec fn ascii_lower(s: Seq<char>) -> Seq<char> {
    Seq::new(s.len(), |i: int| ascii_lower_char(s[i]))
}

/// How many bytes UTF-8 takes for one character.
pub open spec fn utf8_char_len(c: char) -> nat {
    if (c as u32) < 0x80 {
        1
    } else if (c as u32) < 0x800 {
        2
    } else if (c as u32) < 0x10000 {
        3
    } else {
        4
    }
}

/// How many bytes UTF-8 takes for a text.
pub open spec fn utf8_len(s: Seq<char>) -> nat
    decreases s.len(),
{
    if s.len() == 0 {
        0
    } else {
        utf8_len(s.drop_last()) + utf8_char_len(s.last())
    }
}

/// Whether `prefix` is a prefix of `s`.
pub open spec fn has_prefix(s: Seq<char>, prefix: Seq<char>) -> bool {
    prefix.len() <= s.len() && s.subrange(0, prefix.len() as int) == prefix
}

/// Appends one character to a string (`String::push`).
#[verifier::external_body]
pub(crate) fn push_char(s: &mut String, c: char)
    ensures
        final(s)@ == old(s)@.push(c),
{
    s.push(c);
}

/// The characters of a string slice, in order.
pub fn chars_of(s: &str) -> (v: Vec<char>)
    ensures
        v@ == s@,
{
    let mut v: Vec<char> = Vec::new();
    for c in it: s.chars()
        invariant
            v@ == it.seq().take(it.index() as int),
            it.seq() == s@,
    {
        v.push(c);
    }
    v
}

/// A string made of the given characters.
pub fn string_from_chars(cs: &[char]) -> (r: String)
    ensures
        r@ == cs@,
{
    let mut r = String::new();
    let mut i: usize = 0;
    while i < cs.len()
        invariant
            i <= cs@.len(),
            r@ == cs@.take(i as int),
        decreases cs@.len() - i,
    {
        push_char(&mut r, cs[i]);
        assert(cs@.take(i as int).push(cs@[i as int]) =~= cs@.take(i + 1));
        i = i + 1;
    }
    assert(cs@.take(cs@.len() as int) =~= cs@);
    r
}

/// A fresh string holding a copy of `s`.
pub fn owned(s: &str) -> (r: String)
    ensures
        r@ == s@,
{
    s.to_owned()
}

/// Whether two string slices hold the same characters.
pub fn str_eq(a: &str, b: &str) -> (r: bool)
    ensures
        r == (a@ == b@),
{
    let x = chars_of(a);
    let y = chars_of(b);
    chars_eq(&x, &y)
}

/// Whether two character slices are equal.
pub fn chars_eq(x: &[char], y: &[char]) -> (r: bool)
    ensures
        r == (x@ == y@),
{
    if x.len() != y.len() {
        return false;
    }
    let mut i: usize = 0;
    while i < x.len()
        invariant
            x@.len() == y@.len(),
            i <= x@.len(),
            forall|j: int| 0 <= j < i ==> x@[j] == y@[j],
        decreases x@.len() - i,
    {
        if x[i] != y[i] {
            return false;
        }
        i = i + 1;
    }
    assert(x@ =~= y@);
    true
}

/// Whether `s` starts with `prefix`.
pub fn starts_with(s: &str, prefix: &str) -> (r: bool)
    ensures
        r == has_prefix(s@, prefix@),
{
    let x = chars_of(s);
    let p = chars_of(prefix);
    chars_start_with(&x, &p)
}

/// Whether the characters `x` start with the characters `p`.
pub fn chars_start_with(x: &[char], p: &[char]) -> (r: bool)
    ensures
        r == has_prefix(x@, p@),
{
    if p.len() > x.len() {
        return false;
    }
    let mut i: usize = 0;
    while i < p.len()
        invariant
            p@.len() <= x@.len(),
            i <= p@.len(),
            forall|j: int| 0 <= j < i ==> x@[j] == p@[j],
        decreases p@.len() - i,
    {
        if x[i] != p[i] {
            assert(x@.subrange(0, p@.len() as int)[i as int] != p@[i as int]);
            return false;
        }
        i = i + 1;
    }
    assert(x@.subrange(0, p@.len() as int) =~= p@);
    true
}

/// Appends the decimal digits of `n` to `out`.
pub fn push_decimal_u64(out: &mut String, n: u64)
    ensures
        final(out)@ == old(out)@ + decimal_digits(n as nat),
    decreases n,
{
    if n >= 10 {
        push_decimal_u64(out, n / 10);
    }
    let d = (n % 10) as u8;
    let c = (48u8 + d) as char;
    assert(c == digit_char((n % 10) as int));
    push_char(out, c);
    proof {
        if n < 10 {
            assert(decimal_digits(n as nat) =~= seq![digit_char(n as int)]);
        }
    }
}

/// The decimal representation of an unsigned integer.
pub fn u64_to_decimal(n: u64) -> (r: String)
    ensures
        r@ == decimal_digits(n as nat),
{
    let mut r = String::new();
    push_decimal_u64(&mut r, n);
    assert(Seq::<char>::empty() + decimal_digits(n as nat) =~= decimal_digits(n as nat));
    r
}

/// Appends the decimal representation of `n` to `out`.
pub fn push_decimal_i64(out: &mut String, n: i64)
    ensures
        final(out)@ == old(out)@ + decimal_int(n as int),
{
    if n < 0 {
        push_char(out, '-');
        let m: u64 = if n == i64::MIN { 9223372036854775808u64 } else { (-n) as u64 };
        let ghost before = out@;
        push_decimal_u64(out, m);
        assert(old(out)@ + decimal_int(n as int) =~= before + decimal_digits(m as nat));
    } else {
        push_decimal_u64(out, n as u64);
    }
}

/// The decimal representation of a 32-bit integer (`i32::to_string`).
pub fn i32_to_decimal(n: i32) -> (r: String)
    ensures
        r@ == decimal_int(n as int),
{
    let mut r = String::new();
    push_decimal_i64(&mut r, n as i64);
    assert(Seq::<char>::empty() + decimal_int(n as int) =~= decimal_int(n as int));
    r
}

/// The decimal representation of a 64-bit integer (`i64::to_string`).
pub fn i64_to_decimal(n: i64) -> (r: String)
    ensures
        r@ == decimal_int(n as int),
{
    let mut r = String::new();
    push_decimal_i64(&mut r, n);
    assert(Seq::<char>::empty() + decimal_int(n as int) =~= decimal_int(n as int));
    r
}

/// ASCII lower-casing of a string slice.
pub fn to_ascii_lower(s: &str) -> (r: String)
    ensures
        r@ == ascii_lower(s@),
{
    let cs = chars_of(s);
    let mut out: Vec<char> = Vec::new();
    let mut i: usize = 0;
    while i < cs.len()
        invariant
            i <= cs@.len(),
            out@ == ascii_lower(cs@.take(i as int)),
        decreases cs@.len() - i,
    {
        let c = cs[i];
        let l = if 'A' <= c && c <= 'Z' { ((c as u32) + 32) as u8 as char } else { c };
        proof {
            if 'A' <= c && c <= 'Z' {
                assert(l == ascii_lower_char(c));
            }
        }
        out.push(l);
        assert(ascii_lower(cs@.take(i as int)).push(l) =~= ascii_lower(cs@.take(i + 1)));
        i = i + 1;
    }
    assert(cs@.take(cs@.len() as int) =~= cs@);
    string_from_chars(&out)
}

/// Index of the first `c` in `s`, or `s.len()` when there is none.
pub open spec fn first_index_of(s: Seq<char>, c: char) -> int
    decreases s.len(),
{
    if s.len() == 0 {
        0
    } else if s[0] == c {
        0
    } else {
        1 + first_index_of(s.skip(1), c)
    }
}

/// The pieces of `s` between the separators `sep`, as `str::split` returns
/// them (an empty string gives one empty piece).
pub open spec fn split_by(s: Seq<char>, sep: char) -> Seq<Seq<char>>
    decreases s.len(),
{
    let i = first_index_of(s, sep);
    if i >= s.len() {
        seq![s]
    } else {
        proof {
            lemma_first_index_of(s, sep);
        }
        seq![s.take(i)] + split_by(s.skip(i + 1), sep)
    }
}

/// Lemma: the first index lies within the sequence, and points at the
/// separator when it is below the length.
pub proof fn lemma_first_index_of(s: Seq<char>, c: char)
    ensures
        0 <= first_index_of(s, c) <= s.len(),
        first_index_of(s, c) < s.len() ==> s[first_index_of(s, c)] == c,
        forall|j: int| 0 <= j < first_index_of(s, c) ==> s[j] != c,
    decreases s.len(),
{
    if s.len() > 0 && s[0] != c {
        lemma_first_index_of(s.skip(1), c);
        assert forall|j: int| 0 <= j < first_index_of(s, c) implies s[j] != c by {
            if j > 0 {
                assert(s.skip(1)[j - 1] == s[j]);
            }
        }
    }
}

/// Index of the first `c` in `s[start..]`, relative to `start`.
pub fn find_char_from(s: &[char], start: usize, c: char) -> (r: usize)
    requires
        start <= s@.len(),
    ensures
        r == first_index_of(s@.skip(start as int), c),
        start + r <= s@.len(),
{
    let mut i = start;
    while i < s.len() && s[i] != c
        invariant
            start <= i <= s@.len(),
            forall|j: int| start <= j < i ==> s@[j] != c,
        decreases s@.len() - i,
    {
        i = i + 1;
    }
    proof {
        lemma_first_index_is_first(s@.skip(start as int), c, (i - start) as int);
    }
    i - start
}

/// Lemma: an index that holds `c` (or the end) with no `c` before it is the
/// first index of `c`.
pub proof fn lemma_first_index_is_first(s: Seq<char>, c: char, k: int)
    requires
        0 <= k <= s.len(),
        k < s.len() ==> s[k] == c,
        forall|j: int| 0 <= j < k ==> s[j] != c,
    ensures
        first_index_of(s, c) == k,
    decreases s.len(),
{
    if s.len() > 0 && k > 0 {
        assert(s[0] != c);
        assert forall|j: int| 0 <= j < k - 1 implies s.skip(1)[j] != c by {
            assert(s[j + 1] != c);
        }
        lemma_first_index_is_first(s.skip(1), c, k - 1);
    }
}

/// The characters `s[from..to]`.
pub fn chars_range(s: &[char], from: usize, to: usize) -> (r: Vec<char>)
    requires
        from <= to <= s@.len(),
    ensures
        r@ == s@.subrange(from as int, to as int),
{
    let mut r: Vec<char> = Vec::new();
    let mut i = from;
    while i < to
        invariant
            from <= i <= to <= s@.len(),
            r@ == s@.subrange(from as int, i as int),
        decreases to - i,
    {
        r.push(s[i]);
        assert(s@.subrange(from as int, i as int).push(s@[i as int]) =~= s@.subrange(from as int, i + 1));
        i = i + 1;
    }
    r
}

/// The view of a list of character vectors.
pub open spec fn pieces_view(v: Seq<Vec<char>>) -> Seq<Seq<char>> {
    v.map_values(|p: Vec<char>| p@)
}

/// `str::split` on a separator character.
pub fn split_chars(s: &[char], sep: char) -> (r: Vec<Vec<char>>)
    ensures
        pieces_view(r@) == split_by(s@, sep),
{
    let mut out: Vec<Vec<char>> = Vec::new();
    let mut start: usize = 0;
    assert(s@.skip(0) =~= s@);
    assert(pieces_view(out@) + split_by(s@, sep) =~= split_by(s@, sep));
    loop
        invariant
            start <= s@.len(),
            pieces_view(out@) + split_by(s@.skip(start as int), sep) == split_by(s@, sep),
        decreases s@.len() - start,
    {
        let ghost rest = s@.skip(start as int);
        let k = find_char_from(s, start, sep);
        let ghost old_out = out@;
        if k >= s.len() - start {
            let piece = chars_range(s, start, s.len());
            out.push(piece);
            proof {
                lemma_split_last(rest, sep, k as int);
                lemma_pieces_push(old_out, piece);
                assert(piece@ =~= rest);
                assert(pieces_view(old_out) + seq![rest] =~= pieces_view(old_out).push(rest));
            }
            return out;
        }
        let piece = chars_range(s, start, start + k);
        out.push(piece);
        proof {
            lemma_split_step(rest, sep, k as int);
            lemma_pieces_push(old_out, piece);
            assert(piece@ =~= rest.take(k as int));
            assert(rest.skip(k + 1) =~= s@.skip(start + k + 1));
            assert(pieces_view(old_out) + (seq![rest.take(k as int)] + split_by(rest.skip(k + 1), sep))
                =~= pieces_view(old_out).push(rest.take(k as int)) + split_by(rest.skip(k + 1), sep));
        }
        start = start + k + 1;
    }
}

/// Lemma: a separator found at `k` splits off the piece before it.
pub proof fn lemma_split_step(rest: Seq<char>, sep: char, k: int)
    requires
        k == first_index_of(rest, sep),
        k < rest.len(),
    ensures
        split_by(rest, sep) == seq![rest.take(k)] + split_by(rest.skip(k + 1), sep),
{
}

/// Lemma: with no separator left, the rest is the last piece.
pub proof fn lemma_split_last(rest: Seq<char>, sep: char, k: int)
    requires
        k == first_index_of(rest, sep),
        k >= rest.len(),
    ensures
        split_by(rest, sep) == seq![rest],
{
}

/// Lemma: the view of a list after a push.
pub proof fn lemma_pieces_push(v: Seq<Vec<char>>, p: Vec<char>)
    ensures
        pieces_view(v.push(p)) == pieces_view(v).push(p@),
{
    assert(pieces_view(v.push(p)) =~= pieces_view(v).push(p@));
}

} // verus!
