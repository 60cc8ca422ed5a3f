//! Choosing the language of the pages.
//!
//! The `lang` cookie wins when it names a supported locale; otherwise the
//! browser's `Accept-Language` header is read, its entries taken by falling
//! quality, and the first entry that names a supported locale wins; otherwise
//! the pages are in English.
use vstd::prelude::*;

use crate::text::{
    chars_of, chars_range, chars_start_with, find_char_from, first_index_of,
    has_prefix, lemma_first_index_of, pieces_view, split_by, split_chars, starts_with, str_eq,
    string_from_chars,
};

verus! {

/// The supported locale a language tag selects: `ja`, `en`, `zh-CN` and
/// `zh-TW` themselves, `ja-*` and `en-*` their base language, `zh` and
/// `zh-Hans*` simplified Chinese, `zh-Hant*` traditional Chinese.
pub open spec fn supported_locale(lang: Seq<char>) -> Option<Seq<char>> {
    if lang == "ja"@ {
        Some("ja"@)
    } else if lang == "en"@ {
        Some("en"@)
    } else if lang == "zh-CN"@ {
        Some("zh-CN"@)
    } else if lang == "zh-TW"@ {
        Some("zh-TW"@)
    } else if has_prefix(lang, "ja-"@) || has_prefix(lang, "en-"@) {
        if has_prefix(lang, "ja"@) { Some("ja"@) } else { Some("en"@) }
    } else if lang == "zh"@ || has_prefix(lang, "zh-Hans"@) {
        Some("zh-CN"@)
    } else if has_prefix(lang, "zh-Hant"@) {
        Some("zh-TW"@)
    } else {
        None
    }
}

/// Matches a language tag against the supported locales.
pub fn match_supported_locale(lang: &str) -> (r: Option<&'static str>)
    ensures
        match r {
            Some(l) => supported_locale(lang@) == Some(l@),
            None => supported_locale(lang@) is None,
        },
{
    if str_eq(lang, "ja") {
        return Some("ja");
    }
    if str_eq(lang, "en") {
        return Some("en");
    }
    if str_eq(lang, "zh-CN") {
        return Some("zh-CN");
    }
    if str_eq(lang, "zh-TW") {
        return Some("zh-TW");
    }
    if starts_with(lang, "ja-") || starts_with(lang, "en-") {
        return Some(if starts_with(lang, "ja") { "ja" } else { "en" });
    }
    if str_eq(lang, "zh") || starts_with(lang, "zh-Hans") {
        return Some("zh-CN");
    }
    if starts_with(lang, "zh-Hant") {
        return Some("zh-TW");
    }
    None
}

/// The first of the tags that selects a supported locale, and that locale.
pub open spec fn first_supported(langs: Seq<Seq<char>>) -> Option<Seq<char>>
    decreases langs.len(),
{
    if langs.len() == 0 {
        None
    } else {
        match supported_locale(langs[0]) {
            Some(l) => Some(l),
            None => first_supported(langs.skip(1)),
        }
    }
}

/// The view of a list of strings.
pub open spec fn strings_view(v: Seq<String>) -> Seq<Seq<char>> {
    v.map_values(|s: String| s@)
}

/// The locale selected by the first tag, in order, that selects one.
pub fn first_supported_locale(langs: &[String]) -> (r: Option<&'static str>)
    ensures
        match r {
            Some(l) => first_supported(strings_view(langs@)) == Some(l@),
            None => first_supported(strings_view(langs@)) is None,
        },
{
    let mut i: usize = 0;
    assert(strings_view(langs@).skip(0) =~= strings_view(langs@));
    while i < langs.len()
        invariant
            i <= langs@.len(),
            first_supported(strings_view(langs@)) == first_supported(strings_view(langs@).skip(i as int)),
        decreases langs@.len() - i,
    {
        let ghost rest = strings_view(langs@).skip(i as int);
        assert(rest[0] == langs@[i as int]@);
        assert(rest.skip(1) =~= strings_view(langs@).skip(i + 1));
        match match_supported_locale(langs[i].as_str()) {
            Some(l) => {
                return Some(l);
            },
            None => {},
        }
        i = i + 1;
    }
    assert(strings_view(langs@).skip(i as int).len() == 0);
    None
}

/// The locale of the pages: the one the cookie selects, else the one the
/// ranked `Accept-Language` tags select (when the header was sent), else
/// English.
pub open spec fn chosen_locale(cookie: Option<Seq<char>>, ranked: Option<Seq<Seq<char>>>) -> Seq<char> {
    let from_cookie = match cookie {
        Some(c) => supported_locale(c),
        None => None,
    };
    match from_cookie {
        Some(l) => l,
        None => {
            let from_header = match ranked {
                Some(langs) => first_supported(langs),
                None => None,
            };
            match from_header {
                Some(l) => l,
                None => "en"@,
            }
        },
    }
}

/// The locale of a request, from its `lang` cookie and the tags of its
/// `Accept-Language` header ranked by falling quality.
pub fn choose_locale(cookie: Option<&str>, ranked: Option<&[String]>) -> (r: &'static str)
    ensures
        r@ == chosen_locale(
            match cookie { Some(c) => Some(c@), None => None },
            match ranked { Some(v) => Some(strings_view(v@)), None => None },
        ),
        // Without a usable cookie the header decides, when one of its tags
        // selects a supported locale.
        (match cookie { Some(c) => supported_locale(c@) is None, None => true })
            && ranked is Some && first_supported(strings_view(ranked->0@)) is Some
            ==> r@ == first_supported(strings_view(ranked->0@))->0,
{
    let from_cookie = match cookie {
        Some(c) => match_supported_locale(c),
        None => None,
    };
    match from_cookie {
        Some(l) => l,
        None => {
            let from_header = match ranked {
                Some(v) => first_supported_locale(v),
                None => None,
            };
            match from_header {
                Some(l) => l,
                None => "en",
            }
        },
    }
}

/// Whether a locale is one the pages are translated into.
pub open spec fn is_supported(l: Seq<char>) -> bool {
    l == "ja"@ || l == "en"@ || l == "zh-CN"@ || l == "zh-TW"@
}

/// Lemma: a tag selects only supported locales.
pub proof fn lemma_supported_locale_is_supported(lang: Seq<char>)
    ensures
        supported_locale(lang) matches Some(l) ==> is_supported(l),
{
}

/// Lemma: the first tag that selects a locale selects a supported one.
pub proof fn lemma_first_supported_is_supported(langs: Seq<Seq<char>>)
    ensures
        first_supported(langs) matches Some(l) ==> is_supported(l),
    decreases langs.len(),
{
    if langs.len() > 0 {
        lemma_first_supported_is_supported(langs.skip(1));
    }
}

/// Law of locale choice: whatever the cookie and the header hold, the pages
/// come in a supported locale; a cookie naming a supported locale wins over
/// the header, and without cookie and header the pages are in English.
pub proof fn lemma_chosen_locale_laws(cookie: Option<Seq<char>>, ranked: Option<Seq<Seq<char>>>)
    ensures
        is_supported(chosen_locale(cookie, ranked)),
        cookie is Some && supported_locale(cookie->0) is Some
            ==> chosen_locale(cookie, ranked) == supported_locale(cookie->0)->0,
        cookie is None && ranked is None ==> chosen_locale(cookie, ranked) == "en"@,
{
    if let Some(c) = cookie {
        lemma_supported_locale_is_supported(c);
    }
    if let Some(langs) = ranked {
        lemma_first_supported_is_supported(langs);
    }
}

/// The first tag that selects a supported locale decides what the list of
/// tags selects.
proof fn lemma_first_supported_at(langs: Seq<Seq<char>>, k: int)
    requires
        0 <= k < langs.len(),
        supported_locale(langs[k]) is Some,
        forall|j: int| 0 <= j < k ==> supported_locale(#[trigger] langs[j]) is None,
    ensures
        first_supported(langs) == supported_locale(langs[k]),
    decreases k,
{
    if k > 0 {
        let rest = langs.skip(1);
        assert(supported_locale(langs[0]) is None);
        assert forall|j: int| 0 <= j < k - 1 implies supported_locale(#[trigger] rest[j]) is None by {
            assert(rest[j] == langs[j + 1]);
        }
        assert(rest[k - 1] == langs[k]);
        lemma_first_supported_at(rest, k - 1);
    }
}

/// With no tag that selects a supported locale, the list selects none.
proof fn lemma_first_supported_none(langs: Seq<Seq<char>>)
    requires
        forall|j: int| 0 <= j < langs.len() ==> supported_locale(#[trigger] langs[j]) is None,
    ensures
        first_supported(langs) is None,
    decreases langs.len(),
{
    if langs.len() > 0 {
        let rest = langs.skip(1);
        assert(supported_locale(langs[0]) is None);
        assert forall|j: int| 0 <= j < rest.len() implies supported_locale(#[trigger] rest[j]) is None by {
            assert(rest[j] == langs[j + 1]);
        }
        lemma_first_supported_none(rest);
    }
}

/// Law of the header: when the `lang` cookie is missing or names no
/// supported locale, the pages come in the locale that the first ranked
/// `Accept-Language` tag selecting one selects; when no tag selects one, or
/// no header was sent, they come in English.
pub proof fn lemma_header_decides_without_cookie(cookie: Option<Seq<char>>, ranked: Option<Seq<Seq<char>>>, k: int)
    ensures
        (cookie is None || supported_locale(cookie->0) is None) && ranked is Some
            && 0 <= k < ranked->0.len() && supported_locale(ranked->0[k]) is Some
            && (forall|j: int| 0 <= j < k ==> supported_locale(#[trigger] ranked->0[j]) is None)
            ==> chosen_locale(cookie, ranked) == supported_locale(ranked->0[k])->0,
        (cookie is None || supported_locale(cookie->0) is None)
            && (ranked is None || forall|j: int| 0 <= j < ranked->0.len() ==> supported_locale(#[trigger] ranked->0[j]) is None)
            ==> chosen_locale(cookie, ranked) == "en"@,
{
    if let Some(langs) = ranked {
        if 0 <= k < langs.len() && supported_locale(langs[k]) is Some
            && (forall|j: int| 0 <= j < k ==> supported_locale(#[trigger] langs[j]) is None) {
            lemma_first_supported_at(langs, k);
        }
        if forall|j: int| 0 <= j < langs.len() ==> supported_locale(#[trigger] langs[j]) is None {
            lemma_first_supported_none(langs);
        }
    }
}

/// Law of the language switcher: the stored locale is always supported, and
/// a supported request other than English is stored as it is.
pub proof fn lemma_stored_locale_laws(requested: Seq<char>)
    ensures
        is_supported(stored_locale(requested)),
        is_supported(requested) ==> stored_locale(requested) == requested,
{
}

/// The locale the language switcher stores: `ja`, `zh-CN` and `zh-TW` as
/// they are, anything else English.
pub open spec fn stored_locale(requested: Seq<char>) -> Seq<char> {
    if requested == "ja"@ {
        "ja"@
    } else if requested == "zh-CN"@ {
        "zh-CN"@
    } else if requested == "zh-TW"@ {
        "zh-TW"@
    } else {
        "en"@
    }
}

/// The locale to store for a request of the language switcher.
pub fn locale_to_store(requested: &str) -> (r: &'static str)
    ensures
        r@ == stored_locale(requested@),
{
    if str_eq(requested, "ja") {
        "ja"
    } else if str_eq(requested, "zh-CN") {
        "zh-CN"
    } else if str_eq(requested, "zh-TW") {
        "zh-TW"
    } else {
        "en"
    }
}

/// `char::is_whitespace`: the characters with the Unicode `White_Space` property.
pub open spec fn is_whitespace(c: char) -> bool {
    let n = c as int;
    ||| 9 <= n <= 13
    ||| n == 32
    ||| n == 0x85
    ||| n == 0xA0
    ||| n == 0x1680
    ||| 0x2000 <= n <= 0x200A
    ||| n == 0x2028
    ||| n == 0x2029
    ||| n == 0x202F
    ||| n == 0x205F
    ||| n == 0x3000
}

fn whitespace(c: char) -> (r: bool)
    ensures
        r == is_whitespace(c),
{
    let n = c as u32;
    (9 <= n && n <= 13) || n == 32 || n == 0x85 || n == 0xA0 || n == 0x1680 || (0x2000 <= n && n
        <= 0x200A) || n == 0x2028 || n == 0x2029 || n == 0x202F || n == 0x205F || n == 0x3000
}

/// `s` without its leading whitespace.
pub open spec fn trim_start(s: Seq<char>) -> Seq<char>
    decreases s.len(),
{
    if s.len() > 0 && is_whitespace(s[0]) {
        trim_start(s.skip(1))
    } else {
        s
    }
}

/// `s` without its trailing whitespace.
pub open spec fn trim_end(s: Seq<char>) -> Seq<char>
    decreases s.len(),
{
    if s.len() > 0 && is_whitespace(s.last()) {
        trim_end(s.drop_last())
    } else {
        s
    }
}

/// `str::trim`.
pub open spec fn trimmed(s: Seq<char>) -> Seq<char> {
    trim_end(trim_start(s))
}

/// `str::trim` on characters.
pub fn trim_chars(s: &[char]) -> (r: Vec<char>)
    ensures
        r@ == trimmed(s@),
{
    let mut i: usize = 0;
    assert(s@.skip(0) =~= s@);
    while i < s.len() && whitespace(s[i])
        invariant
            i <= s@.len(),
            trim_start(s@) == trim_start(s@.skip(i as int)),
        decreases s@.len() - i,
    {
        assert(s@.skip(i as int)[0] == s@[i as int]);
        assert(s@.skip(i as int).skip(1) =~= s@.skip(i + 1));
        i = i + 1;
    }
    let ghost t = s@.skip(i as int);
    assert(trim_start(s@) == t);
    let mut j: usize = s.len();
    assert(t =~= s@.subrange(i as int, j as int));
    while j > i && whitespace(s[j - 1])
        invariant
            i <= j <= s@.len(),
            trim_end(t) == trim_end(s@.subrange(i as int, j as int)),
        decreases j,
    {
        assert(s@.subrange(i as int, j as int).last() == s@[j - 1]);
        assert(s@.subrange(i as int, j as int).drop_last() =~= s@.subrange(i as int, j - 1));
        j = j - 1;
    }
    assert(trim_end(s@.subrange(i as int, j as int)) == s@.subrange(i as int, j as int));
    chars_range(s, i, j)
}

/// One entry of an `Accept-Language` header: its language tag and the text
/// of its quality parameter, if it has one.
pub struct LanguageEntry {
    pub lang: String,
    pub quality: Option<String>,
}

/// The text of the first `q=` parameter among `params` (each trimmed), trimmed.
pub open spec fn quality_param(params: Seq<Seq<char>>) -> Option<Seq<char>>
    decreases params.len(),
{
    if params.len() == 0 {
        None
    } else if has_prefix(trimmed(params[0]), "q="@) {
        Some(trimmed(trimmed(params[0]).skip(2)))
    } else {
        quality_param(params.skip(1))
    }
}

/// One comma-separated piece of the header, read: trimmed, then split at its
/// first `;` into the trimmed tag and the `;`-separated parameters.
pub open spec fn language_entry(piece: Seq<char>) -> (Seq<char>, Option<Seq<char>>) {
    let e = trimmed(piece);
    let k = first_index_of(e, ';');
    if k < e.len() {
        (trimmed(e.take(k)), quality_param(split_by(e.skip(k + 1), ';')))
    } else {
        (e, None)
    }
}

/// The entries of an `Accept-Language` header, in order.
pub open spec fn language_entries(header: Seq<char>) -> Seq<(Seq<char>, Option<Seq<char>>)> {
    split_by(header, ',').map_values(|p: Seq<char>| language_entry(p))
}

/// The view of a list of entries.
pub open spec fn entries_view(v: Seq<LanguageEntry>) -> Seq<(Seq<char>, Option<Seq<char>>)> {
    v.map_values(|e: LanguageEntry| (e.lang@, match e.quality { Some(q) => Some(q@), None => None }))
}

/// The text of the first `q=` parameter.
fn find_quality(params: &Vec<Vec<char>>) -> (r: Option<String>)
    ensures
        match r {
            Some(q) => quality_param(pieces_view(params@)) == Some(q@),
            None => quality_param(pieces_view(params@)) is None,
        },
{
    let mut i: usize = 0;
    let ghost pv = pieces_view(params@);
    assert(pv.skip(0) =~= pv);
    proof {
        reveal_strlit("q=");
        assert(seq!['q', '='] =~= "q="@);
    }
    while i < params.len()
        invariant
            i <= params@.len(),
            pv == pieces_view(params@),
            seq!['q', '='] == "q="@,
            quality_param(pv) == quality_param(pv.skip(i as int)),
        decreases params@.len() - i,
    {
        assert(pv.skip(i as int)[0] == params@[i as int]@);
        assert(pv.skip(i as int).skip(1) =~= pv.skip(i + 1));
        let p = trim_chars(params[i].as_slice());
        if chars_start_with(&p, &['q', '=']) {
            let v = chars_range(&p, 2, p.len());
            assert(v@ =~= p@.skip(2));
            let t = trim_chars(&v);
            return Some(string_from_chars(&t));
        }
        i = i + 1;
    }
    None
}

/// Reads the entries of an `Accept-Language` header: each comma-separated
/// piece, trimmed, gives its tag (before the first `;`, trimmed) and the
/// trimmed text of its first `q=` parameter.  Ranking the entries by quality
/// is left to the caller.
pub fn accept_language_entries(header: &str) -> (r: Vec<LanguageEntry>)
    ensures
        entries_view(r@) == language_entries(header@),
{
    let cs = chars_of(header);
    let pieces = split_chars(&cs, ',');
    let mut out: Vec<LanguageEntry> = Vec::new();
    let mut i: usize = 0;
    while i < pieces.len()
        invariant
            i <= pieces@.len(),
            pieces_view(pieces@) == split_by(header@, ','),
            entries_view(out@) == pieces_view(pieces@).take(i as int).map_values(|p: Seq<char>| language_entry(p)),
        decreases pieces@.len() - i,
    {
        let e = trim_chars(pieces[i].as_slice());
        let k = find_char_from(&e, 0, ';');
        proof {
            assert(e@.skip(0) =~= e@);
            lemma_first_index_of(e@, ';');
            assert(pieces_view(pieces@)[i as int] == pieces@[i as int]@);
        }
        let entry = if k < e.len() {
            let tag = chars_range(&e, 0, k);
            let rest = chars_range(&e, k + 1, e.len());
            let params = split_chars(&rest, ';');
            let lang = trim_chars(&tag);
            assert(tag@ =~= e@.take(k as int));
            assert(rest@ =~= e@.skip(k + 1));
            LanguageEntry { lang: string_from_chars(&lang), quality: find_quality(&params) }
        } else {
            LanguageEntry { lang: string_from_chars(&e), quality: None }
        };
        let ghost old_out = out@;
        out.push(entry);
        proof {
            assert(entries_view(out@) =~= entries_view(old_out).push(language_entry(pieces@[i as int]@)));
            assert(pieces_view(pieces@).take(i + 1).map_values(|p: Seq<char>| language_entry(p))
                =~= pieces_view(pieces@).take(i as int).map_values(|p: Seq<char>| language_entry(p)).push(language_entry(pieces@[i as int]@)));
        }
        i = i + 1;
    }
    assert(pieces_view(pieces@).take(pieces@.len() as int) =~= pieces_view(pieces@));
    out
}

} // verus!
