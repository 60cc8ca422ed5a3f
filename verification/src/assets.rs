//! Static assets under content-hashed names.
//!
//! Every static file is also served under a name that carries the first
//! eight hex digits of the SHA-256 of its contents (`index.css` becomes
//! `index.1a2b3c4d.css`), so that pages can let browsers cache it forever.
use sha2::{Digest, Sha256};
use vstd::prelude::*;

use crate::text::{chars_eq, chars_of, owned, string_from_chars};

verus! {

/// The SHA-256 digest of some bytes.
pub uninterp spec fn sha256_of(data: Seq<u8>) -> Seq<u8>;

/// `Sha256::digest` (sha2): the 32-byte SHA-256 digest of the data.
#[verifier::external_body]
fn sha256_digest(data: &[u8]) -> (r: Vec<u8>)
    ensures
        r@ == sha256_of(data@),
        r@.len() == 32,
{
    Sha256::digest(data).to_vec()
}

/// The lower-case hex digit of a value below 16.
pub open spec fn hex_digit(v: int) -> char {
    if v < 10 { (48 + v) as char } else { (87 + v) as char }
}

/// Lower-case hex of some bytes, two digits per byte, as `{:x}` prints a digest.
pub open spec fn hex_of(bytes: Seq<u8>) -> Seq<char>
    decreases bytes.len(),
{
    if bytes.len() == 0 {
        Seq::empty()
    } else {
        hex_of(bytes.drop_last()) + seq![hex_digit(bytes.last() as int / 16), hex_digit(bytes.last() as int % 16)]
    }
}

/// The tag put into hashed names: the first eight hex digits of the digest.
pub open spec fn content_tag(contents: Seq<u8>) -> Seq<char> {
    hex_of(sha256_of(contents).take(4))
}

fn hex_char(v: u8) -> (c: char)
    requires
        v < 16,
    ensures
        c == hex_digit(v as int),
{
    if v < 10 { (48u8 + v) as char } else { (87u8 + v) as char }
}

/// The first eight lower-case hex digits of the SHA-256 of `contents`.
pub fn content_hash_tag(contents: &[u8]) -> (r: String)
    ensures
        r@ == content_tag(contents@),
{
    let digest = sha256_digest(contents);
    let mut out: Vec<char> = Vec::new();
    let mut i: usize = 0;
    while i < 4
        invariant
            i <= 4,
            digest@.len() == 32,
            out@ == hex_of(digest@.take(i as int)),
        decreases 4 - i,
    {
        let b = digest[i];
        out.push(hex_char(b / 16));
        out.push(hex_char(b % 16));
        proof {
            assert(digest@.take(i + 1).drop_last() =~= digest@.take(i as int));
            assert(digest@.take(i + 1).last() == b);
            assert(hex_of(digest@.take(i as int)).push(hex_digit(b as int / 16)).push(hex_digit(b as int % 16))
                =~= hex_of(digest@.take(i as int)) + seq![hex_digit(b as int / 16), hex_digit(b as int % 16)]);
        }
        i = i + 1;
    }
    string_from_chars(&out)
}

/// Index of the last `.` in a file name, or -1 when there is none.
pub open spec fn last_dot(name: Seq<char>) -> int
    decreases name.len(),
{
    if name.len() == 0 {
        -1
    } else if name.last() == '.' {
        name.len() - 1
    } else {
        last_dot(name.drop_last())
    }
}

/// The stem and extension of a file name, as `Path::file_stem` and
/// `Path::extension` give them: the name splits at its last dot, except that
/// `..`, a name without dots and a name whose only dot leads it have no
/// extension.
pub open spec fn stem_and_ext(name: Seq<char>) -> (Seq<char>, Option<Seq<char>>) {
    let d = last_dot(name);
    if name == ".."@ || d <= 0 {
        (name, None)
    } else {
        (name.take(d), Some(name.skip(d + 1)))
    }
}

/// The hashed path of a file: `{stem}.{tag}.{ext}` (or `{stem}.{tag}` without
/// an extension), under `{parent}/` when the file has a non-empty parent.
pub open spec fn hashed_path(parent: Option<Seq<char>>, name: Seq<char>, tag: Seq<char>) -> Seq<char> {
    let (stem, ext) = stem_and_ext(name);
    let file = match ext {
        Some(e) => stem + seq!['.'] + tag + seq!['.'] + e,
        None => stem + seq!['.'] + tag,
    };
    match parent {
        Some(p) => if p.len() > 0 { p + seq!['/'] + file } else { file },
        None => file,
    }
}

/// Lemma: `last_dot` finds the last dot.
pub proof fn lemma_last_dot(name: Seq<char>)
    ensures
        -1 <= last_dot(name) < name.len(),
        last_dot(name) >= 0 ==> name[last_dot(name)] == '.',
        forall|j: int| last_dot(name) < j < name.len() ==> name[j] != '.',
    decreases name.len(),
{
    if name.len() > 0 && name.last() != '.' {
        lemma_last_dot(name.drop_last());
        assert forall|j: int| last_dot(name) < j < name.len() implies name[j] != '.' by {
            if j < name.len() - 1 {
                assert(name.drop_last()[j] == name[j]);
            }
        }
    }
}

/// Index of the last `.` in `name`, or -1.
fn find_last_dot(name: &[char]) -> (r: isize)
    requires
        name@.len() < isize::MAX,
    ensures
        r == last_dot(name@),
{
    let mut i: usize = name.len();
    assert(name@.take(name@.len() as int) =~= name@);
    while i > 0 && name[i - 1] != '.'
        invariant
            i <= name@.len(),
            last_dot(name@) == last_dot(name@.take(i as int)),
        decreases i,
    {
        proof {
            assert(name@.take(i as int).drop_last() =~= name@.take(i - 1));
            assert(name@.take(i as int).last() == name@[i - 1]);
        }
        i = i - 1;
    }
    proof {
        assert(name@.take(name@.len() as int) =~= name@);
    }
    if i == 0 {
        assert(name@.take(0).len() == 0);
        -1
    } else {
        assert(name@.take(i as int).last() == '.');
        (i - 1) as isize
    }
}

fn push_all(out: &mut Vec<char>, s: &[char])
    ensures
        final(out)@ == old(out)@ + s@,
{
    let mut i: usize = 0;
    while i < s.len()
        invariant
            i <= s@.len(),
            out@ == old(out)@ + s@.take(i as int),
        decreases s@.len() - i,
    {
        out.push(s[i]);
        assert(old(out)@ + s@.take(i as int).push(s@[i as int]) =~= old(out)@ + s@.take(i + 1));
        i = i + 1;
    }
    assert(s@.take(s@.len() as int) =~= s@);
}

/// The path a static file is served under, from its parent directory (when
/// it has one), its file name and its content tag.
pub fn hashed_asset_path(parent: Option<&str>, file_name: &str, tag: &str) -> (r: String)
    requires
        file_name@.len() < isize::MAX,
    ensures
        r@ == hashed_path(match parent { Some(p) => Some(p@), None => None }, file_name@, tag@),
{
    let name = chars_of(file_name);
    let t = chars_of(tag);
    let d = find_last_dot(&name);
    proof {
        lemma_last_dot(name@);
    }
    let dotdot = chars_eq(&name, &['.', '.']);
    proof {
        reveal_strlit("..");
        assert(seq!['.', '.'] =~= ".."@);
    }
    let mut file: Vec<char> = Vec::new();
    if dotdot || d <= 0 {
        push_all(&mut file, &name);
        file.push('.');
        push_all(&mut file, &t);
        assert(file@ =~= name@ + seq!['.'] + t@);
    } else {
        let du = d as usize;
        let mut stem: Vec<char> = Vec::new();
        let mut k: usize = 0;
        while k < du
            invariant
                k <= du < name@.len(),
                stem@ == name@.take(k as int),
            decreases du - k,
        {
            stem.push(name[k]);
            assert(name@.take(k as int).push(name@[k as int]) =~= name@.take(k + 1));
            k = k + 1;
        }
        let mut ext: Vec<char> = Vec::new();
        let mut k2: usize = du + 1;
        while k2 < name.len()
            invariant
                du + 1 <= k2 <= name@.len(),
                ext@ == name@.subrange(du + 1, k2 as int),
            decreases name@.len() - k2,
        {
            ext.push(name[k2]);
            assert(name@.subrange(du + 1, k2 as int).push(name@[k2 as int]) =~= name@.subrange(du + 1, k2 + 1));
            k2 = k2 + 1;
        }
        push_all(&mut file, &stem);
        file.push('.');
        push_all(&mut file, &t);
        file.push('.');
        push_all(&mut file, &ext);
        assert(ext@ =~= name@.skip(du + 1));
        assert(file@ =~= stem@ + seq!['.'] + t@ + seq!['.'] + ext@);
    }
    match parent {
        Some(p) => {
            let pc = chars_of(p);
            if pc.len() > 0 {
                let mut out: Vec<char> = Vec::new();
                push_all(&mut out, &pc);
                out.push('/');
                push_all(&mut out, &file);
                assert(out@ =~= pc@ + seq!['/'] + file@);
                string_from_chars(&out)
            } else {
                string_from_chars(&file)
            }
        },
        None => string_from_chars(&file),
    }
}

/// One static file: its path, the parts of the path and its contents.
pub struct AssetFile {
    /// The path relative to the static directory, e.g. `htmx/htmx.min.js`.
    pub path: String,
    /// The directory part of the path, if any.
    pub parent: Option<String>,
    /// The last part of the path.
    pub file_name: String,
    /// The bytes of the file.
    pub contents: Vec<u8>,
}

/// One entry of the asset map: a path and its hashed path.
pub struct AssetEntry {
    pub plain: String,
    pub hashed: String,
}

/// The map from asset paths to hashed paths.
pub struct AssetMap {
    entries: Vec<AssetEntry>,
}

/// The view of an asset map: pairs (plain, hashed) in insertion order.
pub open spec fn entries_view(v: Seq<AssetEntry>) -> Seq<(Seq<char>, Seq<char>)> {
    v.map_values(|e: AssetEntry| (e.plain@, e.hashed@))
}

/// The hashed path the map gives a path: that of the last entry for it.
pub open spec fn lookup_hashed(entries: Seq<(Seq<char>, Seq<char>)>, name: Seq<char>) -> Option<Seq<char>>
    decreases entries.len(),
{
    if entries.len() == 0 {
        None
    } else if entries.last().0 == name {
        Some(entries.last().1)
    } else {
        lookup_hashed(entries.drop_last(), name)
    }
}

/// The path the map gives a hashed path back: that of the last entry with it.
pub open spec fn lookup_plain(entries: Seq<(Seq<char>, Seq<char>)>, hashed: Seq<char>) -> Option<Seq<char>>
    decreases entries.len(),
{
    if entries.len() == 0 {
        None
    } else if entries.last().1 == hashed {
        Some(entries.last().0)
    } else {
        lookup_plain(entries.drop_last(), hashed)
    }
}

impl AssetMap {
    /// The entries, in insertion order.
    pub closed spec fn view_entries(&self) -> Seq<(Seq<char>, Seq<char>)> {
        entries_view(self.entries@)
    }

    /// An empty map.
    pub fn new() -> (r: Self)
        ensures
            r.view_entries() == Seq::<(Seq<char>, Seq<char>)>::empty(),
    {
        AssetMap { entries: Vec::new() }
    }

    /// Maps `plain` to `hashed` (a later entry for the same path wins).
    pub fn insert(&mut self, plain: String, hashed: String)
        ensures
            final(self).view_entries() == old(self).view_entries().push((plain@, hashed@)),
    {
        let ghost before = self.entries@;
        self.entries.push(AssetEntry { plain, hashed });
        assert(entries_view(self.entries@) =~= entries_view(before).push((plain@, hashed@)));
    }

    /// The hashed path of `name`, if the map has it.
    pub fn hashed_of(&self, name: &str) -> (r: Option<String>)
        ensures
            match r {
                Some(h) => lookup_hashed(self.view_entries(), name@) == Some(h@),
                None => lookup_hashed(self.view_entries(), name@) is None,
            },
    {
        let n = chars_of(name);
        let mut i = self.entries.len();
        let ghost ev = self.view_entries();
        assert(ev.take(ev.len() as int) =~= ev);
        while i > 0
            invariant
                i <= self.entries@.len(),
                ev == entries_view(self.entries@),
                n@ == name@,
                lookup_hashed(ev, name@) == lookup_hashed(ev.take(i as int), name@),
            decreases i,
        {
            let e = &self.entries[i - 1];
            let ghost t = ev.take(i as int);
            proof {
                assert(t.drop_last() =~= ev.take(i - 1));
                assert(t.last() == (e.plain@, e.hashed@));
            }
            let o = chars_of(e.plain.as_str());
            if chars_eq(&o, &n) {
                let h = e.hashed.clone();
                assert(lookup_hashed(t, name@) == Some(e.hashed@));
                return Some(h);
            }
            assert(lookup_hashed(t, name@) == lookup_hashed(ev.take(i - 1), name@));
            i = i - 1;
        }
        None
    }

    /// The path whose hashed path is `hashed`, if the map has it.
    pub fn plain_of(&self, hashed: &str) -> (r: Option<String>)
        ensures
            match r {
                Some(o) => lookup_plain(self.view_entries(), hashed@) == Some(o@),
                None => lookup_plain(self.view_entries(), hashed@) is None,
            },
    {
        let n = chars_of(hashed);
        let mut i = self.entries.len();
        let ghost ev = self.view_entries();
        assert(ev.take(ev.len() as int) =~= ev);
        while i > 0
            invariant
                i <= self.entries@.len(),
                ev == entries_view(self.entries@),
                n@ == hashed@,
                lookup_plain(ev, hashed@) == lookup_plain(ev.take(i as int), hashed@),
            decreases i,
        {
            let e = &self.entries[i - 1];
            let ghost t = ev.take(i as int);
            proof {
                assert(t.drop_last() =~= ev.take(i - 1));
                assert(t.last() == (e.plain@, e.hashed@));
            }
            let h = chars_of(e.hashed.as_str());
            if chars_eq(&h, &n) {
                let o = e.plain.clone();
                assert(lookup_plain(t, hashed@) == Some(e.plain@));
                return Some(o);
            }
            assert(lookup_plain(t, hashed@) == lookup_plain(ev.take(i - 1), hashed@));
            i = i - 1;
        }
        None
    }
}

/// The entry of the asset map for one file: its path and its hashed path.
pub open spec fn asset_entry(f: AssetFile) -> (Seq<char>, Seq<char>) {
    (f.path@, hashed_path(
        match f.parent { Some(p) => Some(p@), None => None },
        f.file_name@,
        content_tag(f.contents@),
    ))
}

/// The asset map of a set of static files: each path maps to its hashed path.
pub fn build_asset_map(files: &[AssetFile]) -> (r: AssetMap)
    requires
        forall|i: int| 0 <= i < files@.len() ==> (#[trigger] files@[i]).file_name@.len() < isize::MAX,
    ensures
        r.view_entries().len() == files@.len(),
        forall|i: int| 0 <= i < files@.len() ==> #[trigger] r.view_entries()[i] == asset_entry(files@[i]),
{
    let mut map = AssetMap::new();
    let mut i: usize = 0;
    while i < files.len()
        invariant
            i <= files@.len(),
            forall|k: int| 0 <= k < files@.len() ==> (#[trigger] files@[k]).file_name@.len() < isize::MAX,
            map.view_entries().len() == i,
            forall|k: int| 0 <= k < i ==> #[trigger] map.view_entries()[k] == asset_entry(files@[k]),
        decreases files@.len() - i,
    {
        let f = &files[i];
        let tag = content_hash_tag(f.contents.as_slice());
        let parent: Option<&str> = match &f.parent {
            Some(p) => Some(p.as_str()),
            None => None,
        };
        let hashed = hashed_asset_path(parent, f.file_name.as_str(), tag.as_str());
        map.insert(f.path.clone(), hashed);
        i = i + 1;
    }
    map
}

/// `"/static/" + s`.
pub open spec fn static_url(s: Seq<char>) -> Seq<char> {
    "/static/"@ + s
}

/// The URL of a static asset for pages: its hashed path when the map knows
/// it, its plain path otherwise, under `/static/`.
pub fn asset_path(map: &AssetMap, name: &str) -> (r: String)
    ensures
        r@ == static_url(match lookup_hashed(map.view_entries(), name@) { Some(h) => h, None => name@ }),
{
    let mut r = owned("/static/");
    match map.hashed_of(name) {
        Some(h) => r.append(h.as_str()),
        None => r.append(name),
    }
    r
}

/// How long browsers may keep a served file.
#[derive(Debug, Clone, Copy, PartialEq, Eq)]
pub enum CachePolicy {
    /// A hashed path: keep for a year (`max-age=31536000, immutable`).
    Immutable,
    /// A plain path: revalidate after an hour (`max-age=3600, must-revalidate`).
    Short,
}

impl CachePolicy {
    /// The `Cache-Control` value.
    pub fn header_value(&self) -> (r: &'static str)
        ensures
            r@ == (match *self { CachePolicy::Immutable => "max-age=31536000, immutable"@, CachePolicy::Short => "max-age=3600, must-revalidate"@ }),
    {
        match self {
            CachePolicy::Immutable => "max-age=31536000, immutable",
            CachePolicy::Short => "max-age=3600, must-revalidate",
        }
    }
}

/// Which file a request path names and how long it may be cached: a hashed
/// path names the file it was made from and is cached for long; any other path
/// names itself.
pub fn resolve_static_path(map: &AssetMap, path: &str) -> (r: (String, CachePolicy))
    ensures
        match lookup_plain(map.view_entries(), path@) {
            Some(o) => r.0@ == o && r.1 == CachePolicy::Immutable,
            None => r.0@ == path@ && r.1 == CachePolicy::Short,
        },
{
    match map.plain_of(path) {
        Some(o) => (o, CachePolicy::Immutable),
        None => (owned(path), CachePolicy::Short),
    }
}

/// The `Content-Type` of a served file, from the extension of its name.
pub open spec fn content_type_of(file_name: Seq<char>) -> Seq<char> {
    match stem_and_ext(file_name).1 {
        Some(e) => if e == "css"@ {
            "text/css"@
        } else if e == "svg"@ {
            "image/svg+xml"@
        } else if e == "js"@ {
            "text/javascript"@
        } else {
            "application/octet-stream"@
        },
        None => "application/octet-stream"@,
    }
}

/// The `Content-Type` of a served file.
pub fn content_type_for(file_name: &str) -> (r: &'static str)
    requires
        file_name@.len() < isize::MAX,
    ensures
        r@ == content_type_of(file_name@),
{
    let name = chars_of(file_name);
    let d = find_last_dot(&name);
    proof {
        lemma_last_dot(name@);
        reveal_strlit("..");
        reveal_strlit("css");
        reveal_strlit("svg");
        reveal_strlit("js");
        assert(seq!['.', '.'] =~= ".."@);
        assert(seq!['c', 's', 's'] =~= "css"@);
        assert(seq!['s', 'v', 'g'] =~= "svg"@);
        assert(seq!['j', 's'] =~= "js"@);
    }
    if chars_eq(&name, &['.', '.']) || d <= 0 {
        return "application/octet-stream";
    }
    let du = d as usize;
    let mut ext: Vec<char> = Vec::new();
    let mut k: usize = du + 1;
    while k < name.len()
        invariant
            du + 1 <= k <= name@.len(),
            ext@ == name@.subrange(du + 1, k as int),
        decreases name@.len() - k,
    {
        ext.push(name[k]);
        assert(name@.subrange(du + 1, k as int).push(name@[k as int]) =~= name@.subrange(du + 1, k + 1));
        k = k + 1;
    }
    assert(ext@ =~= name@.skip(du + 1));
    if chars_eq(&ext, &['c', 's', 's']) {
        "text/css"
    } else if chars_eq(&ext, &['s', 'v', 'g']) {
        "image/svg+xml"
    } else if chars_eq(&ext, &['j', 's']) {
        "text/javascript"
    } else {
        "application/octet-stream"
    }
}

/// Law of the asset map: when no two entries share a hashed path, the path
/// served under the hashed path of a known asset is that asset.
pub proof fn lemma_hashed_round_trip(entries: Seq<(Seq<char>, Seq<char>)>, name: Seq<char>)
    requires
        forall|i: int, j: int| 0 <= i < j < entries.len() ==> entries[i].1 != entries[j].1,
        forall|i: int, j: int| 0 <= i < j < entries.len() ==> entries[i].0 != entries[j].0,
        lookup_hashed(entries, name) is Some,
    ensures
        lookup_plain(entries, lookup_hashed(entries, name)->0) == Some(name),
    decreases entries.len(),
{
    let last = entries.last();
    let rest = entries.drop_last();
    if last.0 == name {
    } else {
        assert forall|i: int, j: int| 0 <= i < j < rest.len() implies rest[i].1 != rest[j].1 by {
            assert(rest[i] == entries[i] && rest[j] == entries[j]);
        }
        assert forall|i: int, j: int| 0 <= i < j < rest.len() implies rest[i].0 != rest[j].0 by {
            assert(rest[i] == entries[i] && rest[j] == entries[j]);
        }
        lemma_hashed_round_trip(rest, name);
        let h = lookup_hashed(rest, name)->0;
        lemma_lookup_hashed_index(rest, name);
        let k = choose|k: int| 0 <= k < rest.len() && rest[k] == (name, h);
        assert(entries[k] == rest[k]);
        assert(last == entries[entries.len() - 1]);
        assert(entries[k].1 != entries[entries.len() - 1].1);
    }
}

/// Law of the asset map built from static files: when no two files share a
/// path and no two share a hashed path, the page URL of each file is
/// `/static/` and its hashed path, and a request for that hashed path is
/// answered with that file, cached for long.
pub proof fn lemma_asset_map_serves_files(files: Seq<AssetFile>, entries: Seq<(Seq<char>, Seq<char>)>, i: int)
    requires
        entries.len() == files.len(),
        forall|k: int| 0 <= k < files.len() ==> #[trigger] entries[k] == asset_entry(files[k]),
        forall|k: int, l: int| 0 <= k < l < files.len() ==> files[k].path@ != files[l].path@,
        forall|k: int, l: int| 0 <= k < l < files.len() ==> asset_entry(files[k]).1 != asset_entry(files[l]).1,
        0 <= i < files.len(),
    ensures
        lookup_hashed(entries, files[i].path@) == Some(asset_entry(files[i]).1),
        lookup_plain(entries, asset_entry(files[i]).1) == Some(files[i].path@),
{
    assert forall|k: int, l: int| 0 <= k < l < entries.len() implies entries[k].0 != entries[l].0 by {
        assert(entries[k] == asset_entry(files[k]) && entries[l] == asset_entry(files[l]));
    }
    assert forall|k: int, l: int| 0 <= k < l < entries.len() implies entries[k].1 != entries[l].1 by {
        assert(entries[k] == asset_entry(files[k]) && entries[l] == asset_entry(files[l]));
    }
    assert(entries[i] == asset_entry(files[i]));
    lemma_lookup_distinct(entries, i);
}

/// With no repeated path and no repeated hashed path, each entry is found
/// by its path and by its hashed path.
pub proof fn lemma_lookup_distinct(entries: Seq<(Seq<char>, Seq<char>)>, i: int)
    requires
        forall|k: int, l: int| 0 <= k < l < entries.len() ==> entries[k].0 != entries[l].0,
        forall|k: int, l: int| 0 <= k < l < entries.len() ==> entries[k].1 != entries[l].1,
        0 <= i < entries.len(),
    ensures
        lookup_hashed(entries, entries[i].0) == Some(entries[i].1),
        lookup_plain(entries, entries[i].1) == Some(entries[i].0),
    decreases entries.len(),
{
    let n = entries.len() - 1;
    if i < n {
        let rest = entries.drop_last();
        assert(rest[i] == entries[i]);
        assert(entries.last() == entries[n]);
        assert forall|k: int, l: int| 0 <= k < l < rest.len() implies rest[k].0 != rest[l].0 by {
            assert(rest[k] == entries[k] && rest[l] == entries[l]);
        }
        assert forall|k: int, l: int| 0 <= k < l < rest.len() implies rest[k].1 != rest[l].1 by {
            assert(rest[k] == entries[k] && rest[l] == entries[l]);
        }
        lemma_lookup_distinct(rest, i);
    }
}

/// Lemma: a found hashed path comes from an entry.
pub proof fn lemma_lookup_hashed_index(entries: Seq<(Seq<char>, Seq<char>)>, name: Seq<char>)
    requires
        lookup_hashed(entries, name) is Some,
    ensures
        exists|k: int| 0 <= k < entries.len() && entries[k] == (name, lookup_hashed(entries, name)->0),
    decreases entries.len(),
{
    if entries.last().0 == name {
        assert(entries[entries.len() - 1] == (name, lookup_hashed(entries, name)->0));
    } else {
        lemma_lookup_hashed_index(entries.drop_last(), name);
        let k = choose|k: int| 0 <= k < entries.drop_last().len() && entries.drop_last()[k] == (name, lookup_hashed(entries.drop_last(), name)->0);
        assert(entries[k] == entries.drop_last()[k]);
    }
}

} // verus!
