//! Choosing the questions of a new quiz session.
//!
//! A session asks a number of questions picked from a quiz.  In the
//! `unanswered` and `incorrect` modes a preferred pool is shuffled and used
//! first; when it holds too few questions the rest is filled, in shuffled
//! order, from all questions of the quiz that are not in the pool.  In the
//! `random` mode all questions are shuffled and the first ones are taken.
use rand::rngs::StdRng;
use rand::seq::SliceRandom;
use rand::SeedableRng;
use std::collections::HashSet;
use vstd::prelude::*;
use vstd::multiset::*;

use crate::text::{chars_eq, chars_of, owned, string_from_chars};

verus! {

broadcast use vstd::seq_lib::group_seq_properties, vstd::seq_lib::group_to_multiset_ensures, vstd::std_specs::hash::group_hash_axioms;

/// Smallest number of questions a session may hold.
pub const MIN_QUESTION_COUNT: i32 = 5;

/// Largest number of questions a session may hold.
pub const MAX_QUESTION_COUNT: i32 = 30;

/// Number of questions a session holds when none is requested.
pub const DEFAULT_QUESTION_COUNT: i32 = 10;

/// The number of questions a new session asks for a requested count.
pub open spec fn clamped_count(requested: int) -> int {
    if requested < MIN_QUESTION_COUNT {
        MIN_QUESTION_COUNT as int
    } else if requested > MAX_QUESTION_COUNT {
        MAX_QUESTION_COUNT as int
    } else {
        requested
    }
}

/// Clamps a requested question count into `MIN_QUESTION_COUNT..=MAX_QUESTION_COUNT`.
pub fn clamp_question_count(requested: i32) -> (r: i32)
    ensures
        r == clamped_count(requested as int),
        MIN_QUESTION_COUNT <= r <= MAX_QUESTION_COUNT,
{
    if requested < MIN_QUESTION_COUNT {
        MIN_QUESTION_COUNT
    } else if requested > MAX_QUESTION_COUNT {
        MAX_QUESTION_COUNT
    } else {
        requested
    }
}

/// The question count used when a request names none.
pub fn default_question_count() -> (r: i32)
    ensures
        r == DEFAULT_QUESTION_COUNT,
{
    DEFAULT_QUESTION_COUNT
}

/// The name of the mode that picks questions never asked before.
pub open spec fn mode_unanswered() -> Seq<char> {
    seq!['u', 'n', 'a', 'n', 's', 'w', 'e', 'r', 'e', 'd']
}

/// The name of the mode that picks questions answered wrongly before.
pub open spec fn mode_incorrect() -> Seq<char> {
    seq!['i', 'n', 'c', 'o', 'r', 'r', 'e', 'c', 't']
}

/// The name of the mode that picks questions at random.
pub open spec fn mode_random() -> Seq<char> {
    seq!['r', 'a', 'n', 'd', 'o', 'm']
}

/// The name of the mode of sessions made of bookmarked questions.
pub open spec fn mode_bookmarked() -> Seq<char> {
    seq!['b', 'o', 'o', 'k', 'm', 'a', 'r', 'k', 'e', 'd']
}

/// Whether a mode name is one that a user may choose when starting a session.
pub open spec fn is_selectable_mode(mode: Seq<char>) -> bool {
    mode == mode_unanswered() || mode == mode_incorrect() || mode == mode_random()
}

/// The mode a session is started with for a requested mode name.
pub open spec fn normalized_mode(mode: Seq<char>) -> Seq<char> {
    if is_selectable_mode(mode) {
        mode
    } else {
        mode_unanswered()
    }
}

/// The name `unanswered`.
pub fn unanswered_mode() -> (r: String)
    ensures
        r@ == mode_unanswered(),
{
    string_from_chars(&['u', 'n', 'a', 'n', 's', 'w', 'e', 'r', 'e', 'd'])
}

/// The name `incorrect`.
pub fn incorrect_mode() -> (r: String)
    ensures
        r@ == mode_incorrect(),
{
    string_from_chars(&['i', 'n', 'c', 'o', 'r', 'r', 'e', 'c', 't'])
}

/// The name `random`.
pub fn random_mode() -> (r: String)
    ensures
        r@ == mode_random(),
{
    string_from_chars(&['r', 'a', 'n', 'd', 'o', 'm'])
}

/// The name `bookmarked`.
pub fn bookmarked_mode() -> (r: String)
    ensures
        r@ == mode_bookmarked(),
{
    string_from_chars(&['b', 'o', 'o', 'k', 'm', 'a', 'r', 'k', 'e', 'd'])
}

/// The selection mode used when a request names none.
pub fn default_selection_mode() -> (r: String)
    ensures
        r@ == mode_unanswered(),
{
    unanswered_mode()
}

/// The mode a new session uses: the requested one when it is selectable,
/// `unanswered` otherwise.
pub fn normalize_selection_mode(mode: &str) -> (r: String)
    ensures
        r@ == normalized_mode(mode@),
{
    let m = chars_of(mode);
    let u = unanswered_mode();
    let i = incorrect_mode();
    let r = random_mode();
    let uc = chars_of(u.as_str());
    let ic = chars_of(i.as_str());
    let rc = chars_of(r.as_str());
    if chars_eq(&m, &uc) || chars_eq(&m, &ic) || chars_eq(&m, &rc) {
        owned(mode)
    } else {
        u
    }
}

/// `s` cut to at most `count` elements, as `Vec::truncate(count as usize)`
/// does: a negative count keeps everything.
pub open spec fn take_upto(s: Seq<i32>, count: int) -> Seq<i32> {
    if count < 0 || count >= s.len() {
        s
    } else {
        s.take(count)
    }
}

/// The questions of `all` that are not in `pool`, in their order in `all`.
pub open spec fn outside_pool(all: Seq<i32>, pool: Seq<i32>) -> Seq<i32> {
    all.filter(|x: i32| !pool.contains(x))
}

/// The questions of a session drawn from a (shuffled) preferred pool and the
/// (shuffled) list of all questions: the pool first, cut to `count`; when the
/// pool is too small, filled up from the questions outside it.
pub open spec fn chosen(pool: Seq<i32>, all: Seq<i32>, count: int) -> Seq<i32> {
    if pool.len() >= count {
        take_upto(pool, count)
    } else {
        pool + take_upto(outside_pool(all, pool), count - pool.len())
    }
}

/// Whether `v` holds the given value.
pub fn contains_id(v: &[i32], x: i32) -> (r: bool)
    ensures
        r == v@.contains(x),
{
    let mut i: usize = 0;
    while i < v.len()
        invariant
            i <= v@.len(),
            forall|j: int| 0 <= j < i ==> v@[j] != x,
        decreases v@.len() - i,
    {
        if v[i] == x {
            assert(v@[i as int] == x);
            return true;
        }
        i = i + 1;
    }
    false
}

/// The first `count` elements of `v` (all of them when `count` is negative
/// or too large).
pub fn truncated(v: Vec<i32>, count: i32) -> (r: Vec<i32>)
    ensures
        r@ == take_upto(v@, count as int),
{
    let mut v = v;
    if count >= 0 && (count as usize) < v.len() {
        v.truncate(count as usize);
    }
    v
}

/// The ids of `v` as a set.
pub fn id_set(v: &[i32]) -> (r: HashSet<i32>)
    ensures
        r@ == v@.to_set(),
{
    let mut set: HashSet<i32> = HashSet::new();
    let mut i: usize = 0;
    while i < v.len()
        invariant
            i <= v@.len(),
            set@ == v@.take(i as int).to_set(),
        decreases v@.len() - i,
    {
        assert(v@.take(i + 1) =~= v@.take(i as int).push(v@[i as int]));
        proof {
            v@.take(i as int).lemma_push_to_set_commute(v@[i as int]);
        }
        set.insert(v[i]);
        i = i + 1;
    }
    assert(v@.take(v@.len() as int) =~= v@);
    set
}

/// The questions of `all` that are not in `pool`, in their order in `all`.
pub fn ids_outside_pool(all: &[i32], pool: &[i32]) -> (r: Vec<i32>)
    ensures
        r@ == outside_pool(all@, pool@),
{
    let ghost pred = |x: i32| !pool@.contains(x);
    let already_selected = id_set(pool);
    let mut r: Vec<i32> = Vec::new();
    let mut i: usize = 0;
    while i < all.len()
        invariant
            i <= all@.len(),
            pred == (|x: i32| !pool@.contains(x)),
            already_selected@ == pool@.to_set(),
            r@ == all@.take(i as int).filter(pred),
        decreases all@.len() - i,
    {
        reveal_with_fuel(Seq::<_>::filter, 1);
        assert(all@.take(i + 1).drop_last() =~= all@.take(i as int));
        let x = all[i];
        if !already_selected.contains(&x) {
            r.push(x);
        }
        i = i + 1;
    }
    assert(all@.take(all@.len() as int) =~= all@);
    r
}

/// The questions of a session, from an already shuffled preferred pool and an
/// already shuffled list of all questions of the quiz.
pub fn choose_questions(pool: Vec<i32>, all_ids: &[i32], count: i32) -> (r: Vec<i32>)
    requires
        pool@.len() <= i32::MAX,
    ensures
        r@ == chosen(pool@, all_ids@, count as int),
{
    if (pool.len() as i32) >= count {
        truncated(pool, count)
    } else {
        let needed: i32 = count - (pool.len() as i32);
        let fill = ids_outside_pool(all_ids, pool.as_slice());
        let fill = truncated(fill, needed);
        let mut out = pool;
        let mut j: usize = 0;
        let ghost start = out@;
        while j < fill.len()
            invariant
                j <= fill@.len(),
                out@ == start + fill@.take(j as int),
            decreases fill@.len() - j,
        {
            out.push(fill[j]);
            assert(start + fill@.take(j as int).push(fill@[j as int]) =~= start + fill@.take(j + 1));
            j = j + 1;
        }
        assert(fill@.take(fill@.len() as int) =~= fill@);
        out
    }
}

/// The order that a generator seeded with `seed` gives `ids` with its first
/// shuffle.
pub uninterp spec fn shuffled_by_seed(ids: Seq<i32>, seed: i32) -> Seq<i32>;

/// The order that the same generator gives `ids` with its second shuffle,
/// after its first shuffle was of `first`.
pub uninterp spec fn shuffled_after(first: Seq<i32>, ids: Seq<i32>, seed: i32) -> Seq<i32>;

/// `StdRng::seed_from_u64` (rand) on the seed widened to `u64`, then
/// `SliceRandom::shuffle` of `first` and of `second` with that generator.
/// rand documents that a seeded `StdRng` draws the same values for the same
/// seed, and a shuffle draws one index per position, so each order is fixed
/// by the seed and the lists before it: the first by `seed` and `first`, the
/// second by `seed`, `first` and `second`.  A shuffle only swaps elements,
/// so each list keeps its elements, each as often as before.
#[verifier::external_body]
fn seeded_shuffles(seed: i32, first: &mut Vec<i32>, second: &mut Vec<i32>)
    ensures
        final(first)@ == shuffled_by_seed(old(first)@, seed),
        final(second)@ == shuffled_after(old(first)@, old(second)@, seed),
        final(first)@.to_multiset() == old(first)@.to_multiset(),
        final(second)@.to_multiset() == old(second)@.to_multiset(),
{
    let mut rng = StdRng::seed_from_u64(seed as u64);
    first.as_mut_slice().shuffle(&mut rng);
    second.as_mut_slice().shuffle(&mut rng);
}

/// `rand::random::<i32>()`: a fresh seed from the thread-local generator.
/// Any value may come back.
#[verifier::external_body]
fn fresh_seed() -> i32 {
    rand::random::<i32>()
}

/// Whether `s` is some reordering of `t`.
pub open spec fn is_reordering(s: Seq<i32>, t: Seq<i32>) -> bool {
    s.to_multiset() == t.to_multiset()
}

/// What a call of [`select_questions`] may return: in the `unanswered` and
/// `incorrect` modes the choice over some reordering of the pool and of all
/// questions; in any other mode some reordering of all questions cut to
/// `count`.
pub open spec fn is_selection(r: Seq<i32>, pool: Seq<i32>, all: Seq<i32>, count: int, mode: Seq<char>) -> bool {
    if mode == mode_unanswered() || mode == mode_incorrect() {
        exists|sp: Seq<i32>, sa: Seq<i32>|
            #![trigger is_reordering(sp, pool), is_reordering(sa, all)]
            is_reordering(sp, pool) && is_reordering(sa, all) && r == chosen(sp, sa, count)
    } else {
        exists|sa: Seq<i32>| #![trigger is_reordering(sa, all)] is_reordering(sa, all) && r == take_upto(sa, count)
    }
}

/// The questions a session with seed `seed` asks: in the `unanswered` and
/// `incorrect` modes the choice over the pool in its first seeded order and
/// all questions in their second; in any other mode all questions in their
/// first seeded order, cut to `count`.
pub open spec fn seeded_selection(pool: Seq<i32>, all: Seq<i32>, count: int, mode: Seq<char>, seed: i32) -> Seq<i32> {
    if mode == mode_unanswered() || mode == mode_incorrect() {
        chosen(shuffled_by_seed(pool, seed), shuffled_after(pool, all, seed), count)
    } else {
        take_upto(shuffled_by_seed(all, seed), count)
    }
}

/// Picks the questions of a new session.
///
/// `pool` is the preferred pool of the mode (the questions never asked for
/// `unanswered`, those answered wrongly for `incorrect`; ignored by other
/// modes) and `all_ids` every question of the quiz.  The generator is seeded
/// with `shuffle_seed`; in the `unanswered` and `incorrect` modes the pool is
/// shuffled first and all questions next, in the other modes all questions
/// are shuffled first.
pub fn select_questions(pool: Vec<i32>, all_ids: Vec<i32>, count: i32, mode: &str, shuffle_seed: i32) -> (r: Vec<i32>)
    requires
        pool@.len() <= i32::MAX,
    ensures
        r@ == seeded_selection(pool@, all_ids@, count as int, mode@, shuffle_seed),
        is_selection(r@, pool@, all_ids@, count as int, mode@),
{
    let ghost pool0 = pool@;
    let ghost all0 = all_ids@;
    let m = chars_of(mode);
    let u = unanswered_mode();
    let i = incorrect_mode();
    let uc = chars_of(u.as_str());
    let ic = chars_of(i.as_str());
    if chars_eq(&m, &uc) || chars_eq(&m, &ic) {
        let mut pool = pool;
        let mut all = all_ids;
        seeded_shuffles(shuffle_seed, &mut pool, &mut all);
        proof {
            lemma_reordering_len(pool@, pool0);
        }
        let r = choose_questions(pool, all.as_slice(), count);
        assert(is_reordering(shuffled_by_seed(pool0, shuffle_seed), pool0));
        assert(is_reordering(shuffled_after(pool0, all0, shuffle_seed), all0));
        assert(mode@ == mode_unanswered() || mode@ == mode_incorrect());
        assert(is_selection(r@, pool0, all0, count as int, mode@));
        r
    } else {
        let mut all = all_ids;
        let mut none: Vec<i32> = Vec::new();
        seeded_shuffles(shuffle_seed, &mut all, &mut none);
        let r = truncated(all, count);
        assert(is_reordering(shuffled_by_seed(all0, shuffle_seed), all0));
        assert(!(mode@ == mode_unanswered() || mode@ == mode_incorrect()));
        assert(is_selection(r@, pool0, all0, count as int, mode@));
        r
    }
}

/// A reordering is as long as the sequence it reorders.
pub proof fn lemma_reordering_len(s: Seq<i32>, t: Seq<i32>)
    requires
        is_reordering(s, t),
    ensures
        s.len() == t.len(),
{
    s.to_multiset_ensures();
    t.to_multiset_ensures();
}

/// Picks the questions of a new session with a fresh random seed, and returns
/// the seed with the questions.
pub fn select_questions_with_fresh_seed(pool: Vec<i32>, all_ids: Vec<i32>, count: i32, mode: &str) -> (r: (i32, Vec<i32>))
    requires
        pool@.len() <= i32::MAX,
    ensures
        r.1@ == seeded_selection(pool@, all_ids@, count as int, mode@, r.0),
        is_selection(r.1@, pool@, all_ids@, count as int, mode@),
{
    let seed = fresh_seed();
    let ids = select_questions(pool, all_ids, count, mode, seed);
    (seed, ids)
}

/// The ids of `s` with every repetition dropped, first occurrences kept in order.
pub open spec fn deduplicated(s: Seq<i32>) -> Seq<i32> {
    s.remove_duplicates(Seq::empty())
}

/// Drops repeated question ids, keeping the first occurrence of each in order.
pub fn dedupe_question_ids(ids: &[i32]) -> (r: Vec<i32>)
    ensures
        r@ == deduplicated(ids@),
{
    let mut seen: HashSet<i32> = HashSet::new();
    let mut out: Vec<i32> = Vec::new();
    let mut i: usize = 0;
    while i < ids.len()
        invariant
            i <= ids@.len(),
            ids@.skip(i as int).remove_duplicates(out@) == deduplicated(ids@),
            seen@ == out@.to_set(),
        decreases ids@.len() - i,
    {
        let x = ids[i];
        assert(ids@.skip(i as int)[0] == x);
        assert(ids@.skip(i as int).skip(1) =~= ids@.skip(i + 1));
        proof {
            out@.lemma_push_to_set_commute(x);
        }
        if seen.insert(x) {
            assert(out@ + seq![x] =~= out@.push(x));
            out.push(x);
        }
        i = i + 1;
    }
    assert(ids@.skip(ids@.len() as int) =~= Seq::<i32>::empty());
    assert(ids@.skip(0) =~= ids@);
    out
}

/// Filtering keeps a sequence free of repetitions.
pub proof fn lemma_filter_no_duplicates(s: Seq<i32>, p: spec_fn(i32) -> bool)
    requires
        s.no_duplicates(),
    ensures
        s.filter(p).no_duplicates(),
    decreases s.len(),
{
    reveal_with_fuel(Seq::<_>::filter, 1);
    if s.len() > 0 {
        let rest = s.drop_last();
        assert(rest.no_duplicates());
        lemma_filter_no_duplicates(rest, p);
        if p(s.last()) {
            if rest.filter(p).contains(s.last()) {
                rest.lemma_filter_contains_rev(p, s.last());
                let k = choose|k: int| 0 <= k < rest.len() && rest[k] == s.last();
                assert(s[k] == s[s.len() - 1]);
            }
        }
    }
}

/// A sequence splits by a predicate into the elements that meet it and those
/// that do not.
pub proof fn lemma_filter_partition_len(s: Seq<i32>, p: spec_fn(i32) -> bool, q: spec_fn(i32) -> bool)
    requires
        forall|x: i32| #[trigger] q(x) == !p(x),
    ensures
        s.filter(p).len() + s.filter(q).len() == s.len(),
    decreases s.len(),
{
    reveal_with_fuel(Seq::<_>::filter, 1);
    if s.len() > 0 {
        lemma_filter_partition_len(s.drop_last(), p, q);
    }
}

/// Membership in a filtered sequence.
pub proof fn lemma_filter_membership(s: Seq<i32>, p: spec_fn(i32) -> bool, x: i32)
    ensures
        s.filter(p).contains(x) <==> (s.contains(x) && p(x)),
{
    broadcast use vstd::seq_lib::group_filter_ensures;
    if s.filter(p).contains(x) {
        s.lemma_filter_contains_rev(p, x);
        let k = choose|k: int| 0 <= k < s.filter(p).len() && s.filter(p)[k] == x;
        assert(p(s.filter(p)[k]));
    }
    if s.contains(x) && p(x) {
        let k = choose|k: int| 0 <= k < s.len() && s[k] == x;
        s.lemma_filter_contains(p, k);
    }
}

/// The prefix kept by `take_upto` has no repetitions when the whole had none,
/// and holds only elements of the whole.
pub proof fn lemma_take_upto_props(s: Seq<i32>, count: int)
    ensures
        s.no_duplicates() ==> take_upto(s, count).no_duplicates(),
        forall|x: i32| #[trigger] take_upto(s, count).contains(x) ==> s.contains(x),
        take_upto(s, count).len() == (if count < 0 || count >= s.len() { s.len() as int } else { count }),
{
    assert forall|x: i32| #[trigger] take_upto(s, count).contains(x) implies s.contains(x) by {
        let k = choose|k: int| 0 <= k < take_upto(s, count).len() && take_upto(s, count)[k] == x;
        assert(s[k] == x);
    }
}

/// Selection law: when neither the pool nor the list of all questions repeats
/// an id, the chosen questions repeat none either.
pub proof fn lemma_chosen_no_duplicates(pool: Seq<i32>, all: Seq<i32>, count: int)
    requires
        pool.no_duplicates(),
        all.no_duplicates(),
    ensures
        chosen(pool, all, count).no_duplicates(),
{
    lemma_take_upto_props(pool, count);
    if pool.len() < count {
        let p = |x: i32| !pool.contains(x);
        let fill = outside_pool(all, pool);
        lemma_filter_no_duplicates(all, p);
        lemma_take_upto_props(fill, count - pool.len());
        let t = take_upto(fill, count - pool.len());
        assert forall|i: int, j: int| 0 <= i < pool.len() && 0 <= j < t.len() implies pool[i] != t[j] by {
            assert(t.contains(t[j]));
            assert(fill.contains(t[j]));
            lemma_filter_membership(all, p, t[j]);
            assert(pool.contains(pool[i]));
        }
        vstd::seq_lib::lemma_no_dup_in_concat(pool, t);
    }
}

/// Selection law: every chosen question comes from the pool or from the list
/// of all questions; when the pool holds at least `count` questions
/// (`count >= 0`), all chosen questions come from the pool, and when it holds
/// fewer, every question of the pool is chosen.
pub proof fn lemma_chosen_membership(pool: Seq<i32>, all: Seq<i32>, count: int)
    ensures
        forall|x: i32| #[trigger] chosen(pool, all, count).contains(x) ==> pool.contains(x) || all.contains(x),
        0 <= count <= pool.len() ==> forall|x: i32| #[trigger] chosen(pool, all, count).contains(x) ==> pool.contains(x),
        pool.len() < count ==> forall|x: i32| pool.contains(x) ==> #[trigger] chosen(pool, all, count).contains(x),
{
    lemma_take_upto_props(pool, count);
    let p = |x: i32| !pool.contains(x);
    let fill = outside_pool(all, pool);
    lemma_take_upto_props(fill, count - pool.len());
    assert forall|x: i32| #[trigger] chosen(pool, all, count).contains(x) implies pool.contains(x) || all.contains(x) by {
        if pool.len() < count {
            let t = take_upto(fill, count - pool.len());
            if !pool.contains(x) {
                let k = choose|k: int| 0 <= k < (pool + t).len() && (pool + t)[k] == x;
                if k >= pool.len() {
                    assert(t[k - pool.len()] == x);
                    assert(t.contains(x));
                    lemma_filter_membership(all, p, x);
                } else {
                    assert(pool[k] == x);
                }
            }
        }
    }
    assert forall|x: i32| pool.len() < count && pool.contains(x) implies #[trigger] chosen(pool, all, count).contains(x) by {
        let t = take_upto(fill, count - pool.len());
        let k = choose|k: int| 0 <= k < pool.len() && pool[k] == x;
        assert((pool + t)[k] == x);
    }
}

/// Two repetition-free sequences with the same elements have the same length.
pub proof fn lemma_same_elements_same_len(a: Seq<i32>, b: Seq<i32>)
    requires
        a.no_duplicates(),
        b.no_duplicates(),
        forall|x: i32| a.contains(x) <==> b.contains(x),
    ensures
        a.len() == b.len(),
{
    a.unique_seq_to_set();
    b.unique_seq_to_set();
    assert(a.to_set() =~= b.to_set());
}

/// Selection law: when the pool is part of the list of all questions and
/// neither repeats an id, a session with a non-negative `count` asks
/// `min(count, all.len())` questions.
pub proof fn lemma_chosen_len(pool: Seq<i32>, all: Seq<i32>, count: int)
    requires
        pool.no_duplicates(),
        all.no_duplicates(),
        forall|x: i32| pool.contains(x) ==> all.contains(x),
        count >= 0,
    ensures
        chosen(pool, all, count).len() == (if count < all.len() { count } else { all.len() as int }),
{
    let p = |x: i32| !pool.contains(x);
    let q = |x: i32| pool.contains(x);
    let fill = outside_pool(all, pool);
    let inside = all.filter(q);
    lemma_filter_partition_len(all, q, p);
    lemma_filter_no_duplicates(all, q);
    assert forall|x: i32| inside.contains(x) <==> pool.contains(x) by {
        lemma_filter_membership(all, q, x);
    }
    lemma_same_elements_same_len(inside, pool);
    assert(fill.len() == all.len() - pool.len());
    lemma_take_upto_props(pool, count);
    lemma_take_upto_props(fill, count - pool.len());
}

/// Selection law for whole selections: whatever order the shuffles produced,
/// a session picked from repetition-free lists repeats no question; for a
/// pool inside the list of all questions every question asked is a question
/// of the quiz, and (with `count >= 0`) it asks `min(count, all.len())`
/// questions.  In the `unanswered` and `incorrect`
/// modes a pool of at least `count` questions supplies every question, and a
/// smaller pool is asked in full.
pub proof fn lemma_selection_laws(r: Seq<i32>, pool: Seq<i32>, all: Seq<i32>, count: int, mode: Seq<char>)
    requires
        is_selection(r, pool, all, count, mode),
        pool.no_duplicates(),
        all.no_duplicates(),
    ensures
        r.no_duplicates(),
        (forall|x: i32| pool.contains(x) ==> all.contains(x))
            ==> forall|x: i32| #[trigger] r.contains(x) ==> all.contains(x),
        (forall|x: i32| pool.contains(x) ==> all.contains(x)) && count >= 0
            ==> r.len() == (if count < all.len() { count } else { all.len() as int }),
        (mode == mode_unanswered() || mode == mode_incorrect()) && 0 <= count <= pool.len()
            ==> forall|x: i32| #[trigger] r.contains(x) ==> pool.contains(x),
        (mode == mode_unanswered() || mode == mode_incorrect()) && pool.len() < count
            ==> forall|x: i32| pool.contains(x) ==> #[trigger] r.contains(x),
        (mode == mode_unanswered() || mode == mode_incorrect()) && 0 <= count <= pool.len()
            ==> r.len() == count,
        (mode == mode_unanswered() || mode == mode_incorrect()) && pool.len() < count
            ==> is_reordering(r.take(pool.len() as int), pool)
                && forall|x: i32| #[trigger] r.skip(pool.len() as int).contains(x) ==> all.contains(x) && !pool.contains(x),
{
    if mode == mode_unanswered() || mode == mode_incorrect() {
        let (sp, sa) = choose|sp: Seq<i32>, sa: Seq<i32>|
            #![trigger is_reordering(sp, pool), is_reordering(sa, all)]
            is_reordering(sp, pool) && is_reordering(sa, all) && r == chosen(sp, sa, count);
        lemma_reordering_props(sp, pool);
        lemma_reordering_props(sa, all);
        lemma_chosen_no_duplicates(sp, sa, count);
        lemma_chosen_membership(sp, sa, count);
        lemma_take_upto_props(sp, count);
        if pool.len() < count {
            let p = |x: i32| !sp.contains(x);
            let t = take_upto(outside_pool(sa, sp), count - sp.len());
            lemma_take_upto_props(outside_pool(sa, sp), count - sp.len());
            assert(r.take(pool.len() as int) =~= sp);
            assert(r.skip(pool.len() as int) =~= t);
            assert forall|x: i32| #[trigger] r.skip(pool.len() as int).contains(x) implies all.contains(x) && !pool.contains(x) by {
                lemma_filter_membership(sa, p, x);
            }
        }
        if (forall|x: i32| pool.contains(x) ==> all.contains(x)) && count >= 0 {
            lemma_chosen_len(sp, sa, count);
        }
    } else {
        let sa = choose|sa: Seq<i32>| #![trigger is_reordering(sa, all)] is_reordering(sa, all) && r == take_upto(sa, count);
        lemma_reordering_props(sa, all);
        lemma_take_upto_props(sa, count);
    }
}

/// A reordering keeps the length, the elements, and freedom from repetition.
pub proof fn lemma_reordering_props(s: Seq<i32>, t: Seq<i32>)
    requires
        is_reordering(s, t),
    ensures
        s.len() == t.len(),
        forall|x: i32| s.contains(x) <==> t.contains(x),
        t.no_duplicates() ==> s.no_duplicates(),
{
    s.to_multiset_ensures();
    t.to_multiset_ensures();
    assert forall|x: i32| s.contains(x) <==> t.contains(x) by {
        assert(s.to_multiset().count(x) == t.to_multiset().count(x));
    }
    if t.no_duplicates() {
        t.lemma_multiset_has_no_duplicates();
        s.lemma_multiset_has_no_duplicates_conv();
    }
}

/// Law of de-duplication: the result repeats no id, holds exactly the ids of
/// the input, is no longer than the input, and de-duplicating it again
/// changes nothing.
pub proof fn lemma_deduplicated_laws(s: Seq<i32>)
    ensures
        deduplicated(s).no_duplicates(),
        forall|x: i32| #[trigger] deduplicated(s).contains(x) <==> s.contains(x),
        deduplicated(deduplicated(s)) == deduplicated(s),
        deduplicated(s).len() <= s.len(),
{
    lemma_remove_duplicates_from(s, Seq::empty());
    s.lemma_remove_duplicates_properties(Seq::empty());
    assert(s + Seq::<i32>::empty() =~= s);
    lemma_remove_duplicates_of_distinct(deduplicated(s), Seq::empty());
    assert(Seq::<i32>::empty() + deduplicated(s) =~= deduplicated(s));
}

/// Removing repetitions after a repetition-free `seen` gives a
/// repetition-free sequence.
pub proof fn lemma_remove_duplicates_from(s: Seq<i32>, seen: Seq<i32>)
    requires
        seen.no_duplicates(),
    ensures
        s.remove_duplicates(seen).no_duplicates(),
    decreases s.len(),
{
    if s.len() > 0 {
        if seen.contains(s[0]) {
            lemma_remove_duplicates_from(s.skip(1), seen);
        } else {
            let seen2 = seen + seq![s[0]];
            assert forall|i: int, j: int| 0 <= i < seen2.len() && 0 <= j < seen2.len() && i != j implies seen2[i] != seen2[j] by {
                if i < seen.len() && j == seen.len() {
                    assert(seen.contains(seen[i]));
                }
                if j < seen.len() && i == seen.len() {
                    assert(seen.contains(seen[j]));
                }
            }
            lemma_remove_duplicates_from(s.skip(1), seen2);
        }
    }
}

/// Removing repetitions from a repetition-free sequence disjoint from
/// `seen` appends it to `seen` unchanged.
pub proof fn lemma_remove_duplicates_of_distinct(s: Seq<i32>, seen: Seq<i32>)
    requires
        s.no_duplicates(),
        forall|x: i32| s.contains(x) ==> !seen.contains(x),
    ensures
        s.remove_duplicates(seen) == seen + s,
    decreases s.len(),
{
    if s.len() == 0 {
        assert(seen + s =~= seen);
    } else {
        assert(s.contains(s[0]));
        let seen2 = seen + seq![s[0]];
        let rest = s.skip(1);
        assert forall|x: i32| rest.contains(x) implies !seen2.contains(x) by {
            let k = choose|k: int| 0 <= k < rest.len() && rest[k] == x;
            assert(s[k + 1] == x);
            assert(s.contains(x));
            if x == s[0] {
                assert(s[0] == s[k + 1]);
            }
            if seen2.contains(x) {
                let m = choose|m: int| 0 <= m < seen2.len() && seen2[m] == x;
                if m < seen.len() {
                    assert(seen.contains(x));
                }
            }
        }
        lemma_remove_duplicates_of_distinct(rest, seen2);
        assert(seen2 + rest =~= seen + s);
    }
}

} // verus!
