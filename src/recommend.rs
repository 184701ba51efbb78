//! Choosing what a request is served: match the catalog against the
//! preferences, leave out what the user was already served unless too little
//! is left, draw at random, and remember what was drawn.

use vstd::prelude::*;
use crate::content::{
    copy_contents, filter_matching, is_match, matching, shares_genre, shuffle_contents, texts,
    views, Content, ContentView, PreferencesView, UserPreferences,
};
use crate::user_key::{lemma_user_key_order_independent, user_key};
use crate::rotation::{eligible, exhausted, seen_under, titles, unseen, RotationStore, ROTATION_FLOOR};

verus! {

/// The most entries one request is served.
pub const MAX_RECOMMENDATIONS: usize = 20;

/// How many entries a pool of `n` yields.
pub open spec fn served_count(n: int) -> int {
    if n < MAX_RECOMMENDATIONS {
        n
    } else {
        MAX_RECOMMENDATIONS as int
    }
}

/// The titles a user's rotation keeps before new ones are added: none after
/// a reset, else those already served.
pub open spec fn kept_titles(rotation: Map<u64, Set<Seq<char>>>, key: u64, reset: bool) -> Set<
    Seq<char>,
> {
    if reset {
        Set::empty()
    } else {
        seen_under(rotation, key)
    }
}

/// An element of a filtered sequence comes from the sequence and meets the
/// filter's predicate.
proof fn lemma_member_of_filter<A>(s: Seq<A>, p: spec_fn(A) -> bool, x: A)
    requires
        s.filter(p).contains(x),
    ensures
        p(x),
        s.contains(x),
{
    let i = choose|i: int| 0 <= i < s.filter(p).len() && s.filter(p)[i] == x;
    s.lemma_filter_pred(p, i);
    s.lemma_filter_contains_rev(p, x);
}

/// The first entries of a permutation of `pool` are drawn from `pool`.
proof fn lemma_prefix_of_permutation(pool: Seq<ContentView>, shuffled: Seq<ContentView>, n: int)
    requires
        shuffled.to_multiset() == pool.to_multiset(),
        0 <= n <= shuffled.len(),
    ensures
        shuffled.take(n).to_multiset().subset_of(pool.to_multiset()),
        forall|k: int| 0 <= k < n ==> pool.contains(#[trigger] shuffled.take(n)[k]),
        shuffled.len() == pool.len(),
{
    broadcast use vstd::seq_lib::group_to_multiset_ensures;
    broadcast use vstd::multiset::group_multiset_axioms;
    vstd::seq_lib::to_multiset_len(shuffled);
    vstd::seq_lib::to_multiset_len(pool);
    assert(shuffled =~= shuffled.take(n) + shuffled.skip(n));
    vstd::seq_lib::lemma_multiset_commutative(shuffled.take(n), shuffled.skip(n));
    assert forall|k: int| 0 <= k < n implies pool.contains(#[trigger] shuffled.take(n)[k]) by {
        let x = shuffled.take(n)[k];
        assert(shuffled.take(n).contains(x));
        assert(shuffled.take(n).to_multiset().count(x) > 0);
        assert(shuffled.to_multiset().count(x) > 0);
        assert(pool.to_multiset().count(x) > 0);
    }
}

/// Nothing matches preferences without a favorite genre.
proof fn lemma_no_genre_no_match(candidates: Seq<ContentView>, prefs: PreferencesView)
    requires
        prefs.favorite_genres.len() == 0,
    ensures
        matching(candidates, prefs).len() == 0,
{
    if matching(candidates, prefs).len() > 0 {
        candidates.lemma_filter_pred(|c: ContentView| is_match(c, prefs), 0);
    }
}

/// A user is not served a title twice between two resets of the rotation.
/// Say a request under `key` served `first`, leaving the rotation at `after`.
/// A second request under `key`, drawn from the same candidates, serves none
/// of `first`'s titles as long as at least the floor of unseen candidates is
/// left; once fewer are left the pool is every candidate again, so titles may
/// come back.
pub proof fn lemma_no_repeat_until_exhausted(
    candidates: Seq<ContentView>,
    before: Map<u64, Set<Seq<char>>>,
    key: u64,
    first: Seq<ContentView>,
    second: Seq<ContentView>,
)
    requires
        forall|k: int|
            0 <= k < second.len() ==> eligible(
                candidates,
                seen_under(
                    before.insert(
                        key,
                        kept_titles(before, key, exhausted(candidates, seen_under(before, key))).union(
                            titles(first),
                        ),
                    ),
                    key,
                ),
            ).contains(#[trigger] second[k]),
    ensures
        ({
            let after = before.insert(
                key,
                kept_titles(before, key, exhausted(candidates, seen_under(before, key))).union(
                    titles(first),
                ),
            );
            &&& !exhausted(candidates, seen_under(after, key)) ==> forall|k: int|
                0 <= k < second.len() ==> !titles(first).contains(#[trigger] second[k].title)
            &&& exhausted(candidates, seen_under(after, key)) ==> eligible(
                candidates,
                seen_under(after, key),
            ) == candidates
        }),
{
    let after = before.insert(
        key,
        kept_titles(before, key, exhausted(candidates, seen_under(before, key))).union(titles(first)),
    );
    let seen = seen_under(after, key);
    if !exhausted(candidates, seen) {
        assert forall|k: int| 0 <= k < second.len() implies !titles(first).contains(
            #[trigger] second[k].title,
        ) by {
            lemma_member_of_filter(candidates, |c: ContentView| !seen.contains(c.title), second[k]);
        }
    }
}

/// The titles served by a run of requests.
pub open spec fn served_titles(results: Seq<Seq<ContentView>>) -> Set<Seq<char>>
    decreases results.len(),
{
    if results.len() == 0 {
        Set::empty()
    } else {
        served_titles(results.drop_last()).union(titles(results.last()))
    }
}

/// The titles of request `i` are among those served by the first `j > i`.
proof fn lemma_served_titles_include(results: Seq<Seq<ContentView>>, i: int, j: int)
    requires
        0 <= i < j <= results.len(),
    ensures
        titles(results[i]).subset_of(served_titles(results.take(j))),
    decreases j,
{
    let run = results.take(j);
    assert(run.drop_last() =~= results.take(j - 1));
    assert(run.last() == results[j - 1]);
    if i < j - 1 {
        lemma_served_titles_include(results, i, j - 1);
    }
}

/// Over a run of requests under one key, drawn from the same candidates, no
/// title is served twice as long as the rotation is not reset: when request
/// `i` finds the rotation at `seen` plus the titles served before it, draws
/// from the eligible pool, and still finds at least the floor of unseen
/// candidates, then no two requests of the run share a title, and none
/// serves a title of `seen`.
pub proof fn lemma_no_repeat_over_run(
    candidates: Seq<ContentView>,
    seen: Set<Seq<char>>,
    results: Seq<Seq<ContentView>>,
)
    requires
        forall|i: int|
            0 <= i < results.len() ==> !exhausted(
                candidates,
                seen.union(served_titles(#[trigger] results.take(i))),
            ),
        forall|i: int, k: int|
            0 <= i < results.len() && 0 <= k < results[i].len() ==> eligible(
                candidates,
                seen.union(served_titles(results.take(i))),
            ).contains(#[trigger] results[i][k]),
    ensures
        forall|i: int, j: int, k: int, m: int|
            0 <= i < j < results.len() && 0 <= k < results[i].len() && 0 <= m < results[j].len()
                ==> #[trigger] results[i][k].title != #[trigger] results[j][m].title,
        forall|j: int, m: int|
            0 <= j < results.len() && 0 <= m < results[j].len() ==> !seen.contains(
                #[trigger] results[j][m].title,
            ),
{
    assert forall|j: int, m: int|
        0 <= j < results.len() && 0 <= m < results[j].len() implies !seen.union(
        served_titles(results.take(j)),
    ).contains(#[trigger] results[j][m].title) by {
        let before = seen.union(served_titles(results.take(j)));
        assert(!exhausted(candidates, before));
        lemma_member_of_filter(candidates, |c: ContentView| !before.contains(c.title), results[j][m]);
    }
    assert forall|i: int, j: int, k: int, m: int|
        0 <= i < j < results.len() && 0 <= k < results[i].len() && 0 <= m < results[j].len()
            implies #[trigger] results[i][k].title != #[trigger] results[j][m].title by {
        lemma_served_titles_include(results, i, j);
        let t = results[i].map_values(|c: ContentView| c.title);
        assert(t[k] == results[i][k].title);
        assert(titles(results[i]).contains(results[i][k].title));
        assert(!seen.union(served_titles(results.take(j))).contains(results[j][m].title));
    }
}

/// Two requests whose favorite genres hold the same genres, each as often,
/// in any order, with the same minimum rating, read and update one and the
/// same rotation entry and draw on the same candidates: over any catalog and
/// any rotation, their pools and their reset decisions are the same.
pub proof fn lemma_genre_order_shares_rotation(
    a: PreferencesView,
    b: PreferencesView,
    content: Seq<ContentView>,
    rotation: Map<u64, Set<Seq<char>>>,
)
    requires
        a.favorite_genres.to_multiset() == b.favorite_genres.to_multiset(),
        a.minimum_rating == b.minimum_rating,
    ensures
        user_key(a.favorite_genres, a.minimum_rating) == user_key(
            b.favorite_genres,
            b.minimum_rating,
        ),
        matching(content, a) == matching(content, b),
        ({
            let key = user_key(a.favorite_genres, a.minimum_rating);
            &&& eligible(matching(content, a), seen_under(rotation, key)) == eligible(
                matching(content, b),
                seen_under(rotation, key),
            )
            &&& exhausted(matching(content, a), seen_under(rotation, key)) == exhausted(
                matching(content, b),
                seen_under(rotation, key),
            )
        }),
{
    broadcast use vstd::seq_lib::group_to_multiset_ensures;
    lemma_user_key_order_independent(a.favorite_genres, b.favorite_genres, a.minimum_rating);
    assert forall|c: ContentView| #[trigger] is_match(c, a) == is_match(c, b) by {
        assert forall|g: Seq<char>| a.favorite_genres.contains(g) == b.favorite_genres.contains(g) by {
            vstd::seq_lib::to_multiset_contains(a.favorite_genres, g);
            vstd::seq_lib::to_multiset_contains(b.favorite_genres, g);
        }
        if shares_genre(c, a) {
            let (i, j) = choose|i: int, j: int|
                0 <= i < c.genre.len() && 0 <= j < a.favorite_genres.len()
                    && #[trigger] c.genre[i] == #[trigger] a.favorite_genres[j];
            assert(a.favorite_genres.contains(c.genre[i]));
            let j2 = choose|j2: int| 0 <= j2 < b.favorite_genres.len() && b.favorite_genres[j2] == c.genre[i];
            assert(c.genre[i] == b.favorite_genres[j2]);
        }
        if shares_genre(c, b) {
            let (i, j) = choose|i: int, j: int|
                0 <= i < c.genre.len() && 0 <= j < b.favorite_genres.len()
                    && #[trigger] c.genre[i] == #[trigger] b.favorite_genres[j];
            assert(b.favorite_genres.contains(c.genre[i]));
            let j2 = choose|j2: int| 0 <= j2 < a.favorite_genres.len() && a.favorite_genres[j2] == c.genre[i];
            assert(c.genre[i] == a.favorite_genres[j2]);
        }
    }
    assert((|c: ContentView| is_match(c, a)) =~= (|c: ContentView| is_match(c, b)));
}

/// With fewer matching candidates than the floor, a request always starts
/// the user's rotation over and draws from every candidate, whatever was
/// served before.
pub proof fn lemma_small_pool_resets(candidates: Seq<ContentView>, seen: Set<Seq<char>>)
    requires
        candidates.len() < ROTATION_FLOOR,
    ensures
        exhausted(candidates, seen),
        eligible(candidates, seen) == candidates,
        served_count(eligible(candidates, seen).len() as int) == candidates.len(),
{
    candidates.lemma_filter_len(|c: ContentView| !seen.contains(c.title));
}

impl RotationStore {
    /// The candidates whose titles were not yet served under `key`.
    pub fn exclude_seen(&self, key: u64, candidates: &Vec<Content>) -> (r: Vec<Content>)
        ensures
            views(r@) == unseen(views(candidates@), seen_under(self@, key)),
    {
        let ghost seen = seen_under(self@, key);
        let mut r: Vec<Content> = Vec::new();
        let mut i: usize = 0;
        while i < candidates.len()
            invariant
                i <= candidates@.len(),
                seen == seen_under(self@, key),
                views(r@) == unseen(views(candidates@.take(i as int)), seen),
            decreases candidates@.len() - i,
        {
            let ghost prev = views(candidates@.take(i as int));
            let ghost next = views(candidates@.take(i + 1));
            assert(next.drop_last() =~= prev);
            assert(next.last() == candidates@[i as int]@);
            reveal_with_fuel(Seq::filter, 1);
            if !self.has_seen(key, &candidates[i].title) {
                r.push(candidates[i].duplicate());
                assert(views(r@) =~= unseen(prev, seen).push(candidates@[i as int]@));
            } else {
                assert(views(r@) =~= unseen(prev, seen));
            }
            i += 1;
        }
        assert(candidates@.take(candidates@.len() as int) =~= candidates@);
        r
    }

    /// The pool a request under `key` draws from, and whether the user's
    /// rotation has to start over for it.
    pub fn eligible_pool(&self, key: u64, candidates: &Vec<Content>) -> (r: (Vec<Content>, bool))
        ensures
            views(r.0@) == eligible(views(candidates@), seen_under(self@, key)),
            r.1 == exhausted(views(candidates@), seen_under(self@, key)),
    {
        let fresh = self.exclude_seen(key, candidates);
        if fresh.len() < ROTATION_FLOOR {
            (copy_contents(candidates), true)
        } else {
            (fresh, false)
        }
    }

    /// Serves the first entries of an already shuffled pool and records
    /// their titles under `key`, after forgetting the old ones on a reset.
    pub fn serve(&mut self, key: u64, pool: Vec<Content>, reset: bool) -> (r: Vec<Content>)
        ensures
            views(r@) == views(pool@).take(served_count(pool@.len() as int)),
            final(self)@ == old(self)@.insert(
                key,
                kept_titles(old(self)@, key, reset).union(titles(views(r@))),
            ),
    {
        if reset {
            self.forget(key);
        }
        let mut r = pool;
        r.truncate(MAX_RECOMMENDATIONS);
        let mut served: Vec<String> = Vec::new();
        let mut i: usize = 0;
        while i < r.len()
            invariant
                i <= r@.len(),
                served@.len() == i,
                forall|k: int| 0 <= k < i ==> #[trigger] served@[k]@ == r@[k].title@,
            decreases r@.len() - i,
        {
            served.push(r[i].title.clone());
            i += 1;
        }
        assert(texts(served@) =~= views(r@).map_values(|c: ContentView| c.title));
        assert(views(r@) =~= views(pool@).take(served_count(pool@.len() as int)));
        self.record(key, &served);
        r
    }

    /// Serves a request under `key`: the catalog entries that match the
    /// preferences, without those already served under `key` unless fewer
    /// than the floor are left (the rotation then starts over), shuffled, at
    /// most [`MAX_RECOMMENDATIONS`] of them; their titles are then recorded.
    pub fn filter_recommendations(
        &mut self,
        content: &Vec<Content>,
        prefs: &UserPreferences,
        key: u64,
    ) -> (r: Vec<Content>)
        ensures
            ({
                let candidates = matching(views(content@), prefs@);
                let seen = seen_under(old(self)@, key);
                let pool = eligible(candidates, seen);
                &&& r@.len() == served_count(pool.len() as int)
                &&& views(r@).to_multiset().subset_of(pool.to_multiset())
                &&& final(self)@ == old(self)@.insert(
                    key,
                    kept_titles(old(self)@, key, exhausted(candidates, seen)).union(
                        titles(views(r@)),
                    ),
                )
                &&& forall|k: int|
                    0 <= k < r@.len() && !exhausted(candidates, seen) ==> !seen.contains(
                        (#[trigger] r@[k]@).title,
                    )
            }),
            forall|k: int| 0 <= k < r@.len() ==> is_match(#[trigger] r@[k]@, prefs@),
            prefs@.favorite_genres.len() == 0 ==> r@.len() == 0,
    {
        let ghost candidates = matching(views(content@), prefs@);
        let ghost seen = seen_under(self@, key);
        let matched = filter_matching(content, prefs);
        let (mut pool, reset) = self.eligible_pool(key, &matched);
        let ghost drawn_from = views(pool@);
        shuffle_contents(&mut pool);
        let ghost shuffled = views(pool@);
        proof {
            vstd::seq_lib::to_multiset_len(shuffled);
            vstd::seq_lib::to_multiset_len(drawn_from);
            assert(shuffled.len() == pool@.len());
        }
        let r = self.serve(key, pool, reset);
        proof {
            let n = served_count(drawn_from.len() as int);
            assert(views(r@) == shuffled.take(n));
            assert(r@.len() == views(r@).len());
            lemma_prefix_of_permutation(drawn_from, shuffled, n);
            assert forall|k: int| 0 <= k < r@.len() implies is_match(#[trigger] r@[k]@, prefs@)
                && (!exhausted(candidates, seen) ==> !seen.contains(r@[k].title@)) by {
                assert(views(r@)[k] == r@[k]@);
                assert(drawn_from.contains(r@[k]@));
                if exhausted(candidates, seen) {
                    lemma_member_of_filter(
                        views(content@),
                        |c: ContentView| is_match(c, prefs@),
                        r@[k]@,
                    );
                } else {
                    lemma_member_of_filter(
                        candidates,
                        |c: ContentView| !seen.contains(c.title),
                        r@[k]@,
                    );
                    lemma_member_of_filter(
                        views(content@),
                        |c: ContentView| is_match(c, prefs@),
                        r@[k]@,
                    );
                }
            }
            if prefs@.favorite_genres.len() == 0 {
                lemma_no_genre_no_match(views(content@), prefs@);
            }
        }
        r
    }
}

} // verus!
