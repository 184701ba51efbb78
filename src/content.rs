//! Catalog entries, request preferences, and the boolean filter that decides
//! which entries a request may be offered.

use vstd::prelude::*;
use crate::rating::{at_least, effective_rating, rating_at_least, UNRATED};

verus! {

/// One catalog entry.
#[derive(Debug, Clone)]
pub struct Content {
    pub title: String,
    /// The release year, as the upstream date's leading field.
    pub year: Option<String>,
    /// The rating as a binary32 bit pattern; `None` counts as `0.0`.
    pub rating: Option<u32>,
    pub genre: Vec<String>,
    pub description: String,
    /// Names of the services that distribute the entry.
    pub where_to_watch: Vec<String>,
}

/// What one request asks for.
#[derive(Debug, Clone)]
pub struct UserPreferences {
    pub favorite_genres: Vec<String>,
    /// The minimum rating as a binary32 bit pattern.
    pub minimum_rating: u32,
}

/// The mathematical value of a [`Content`].
pub struct ContentView {
    pub title: Seq<char>,
    pub year: Option<Seq<char>>,
    pub rating: Option<u32>,
    pub genre: Seq<Seq<char>>,
    pub description: Seq<char>,
    pub where_to_watch: Seq<Seq<char>>,
}

/// The mathematical value of a [`UserPreferences`].
pub struct PreferencesView {
    pub favorite_genres: Seq<Seq<char>>,
    pub minimum_rating: u32,
}

/// The character sequences of a list of strings.
pub open spec fn texts(v: Seq<String>) -> Seq<Seq<char>> {
    v.map_values(|s: String| s@)
}

/// The view of an optional string.
pub open spec fn opt_text(o: Option<String>) -> Option<Seq<char>> {
    match o {
        Some(s) => Some(s@),
        None => None,
    }
}

impl View for Content {
    type V = ContentView;

    open spec fn view(&self) -> ContentView {
        ContentView {
            title: self.title@,
            year: opt_text(self.year),
            rating: self.rating,
            genre: texts(self.genre@),
            description: self.description@,
            where_to_watch: texts(self.where_to_watch@),
        }
    }
}

impl View for UserPreferences {
    type V = PreferencesView;

    open spec fn view(&self) -> PreferencesView {
        PreferencesView {
            favorite_genres: texts(self.favorite_genres@),
            minimum_rating: self.minimum_rating,
        }
    }
}

/// The views of a list of entries.
pub open spec fn views(s: Seq<Content>) -> Seq<ContentView> {
    s.map_values(|c: Content| c@)
}

/// The entry lists at least one of the favorite genres.
pub open spec fn shares_genre(c: ContentView, prefs: PreferencesView) -> bool {
    exists|i: int, j: int|
        0 <= i < c.genre.len() && 0 <= j < prefs.favorite_genres.len()
            && #[trigger] c.genre[i] == #[trigger] prefs.favorite_genres[j]
}

/// The entry may be offered for these preferences: its rating reaches the
/// minimum and it shares a genre with them.
pub open spec fn is_match(c: ContentView, prefs: PreferencesView) -> bool {
    at_least(effective_rating(c.rating), prefs.minimum_rating) && shares_genre(c, prefs)
}

/// The entries of `s` that match, in their order.
pub open spec fn matching(s: Seq<ContentView>, prefs: PreferencesView) -> Seq<ContentView> {
    s.filter(|c: ContentView| is_match(c, prefs))
}

/// Whether `name` is one of `list`.
pub fn contains_text(list: &Vec<String>, name: &String) -> (r: bool)
    ensures
        r == exists|j: int| 0 <= j < list@.len() && #[trigger] list@[j]@ == name@,
{
    let mut j: usize = 0;
    while j < list.len()
        invariant
            j <= list@.len(),
            forall|k: int| 0 <= k < j ==> #[trigger] list@[k]@ != name@,
        decreases list@.len() - j,
    {
        if list[j] == *name {
            return true;
        }
        j += 1;
    }
    false
}

/// Whether the entry shares a genre with the preferences.
pub fn has_shared_genre(c: &Content, prefs: &UserPreferences) -> (r: bool)
    ensures
        r == shares_genre(c@, prefs@),
{
    let mut i: usize = 0;
    while i < c.genre.len()
        invariant
            i <= c.genre@.len(),
            forall|k: int, j: int|
                0 <= k < i && 0 <= j < prefs@.favorite_genres.len()
                    ==> #[trigger] c@.genre[k] != #[trigger] prefs@.favorite_genres[j],
        decreases c.genre@.len() - i,
    {
        if contains_text(&prefs.favorite_genres, &c.genre[i]) {
            proof {
                let j = choose|j: int|
                    0 <= j < prefs.favorite_genres@.len() && #[trigger] prefs.favorite_genres@[j]@
                        == c.genre@[i as int]@;
                assert(c@.genre[i as int] == prefs@.favorite_genres[j]);
            }
            return true;
        }
        i += 1;
    }
    false
}

/// Whether the entry may be offered for these preferences.
pub fn matches_preferences(c: &Content, prefs: &UserPreferences) -> (r: bool)
    ensures
        r == is_match(c@, prefs@),
{
    let rating = match c.rating {
        Some(bits) => bits,
        None => UNRATED,
    };
    rating_at_least(rating, prefs.minimum_rating) && has_shared_genre(c, prefs)
}

/// A copy of a list of strings.
pub fn copy_texts(v: &Vec<String>) -> (r: Vec<String>)
    ensures
        r@ == v@,
{
    let r = v.clone();
    assert(r@ =~= v@);
    r
}

impl Content {
    /// A field-for-field copy.
    pub fn duplicate(&self) -> (r: Content)
        ensures
            r@ == self@,
    {
        let year = match &self.year {
            Some(y) => Some(y.clone()),
            None => None,
        };
        Content {
            title: self.title.clone(),
            year,
            rating: self.rating,
            genre: copy_texts(&self.genre),
            description: self.description.clone(),
            where_to_watch: copy_texts(&self.where_to_watch),
        }
    }
}

/// A copy of a list of entries.
pub fn copy_contents(v: &Vec<Content>) -> (r: Vec<Content>)
    ensures
        views(r@) == views(v@),
{
    let mut r: Vec<Content> = Vec::new();
    let mut i: usize = 0;
    while i < v.len()
        invariant
            i <= v@.len(),
            r@.len() == i,
            forall|k: int| 0 <= k < i ==> #[trigger] r@[k]@ == v@[k]@,
        decreases v@.len() - i,
    {
        r.push(v[i].duplicate());
        i += 1;
    }
    assert(views(r@) =~= views(v@));
    r
}

/// Relies on rand's `SliceRandom::shuffle`, drawing from `thread_rng`: the
/// slice is permuted in place by swaps; which permutation comes out is chance.
#[verifier::external_body]
pub(crate) fn shuffle_contents(v: &mut Vec<Content>)
    ensures
        views(final(v)@).to_multiset() == views(old(v)@).to_multiset(),
{
    rand::seq::SliceRandom::shuffle(v.as_mut_slice(), &mut rand::thread_rng());
}

/// The entries of `content` that match the preferences, in their order.
pub fn filter_matching(content: &Vec<Content>, prefs: &UserPreferences) -> (r: Vec<Content>)
    ensures
        views(r@) == matching(views(content@), prefs@),
{
    let mut r: Vec<Content> = Vec::new();
    let mut i: usize = 0;
    while i < content.len()
        invariant
            i <= content@.len(),
            views(r@) == matching(views(content@.subrange(0, i as int)), prefs@),
        decreases content@.len() - i,
    {
        let ghost prev = views(content@.subrange(0, i as int));
        let ghost next = views(content@.subrange(0, i + 1));
        assert(next.drop_last() =~= prev);
        assert(next.last() == content@[i as int]@);
        reveal_with_fuel(Seq::filter, 1);
        if matches_preferences(&content[i], prefs) {
            r.push(content[i].duplicate());
            assert(views(r@) =~= matching(prev, prefs@).push(content@[i as int]@));
        } else {
            assert(views(r@) =~= matching(prev, prefs@));
        }
        i += 1;
    }
    assert(content@.subrange(0, content@.len() as int) =~= content@);
    r
}

} // verus!
