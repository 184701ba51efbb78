//! The key that indexes a user's rotation: a hash of the sorted favorite
//! genres and of the minimum rating's bit pattern, the same whatever order
//! the genres come in.

use vstd::prelude::*;
use vstd::relations::{sorted_by, total_ordering};
use vstd::seq_lib::lemma_sorted_unique;
use crate::content::{texts, UserPreferences, copy_texts};

verus! {

/// `a <= b` in the lexicographic order of their characters' code points,
/// which is how `String` orders its values (UTF-8 keeps code-point order).
pub open spec fn text_le(a: Seq<char>, b: Seq<char>) -> bool
    decreases a.len(),
{
    if a.len() == 0 {
        true
    } else if b.len() == 0 {
        false
    } else if a[0] != b[0] {
        a[0] < b[0]
    } else {
        text_le(a.drop_first(), b.drop_first())
    }
}

/// [`text_le`] as a relation value.
pub open spec fn text_order() -> spec_fn(Seq<char>, Seq<char>) -> bool {
    |a: Seq<char>, b: Seq<char>| text_le(a, b)
}

/// The genres in sorted order.
pub open spec fn sorted_texts(genres: Seq<Seq<char>>) -> Seq<Seq<char>> {
    genres.sort_by(text_order())
}

/// What the standard library's default hasher yields for the pair
/// (sorted genre list, rating bit pattern).
pub uninterp spec fn preference_hash(sorted_genres: Seq<Seq<char>>, rating_bits: u32) -> u64;

/// The rotation key of a set of preferences.
pub open spec fn user_key(genres: Seq<Seq<char>>, rating_bits: u32) -> u64 {
    preference_hash(sorted_texts(genres), rating_bits)
}

proof fn lemma_text_le_reflexive(a: Seq<char>)
    ensures
        text_le(a, a),
    decreases a.len(),
{
    if a.len() > 0 {
        lemma_text_le_reflexive(a.drop_first());
    }
}

proof fn lemma_text_le_antisymmetric(a: Seq<char>, b: Seq<char>)
    requires
        text_le(a, b),
        text_le(b, a),
    ensures
        a == b,
    decreases a.len(),
{
    if a.len() > 0 && b.len() > 0 {
        lemma_text_le_antisymmetric(a.drop_first(), b.drop_first());
        assert(a =~= seq![a[0]] + a.drop_first());
        assert(b =~= seq![b[0]] + b.drop_first());
    }
}

proof fn lemma_text_le_transitive(a: Seq<char>, b: Seq<char>, c: Seq<char>)
    requires
        text_le(a, b),
        text_le(b, c),
    ensures
        text_le(a, c),
    decreases a.len(),
{
    if a.len() > 0 && b.len() > 0 && c.len() > 0 {
        if a[0] == b[0] && b[0] == c[0] {
            lemma_text_le_transitive(a.drop_first(), b.drop_first(), c.drop_first());
        }
    }
}

proof fn lemma_text_le_connected(a: Seq<char>, b: Seq<char>)
    ensures
        text_le(a, b) || text_le(b, a),
    decreases a.len(),
{
    if a.len() > 0 && b.len() > 0 && a[0] == b[0] {
        lemma_text_le_connected(a.drop_first(), b.drop_first());
    }
}

/// The text order is a total order.
pub proof fn lemma_text_order_total()
    ensures
        total_ordering(text_order()),
{
    assert forall|a: Seq<char>| #[trigger] text_order()(a, a) by {
        lemma_text_le_reflexive(a);
    }
    assert forall|a: Seq<char>, b: Seq<char>|
        #[trigger] text_order()(a, b) && #[trigger] text_order()(b, a) implies a == b by {
        lemma_text_le_antisymmetric(a, b);
    }
    assert forall|a: Seq<char>, b: Seq<char>, c: Seq<char>|
        #[trigger] text_order()(a, b) && #[trigger] text_order()(b, c) implies text_order()(
        a,
        c,
    ) by {
        lemma_text_le_transitive(a, b, c);
    }
    assert forall|a: Seq<char>, b: Seq<char>|
        #[trigger] text_order()(a, b) || #[trigger] text_order()(b, a) by {
        lemma_text_le_connected(a, b);
    }
}

/// The sorted form of a genre list is the one sorted permutation of it.
proof fn lemma_sorted_texts_unique(genres: Seq<Seq<char>>, sorted: Seq<Seq<char>>)
    requires
        sorted.to_multiset() == genres.to_multiset(),
        sorted_by(sorted, text_order()),
    ensures
        sorted == sorted_texts(genres),
{
    lemma_text_order_total();
    genres.lemma_sort_by_ensures(text_order());
    lemma_sorted_unique(sorted, sorted_texts(genres), text_order());
}

/// Two genre lists that hold the same genres, each as often, in whatever
/// order, give the same rotation key for the same minimum rating.
pub proof fn lemma_user_key_order_independent(a: Seq<Seq<char>>, b: Seq<Seq<char>>, rating_bits: u32)
    requires
        a.to_multiset() == b.to_multiset(),
    ensures
        user_key(a, rating_bits) == user_key(b, rating_bits),
{
    lemma_text_order_total();
    a.lemma_sort_by_ensures(text_order());
    lemma_sorted_texts_unique(b, sorted_texts(a));
}

/// Relies on `slice::sort` over `String`s: the slice ends up a permutation of
/// itself in ascending `Ord` order, which for strings is lexicographic.
#[verifier::external_body]
fn sort_strings(v: &mut Vec<String>)
    ensures
        texts(final(v)@).to_multiset() == texts(old(v)@).to_multiset(),
        sorted_by(texts(final(v)@), text_order()),
{
    v.sort();
}

/// Relies on `BuildHasher::hash_one` with `BuildHasherDefault<DefaultHasher>`:
/// `DefaultHasher::new` starts from fixed keys, so the hash of the pair
/// depends on the hashed values alone.
#[verifier::external_body]
fn hash_preferences(sorted_genres: &Vec<String>, rating_bits: u32) -> (r: u64)
    ensures
        r == preference_hash(texts(sorted_genres@), rating_bits),
{
    std::hash::BuildHasher::hash_one(
        &std::hash::BuildHasherDefault::<std::collections::hash_map::DefaultHasher>::default(),
        (sorted_genres, rating_bits),
    )
}

/// The rotation key of a request's preferences.
pub fn generate_user_key(prefs: &UserPreferences) -> (r: u64)
    ensures
        r == user_key(prefs@.favorite_genres, prefs.minimum_rating),
{
    let mut genres = copy_texts(&prefs.favorite_genres);
    sort_strings(&mut genres);
    proof {
        lemma_sorted_texts_unique(prefs@.favorite_genres, texts(genres@));
    }
    hash_preferences(&genres, prefs.minimum_rating)
}

} // verus!
