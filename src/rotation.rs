//! Per-user record of the titles already served, and the exclusion and
//! exhaustion rules built on it.

use vstd::prelude::*;
use std::collections::HashMap;
use crate::content::{contains_text, texts, views, Content, ContentView};

verus! {

broadcast use vstd::std_specs::hash::group_hash_axioms;

/// Below this many fresh eligible items a user's rotation starts over.
pub const ROTATION_FLOOR: usize = 10;

/// The titles already served, under each user key. Titles, not upstream
/// ids, identify what was shown.
#[derive(Debug, Clone)]
pub struct RotationStore {
    pub used: HashMap<u64, Vec<String>>,
}

impl View for RotationStore {
    type V = Map<u64, Set<Seq<char>>>;

    open spec fn view(&self) -> Map<u64, Set<Seq<char>>> {
        self.used@.map_values(|v: Vec<String>| texts(v@).to_set())
    }
}

/// The titles served under `key` according to `rotation`.
pub open spec fn seen_under(rotation: Map<u64, Set<Seq<char>>>, key: u64) -> Set<Seq<char>> {
    if rotation.contains_key(key) {
        rotation[key]
    } else {
        Set::empty()
    }
}

/// The titles of a list of entries.
pub open spec fn titles(s: Seq<ContentView>) -> Set<Seq<char>> {
    s.map_values(|c: ContentView| c.title).to_set()
}

/// The entries of `s`, in order, whose titles are not in `seen`.
pub open spec fn unseen(s: Seq<ContentView>, seen: Set<Seq<char>>) -> Seq<ContentView> {
    s.filter(|c: ContentView| !seen.contains(c.title))
}

/// The user's fresh supply has run low: fewer unseen candidates than the floor.
pub open spec fn exhausted(candidates: Seq<ContentView>, seen: Set<Seq<char>>) -> bool {
    unseen(candidates, seen).len() < ROTATION_FLOOR
}

/// The pool a recommendation is drawn from: the unseen candidates, or all
/// candidates once the unseen ones have run low.
pub open spec fn eligible(candidates: Seq<ContentView>, seen: Set<Seq<char>>) -> Seq<ContentView> {
    if exhausted(candidates, seen) {
        candidates
    } else {
        unseen(candidates, seen)
    }
}

/// Appending `x` to a sequence adds `x` to its set of elements.
proof fn lemma_to_set_push<A>(s: Seq<A>, x: A)
    ensures
        s.push(x).to_set() == s.to_set().insert(x),
{
    assert forall|t: A| s.push(x).to_set().contains(t) <==> s.to_set().insert(x).contains(t) by {
        if s.push(x).contains(t) && t != x {
            let j = choose|j: int| 0 <= j < s.push(x).len() && s.push(x)[j] == t;
            assert(s[j] == t);
        }
        if s.contains(t) {
            let j = choose|j: int| 0 <= j < s.len() && s[j] == t;
            assert(s.push(x)[j] == t);
        }
        if t == x {
            assert(s.push(x)[s.len() as int] == t);
        }
    }
    assert(s.push(x).to_set() =~= s.to_set().insert(x));
}

impl RotationStore {
    /// A store with no user in it.
    pub fn new() -> (r: RotationStore)
        ensures
            r@ == Map::<u64, Set<Seq<char>>>::empty(),
    {
        let r = RotationStore { used: HashMap::new() };
        assert(r@ =~= Map::<u64, Set<Seq<char>>>::empty());
        r
    }

    /// Forgets every user.
    pub fn clear(&mut self)
        ensures
            final(self)@ == Map::<u64, Set<Seq<char>>>::empty(),
    {
        self.used.clear();
        assert(self@ =~= Map::<u64, Set<Seq<char>>>::empty());
    }

    /// Whether `title` was served under `key`.
    pub fn has_seen(&self, key: u64, title: &String) -> (r: bool)
        ensures
            r == seen_under(self@, key).contains(title@),
    {
        match self.used.get(&key) {
            Some(list) => {
                let r = contains_text(list, title);
                proof {
                    if r {
                        let j = choose|j: int| 0 <= j < list@.len() && #[trigger] list@[j]@ == title@;
                        assert(texts(list@)[j] == title@);
                    } else {
                        assert forall|j: int| 0 <= j < texts(list@).len() implies texts(list@)[j]
                            != title@ by {
                            assert(list@[j]@ != title@);
                        }
                    }
                }
                r
            },
            None => false,
        }
    }

    /// Starts the rotation of `key` over.
    pub fn forget(&mut self, key: u64)
        ensures
            final(self)@ == old(self)@.remove(key),
    {
        self.used.remove(&key);
        assert(self@ =~= old(self)@.remove(key));
    }

    /// Adds `served` to the titles served under `key`.
    pub fn record(&mut self, key: u64, served: &Vec<String>)
        ensures
            final(self)@ == old(self)@.insert(
                key,
                seen_under(old(self)@, key).union(texts(served@).to_set()),
            ),
    {
        let ghost before = seen_under(self@, key);
        let mut list = match self.used.remove(&key) {
            Some(list) => list,
            None => Vec::new(),
        };
        assert(texts(list@).to_set() == before) by {
            if !old(self).used@.contains_key(key) {
                assert(texts(list@).to_set() =~= Set::<Seq<char>>::empty());
            }
        }
        let mut i: usize = 0;
        while i < served.len()
            invariant
                i <= served@.len(),
                texts(list@).to_set() == before.union(texts(served@.take(i as int)).to_set()),
            decreases served@.len() - i,
        {
            assert(texts(served@.take(i + 1)) =~= texts(served@.take(i as int)).push(served@[i as int]@));
            proof {
                lemma_to_set_push(texts(served@.take(i as int)), served@[i as int]@);
            }
            let ghost prev = list@;
            if !contains_text(&list, &served[i]) {
                list.push(served[i].clone());
                assert(texts(list@) =~= texts(prev).push(served@[i as int]@));
                proof {
                    lemma_to_set_push(texts(prev), served@[i as int]@);
                }
            } else {
                proof {
                    let j = choose|j: int| 0 <= j < list@.len() && #[trigger] list@[j]@ == served@[i as int]@;
                    assert(texts(list@)[j] == served@[i as int]@);
                    assert(texts(list@).to_set().insert(served@[i as int]@) =~= texts(list@).to_set());
                }
            }
            i += 1;
        }
        assert(served@.take(served@.len() as int) =~= served@);
        self.used.insert(key, list);
        assert(self@ =~= old(self)@.insert(key, before.union(texts(served@).to_set())));
    }
}

} // verus!
