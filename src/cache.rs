//! The process-wide catalog cache: the current catalog, when it was last
//! replaced, and the rotation state that belongs to it.

use vstd::prelude::*;
use crate::content::{copy_contents, views, Content, ContentView, UserPreferences};
use crate::recommend::{kept_titles, served_count};
use crate::rotation::{eligible, exhausted, seen_under, titles, RotationStore};
use crate::user_key::{generate_user_key, user_key};

verus! {

/// A catalog older than this many seconds is stale.
pub const STALE_AFTER_SECS: i64 = 43200;

/// The mathematical value of a [`ContentCache`].
pub struct CacheView {
    /// The current catalog, if one was ever set.
    pub catalog: Option<Seq<ContentView>>,
    pub rotation: Map<u64, Set<Seq<char>>>,
    /// When the catalog was last replaced, in seconds since the Unix epoch.
    pub last_updated: i64,
}

/// The catalog entries, none when no catalog was set.
pub open spec fn entries(catalog: Option<Seq<ContentView>>) -> Seq<ContentView> {
    match catalog {
        Some(c) => c,
        None => Seq::empty(),
    }
}

/// More than the staleness threshold has passed between `last_updated` and `now`.
pub open spec fn is_stale_at(last_updated: i64, now: i64) -> bool {
    now - last_updated > STALE_AFTER_SECS
}

/// What a snapshot holds: the catalog, the rotation, and when the catalog
/// was last replaced.
pub struct CacheData {
    pub content: Vec<Content>,
    pub rotation: RotationStore,
    pub last_updated: i64,
}

/// The mathematical value of a [`CacheData`].
pub struct CacheDataView {
    pub content: Seq<ContentView>,
    pub rotation: Map<u64, Set<Seq<char>>>,
    pub last_updated: i64,
}

impl View for CacheData {
    type V = CacheDataView;

    open spec fn view(&self) -> CacheDataView {
        CacheDataView {
            content: views(self.content@),
            rotation: self.rotation@,
            last_updated: self.last_updated,
        }
    }
}

/// The catalog cache. The catalog is only ever replaced whole, together with
/// its timestamp, and each replacement forgets every user's rotation.
pub struct ContentCache {
    latest: Option<Vec<Content>>,
    rotation: RotationStore,
    last_updated: i64,
}

impl View for ContentCache {
    type V = CacheView;

    closed spec fn view(&self) -> CacheView {
        CacheView {
            catalog: match self.latest {
                Some(c) => Some(views(c@)),
                None => None,
            },
            rotation: self.rotation@,
            last_updated: self.last_updated,
        }
    }
}

/// Relies on chrono's `Utc::now` and `DateTime::timestamp`: the current time
/// in whole seconds since the Unix epoch. Nothing is promised of its value.
#[verifier::external_body]
fn now_seconds() -> i64 {
    chrono::Utc::now().timestamp()
}

impl RotationStore {
    /// A copy of the store.
    pub fn duplicate(&self) -> (r: RotationStore)
        ensures
            r@ == self@,
    {
        RotationStore { used: self.used.clone() }
    }
}

impl ContentCache {
    /// An empty cache stamped with `now`.
    pub fn new_at(now: i64) -> (r: ContentCache)
        ensures
            r@ == (CacheView { catalog: None, rotation: Map::empty(), last_updated: now }),
    {
        ContentCache { latest: None, rotation: RotationStore::new(), last_updated: now }
    }

    /// An empty cache stamped with the current time.
    pub fn new() -> (r: ContentCache)
        ensures
            r@.catalog is None,
            r@.rotation == Map::<u64, Set<Seq<char>>>::empty(),
    {
        ContentCache::new_at(now_seconds())
    }

    /// The cache that a snapshot describes.
    pub fn restore(data: CacheData) -> (r: ContentCache)
        ensures
            r@ == (CacheView {
                catalog: Some(data@.content),
                rotation: data@.rotation,
                last_updated: data@.last_updated,
            }),
    {
        ContentCache {
            latest: Some(data.content),
            rotation: data.rotation,
            last_updated: data.last_updated,
        }
    }

    /// Whether the catalog is stale at time `now`.
    pub fn needs_update(&self, now: i64) -> (r: bool)
        ensures
            r == is_stale_at(self@.last_updated, now),
    {
        (now as i128) - (self.last_updated as i128) > (STALE_AFTER_SECS as i128)
    }

    /// Whether the catalog is stale now, with the time that was read.
    pub fn is_stale(&self) -> (r: (bool, i64))
        ensures
            r.0 == is_stale_at(self@.last_updated, r.1),
    {
        let now = now_seconds();
        (self.needs_update(now), now)
    }

    /// Whether a request at time `now` should first try to aggregate a new
    /// catalog: the catalog is stale, or there is none.
    pub fn needs_refresh(&self, now: i64) -> (r: bool)
        ensures
            r == (is_stale_at(self@.last_updated, now) || self@.catalog is None),
    {
        self.needs_update(now) || self.latest.is_none()
    }

    /// A copy of the current catalog, stale or not.
    pub fn read(&self) -> (r: Option<Vec<Content>>)
        ensures
            match r {
                Some(c) => self@.catalog == Some(views(c@)),
                None => self@.catalog is None,
            },
    {
        match &self.latest {
            Some(c) => Some(copy_contents(c)),
            None => None,
        }
    }

    /// The state a snapshot should record.
    pub fn snapshot(&self) -> (r: CacheData)
        ensures
            r@ == (CacheDataView {
                content: entries(self@.catalog),
                rotation: self@.rotation,
                last_updated: self@.last_updated,
            }),
    {
        let content = match &self.latest {
            Some(c) => copy_contents(c),
            None => Vec::new(),
        };
        let r = CacheData {
            content,
            rotation: self.rotation.duplicate(),
            last_updated: self.last_updated,
        };
        assert(views(r.content@) =~= entries(self@.catalog));
        r
    }

    /// Replaces the catalog at time `now`, forgets every rotation, and gives
    /// the snapshot of the new state.
    pub fn replace_at(&mut self, content: Vec<Content>, now: i64) -> (r: CacheData)
        ensures
            final(self)@ == (CacheView {
                catalog: Some(views(content@)),
                rotation: Map::empty(),
                last_updated: now,
            }),
            r@ == (CacheDataView {
                content: views(content@),
                rotation: Map::empty(),
                last_updated: now,
            }),
    {
        self.latest = Some(content);
        self.rotation.clear();
        self.last_updated = now;
        self.snapshot()
    }

    /// Replaces the catalog now, forgets every rotation, and gives the
    /// snapshot of the new state.
    pub fn replace(&mut self, content: Vec<Content>) -> (r: CacheData)
        ensures
            final(self)@.catalog == Some(views(content@)),
            final(self)@.rotation == Map::<u64, Set<Seq<char>>>::empty(),
            r@ == (CacheDataView {
                content: views(content@),
                rotation: Map::empty(),
                last_updated: final(self)@.last_updated,
            }),
    {
        self.replace_at(content, now_seconds())
    }

    /// Installs the catalog that an aggregation run gave, at time `now`: an
    /// empty one means that aggregation failed, and changes nothing; any
    /// other replaces the catalog as [`ContentCache::replace_at`] does and
    /// gives the snapshot to store.
    pub fn install_at(&mut self, content: Vec<Content>, now: i64) -> (r: Option<CacheData>)
        ensures
            content@.len() == 0 ==> r is None && final(self)@ == old(self)@,
            content@.len() > 0 ==> {
                &&& final(self)@ == (CacheView {
                    catalog: Some(views(content@)),
                    rotation: Map::empty(),
                    last_updated: now,
                })
                &&& r matches Some(d) && d@ == (CacheDataView {
                    content: views(content@),
                    rotation: Map::empty(),
                    last_updated: now,
                })
            },
    {
        if content.len() == 0 {
            None
        } else {
            Some(self.replace_at(content, now))
        }
    }

    /// Installs the catalog that an aggregation run gave, now: see
    /// [`ContentCache::install_at`].
    pub fn install(&mut self, content: Vec<Content>) -> (r: Option<CacheData>)
        ensures
            content@.len() == 0 ==> r is None && final(self)@ == old(self)@,
            content@.len() > 0 ==> {
                &&& final(self)@.catalog == Some(views(content@))
                &&& final(self)@.rotation == Map::<u64, Set<Seq<char>>>::empty()
                &&& r matches Some(d) && d@ == (CacheDataView {
                    content: views(content@),
                    rotation: Map::empty(),
                    last_updated: final(self)@.last_updated,
                })
            },
    {
        self.install_at(content, now_seconds())
    }

    /// Serves a request from the current catalog (stale or not; none gives
    /// nothing) under the rotation key of its preferences.
    pub fn recommend(&mut self, prefs: &UserPreferences) -> (r: Vec<Content>)
        ensures
            ({
                let key = user_key(prefs@.favorite_genres, prefs.minimum_rating);
                let candidates = crate::content::matching(entries(old(self)@.catalog), prefs@);
                let seen = seen_under(old(self)@.rotation, key);
                let pool = eligible(candidates, seen);
                &&& r@.len() == served_count(pool.len() as int)
                &&& views(r@).to_multiset().subset_of(pool.to_multiset())
                &&& final(self)@.rotation == old(self)@.rotation.insert(
                    key,
                    kept_titles(old(self)@.rotation, key, exhausted(candidates, seen)).union(
                        titles(views(r@)),
                    ),
                )
                &&& forall|k: int|
                    0 <= k < r@.len() && !exhausted(candidates, seen) ==> !seen.contains(
                        (#[trigger] r@[k]@).title,
                    )
            }),
            final(self)@.catalog == old(self)@.catalog,
            final(self)@.last_updated == old(self)@.last_updated,
            forall|k: int| 0 <= k < r@.len() ==> crate::content::is_match(#[trigger] r@[k]@, prefs@),
            prefs@.favorite_genres.len() == 0 ==> r@.len() == 0,
    {
        let key = generate_user_key(prefs);
        let empty: Vec<Content> = Vec::new();
        match &self.latest {
            Some(c) => self.rotation.filter_recommendations(c, prefs, key),
            None => {
                assert(views(empty@) =~= Seq::<ContentView>::empty());
                self.rotation.filter_recommendations(&empty, prefs, key)
            },
        }
    }
}

} // verus!
