use std::collections::HashSet;

use content_service::{
    generate_user_key, CacheData, Content, ContentCache, RotationStore, UserPreferences,
    MAX_RECOMMENDATIONS, ROTATION_FLOOR, STALE_AFTER_SECS,
};

fn item(title: &str, rating: f32, genres: &[&str]) -> Content {
    Content {
        title: title.to_string(),
        year: None,
        rating: Some(rating.to_bits()),
        genre: genres.iter().map(|g| g.to_string()).collect(),
        description: String::new(),
        where_to_watch: Vec::new(),
    }
}

fn prefs(genres: &[&str], min: f32) -> UserPreferences {
    UserPreferences {
        favorite_genres: genres.iter().map(|g| g.to_string()).collect(),
        minimum_rating: min.to_bits(),
    }
}

fn catalog(n: usize) -> Vec<Content> {
    (0..n).map(|i| item(&format!("Title {}", i), 6.0, &["Action"])).collect()
}

#[test]
fn user_key_ignores_genre_order() {
    let a = prefs(&["Action", "Comedy"], 5.0);
    let b = prefs(&["Comedy", "Action"], 5.0);
    assert_eq!(generate_user_key(&a), generate_user_key(&b));
}

#[test]
fn user_key_order_independence_gives_same_rotation() {
    let mut cache = ContentCache::new_at(0);
    cache.replace_at(catalog(40), 0);
    let a = prefs(&["Action", "Comedy"], 5.0);
    let b = prefs(&["Comedy", "Action"], 5.0);
    let first: HashSet<String> = cache.recommend(&a).into_iter().map(|c| c.title).collect();
    let second: HashSet<String> = cache.recommend(&b).into_iter().map(|c| c.title).collect();
    assert_eq!(first.len(), 20);
    assert_eq!(second.len(), 20);
    assert!(first.is_disjoint(&second));
}

#[test]
fn user_keys_do_not_collide_over_preference_space() {
    let genres = ["Action", "Comedy", "Drama", "Horror", "Romance", "Sci-Fi"];
    let ratings = [0.0f32, 2.5, 5.0, 6.5, 7.0, 8.0, 9.5];
    let mut keys = HashSet::new();
    let mut combos = 0;
    for mask in 0u32..(1 << genres.len()) {
        let chosen: Vec<&str> =
            (0..genres.len()).filter(|i| mask & (1 << i) != 0).map(|i| genres[i]).collect();
        for r in ratings {
            keys.insert(generate_user_key(&prefs(&chosen, r)));
            combos += 1;
        }
    }
    assert_eq!(keys.len(), combos);
}

#[test]
fn rotation_records_and_forgets() {
    let mut store = RotationStore::new();
    let t = "Alpha".to_string();
    assert!(!store.has_seen(1, &t));
    store.record(1, &vec![t.clone(), "Beta".to_string(), t.clone()]);
    assert!(store.has_seen(1, &t));
    assert!(!store.has_seen(2, &t));
    assert_eq!(store.used.get(&1).map(|v| v.len()), Some(2));
    store.forget(1);
    assert!(!store.has_seen(1, &t));
    store.record(3, &vec!["Gamma".to_string()]);
    store.clear();
    assert!(store.used.is_empty());
}

#[test]
fn every_result_matches_preferences() {
    let mut cache = ContentCache::new_at(0);
    let mut content = catalog(15);
    content.push(item("Low", 2.0, &["Action"]));
    content.push(item("Other", 9.0, &["Drama"]));
    cache.replace_at(content, 0);
    let p = prefs(&["Action"], 5.0);
    for _ in 0..5 {
        for c in cache.recommend(&p) {
            assert!(c.title.starts_with("Title "));
        }
    }
}

#[test]
fn empty_favorites_give_empty_result() {
    let mut cache = ContentCache::new_at(0);
    cache.replace_at(catalog(30), 0);
    assert!(cache.recommend(&prefs(&[], 0.0)).is_empty());
}

#[test]
fn no_title_repeats_until_rotation_resets() {
    let mut cache = ContentCache::new_at(0);
    cache.replace_at(catalog(50), 0);
    let p = prefs(&["Action"], 5.0);
    let mut served: HashSet<String> = HashSet::new();
    // 50 eligible: two full draws of 20 leave 10 fresh, a third draw takes them.
    for round in 0..3 {
        let r = cache.recommend(&p);
        let expected = if round < 2 { MAX_RECOMMENDATIONS } else { 10 };
        assert_eq!(r.len(), expected);
        for c in r {
            assert!(served.insert(c.title), "title served twice before reset");
        }
    }
    assert_eq!(served.len(), 50);
    // Nothing fresh is left: the rotation starts over and repeats come back.
    let r = cache.recommend(&p);
    assert_eq!(r.len(), MAX_RECOMMENDATIONS);
    assert!(r.iter().all(|c| served.contains(&c.title)));
}

#[test]
fn small_pool_resets_and_serves_all() {
    assert_eq!(ROTATION_FLOOR, 10);
    let mut cache = ContentCache::new_at(0);
    cache.replace_at(catalog(5), 0);
    let p = prefs(&["Action"], 5.0);
    for _ in 0..3 {
        let r: HashSet<String> = cache.recommend(&p).into_iter().map(|c| c.title).collect();
        assert_eq!(r.len(), 5);
    }
    let key = generate_user_key(&p);
    let data = cache.snapshot();
    assert_eq!(data.rotation.used.get(&key).map(|v| v.len()), Some(5));
}

#[test]
fn filter_recommendations_skips_seen_titles() {
    let mut store = RotationStore::new();
    let content = catalog(25);
    let p = prefs(&["Action"], 0.0);
    let seen: Vec<String> = (0..5).map(|i| format!("Title {}", i)).collect();
    store.record(9, &seen);
    let r = store.filter_recommendations(&content, &p, 9);
    assert_eq!(r.len(), 20);
    for c in &r {
        assert!(!seen.contains(&c.title));
    }
    assert_eq!(store.used.get(&9).map(|v| v.len()), Some(25));
}

#[test]
fn serve_takes_pool_prefix_and_records() {
    let mut store = RotationStore::new();
    store.record(4, &vec!["Old".to_string()]);
    let r = store.serve(4, catalog(30), true);
    let names: Vec<String> = r.iter().map(|c| c.title.clone()).collect();
    let expected: Vec<String> = (0..20).map(|i| format!("Title {}", i)).collect();
    assert_eq!(names, expected);
    assert!(!store.has_seen(4, &"Old".to_string()));
    assert!(store.has_seen(4, &"Title 19".to_string()));
    assert!(!store.has_seen(4, &"Title 20".to_string()));
}

#[test]
fn eligible_pool_falls_back_when_low() {
    let mut store = RotationStore::new();
    let content = catalog(12);
    store.record(1, &vec!["Title 0".to_string(), "Title 1".to_string(), "Title 2".to_string()]);
    let (pool, reset) = store.eligible_pool(1, &content);
    assert!(reset);
    assert_eq!(pool.len(), 12);
    store.forget(1);
    store.record(1, &vec!["Title 0".to_string(), "Title 1".to_string()]);
    let (pool, reset) = store.eligible_pool(1, &content);
    assert!(!reset);
    assert_eq!(pool.len(), 10);
    assert_eq!(pool[0].title, "Title 2");
}

#[test]
fn staleness_threshold_is_twelve_hours() {
    assert_eq!(STALE_AFTER_SECS, 12 * 3600);
    let cache = ContentCache::new_at(1_000);
    assert!(!cache.needs_update(1_000 + 43_200));
    assert!(cache.needs_update(1_000 + 43_201));
    assert!(!cache.needs_update(0));
    assert!(!cache.needs_update(i64::MIN));
    let far = ContentCache::new_at(i64::MIN);
    assert!(far.needs_update(i64::MAX));
}

#[test]
fn refresh_needed_without_catalog_or_when_stale() {
    let mut cache = ContentCache::new_at(0);
    assert!(cache.needs_refresh(10));
    assert!(cache.read().is_none());
    cache.replace_at(catalog(3), 10);
    assert!(!cache.needs_refresh(20));
    assert!(cache.needs_refresh(10 + 43_201));
    assert_eq!(cache.read().map(|c| c.len()), Some(3));
}

#[test]
fn replace_clears_rotation_and_snapshots() {
    let mut cache = ContentCache::new_at(0);
    cache.replace_at(catalog(30), 0);
    let p = prefs(&["Action"], 5.0);
    cache.recommend(&p);
    assert!(!cache.snapshot().rotation.used.is_empty());
    let data = cache.replace_at(catalog(2), 77);
    assert_eq!(data.content.len(), 2);
    assert!(data.rotation.used.is_empty());
    assert_eq!(data.last_updated, 77);
    assert!(cache.snapshot().rotation.used.is_empty());
}

#[test]
fn restore_rebuilds_cache() {
    let mut rotation = RotationStore::new();
    rotation.record(5, &vec!["Title 1".to_string()]);
    let cache = ContentCache::restore(CacheData { content: catalog(4), rotation, last_updated: 9 });
    let data = cache.snapshot();
    assert_eq!(data.content.len(), 4);
    assert_eq!(data.last_updated, 9);
    assert_eq!(data.rotation.used.get(&5), Some(&vec!["Title 1".to_string()]));
}

#[test]
fn clock_backed_cache_starts_fresh_and_empty() {
    let mut cache = ContentCache::new();
    assert!(!cache.is_stale().0);
    assert!(cache.read().is_none());
    let data = cache.replace(catalog(2));
    assert_eq!(data.content.len(), 2);
    let (stale, now) = cache.is_stale();
    assert!(!stale);
    assert!(cache.needs_update(now + 43_201));
}

#[test]
fn install_ignores_empty_aggregation() {
    let mut cache = ContentCache::new_at(0);
    assert!(cache.install_at(catalog(3), 10).is_some());
    let p = prefs(&["Action"], 5.0);
    cache.recommend(&p);
    assert!(cache.install_at(Vec::new(), 99).is_none());
    let data = cache.snapshot();
    assert_eq!(data.content.len(), 3);
    assert_eq!(data.last_updated, 10);
    assert!(!data.rotation.used.is_empty());
    let data = cache.install(catalog(4)).expect("installed");
    assert_eq!(data.content.len(), 4);
    assert!(data.rotation.used.is_empty());
}
