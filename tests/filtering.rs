use content_service::{
    filter_matching, matches_preferences, rating_at_least, Content, UserPreferences, UNRATED,
};

fn bits(x: f32) -> u32 {
    x.to_bits()
}

fn item(title: &str, rating: Option<f32>, genres: &[&str]) -> Content {
    Content {
        title: title.to_string(),
        year: Some("2020".to_string()),
        rating: rating.map(|r| r.to_bits()),
        genre: genres.iter().map(|g| g.to_string()).collect(),
        description: String::new(),
        where_to_watch: Vec::new(),
    }
}

fn prefs(genres: &[&str], min: f32) -> UserPreferences {
    UserPreferences {
        favorite_genres: genres.iter().map(|g| g.to_string()).collect(),
        minimum_rating: min.to_bits(),
    }
}

#[test]
fn rating_comparison_follows_float_order() {
    let values = [-3.5f32, -0.0, 0.0, 0.5, 5.0, 7.25, 10.0, f32::INFINITY, f32::NEG_INFINITY];
    for a in values {
        for b in values {
            assert_eq!(rating_at_least(bits(a), bits(b)), a >= b, "{} >= {}", a, b);
        }
    }
}

#[test]
fn rating_comparison_with_nan_is_false() {
    assert!(!rating_at_least(bits(f32::NAN), bits(0.0)));
    assert!(!rating_at_least(bits(5.0), bits(f32::NAN)));
}

#[test]
fn unrated_counts_as_zero() {
    assert_eq!(UNRATED, 0.0f32.to_bits());
    assert!(matches_preferences(&item("A", None, &["Drama"]), &prefs(&["Drama"], 0.0)));
    assert!(!matches_preferences(&item("A", None, &["Drama"]), &prefs(&["Drama"], 0.1)));
}

#[test]
fn match_needs_rating_and_shared_genre() {
    let p = prefs(&["Action", "Comedy"], 5.0);
    assert!(matches_preferences(&item("A", Some(5.0), &["Comedy"]), &p));
    assert!(matches_preferences(&item("B", Some(8.1), &["Drama", "Action"]), &p));
    assert!(!matches_preferences(&item("C", Some(4.9), &["Action"]), &p));
    assert!(!matches_preferences(&item("D", Some(9.0), &["Drama"]), &p));
    assert!(!matches_preferences(&item("E", Some(9.0), &[]), &p));
}

#[test]
fn empty_favorites_match_nothing() {
    let p = prefs(&[], 0.0);
    assert!(!matches_preferences(&item("A", Some(9.0), &["Action"]), &p));
}

#[test]
fn filter_keeps_matching_entries_in_order() {
    let catalog = vec![
        item("A", Some(7.0), &["Action"]),
        item("B", Some(3.0), &["Action"]),
        item("C", Some(8.0), &["Drama"]),
        item("D", Some(6.0), &["Comedy", "Action"]),
    ];
    let r = filter_matching(&catalog, &prefs(&["Action"], 5.0));
    let names: Vec<&str> = r.iter().map(|c| c.title.as_str()).collect();
    assert_eq!(names, vec!["A", "D"]);
    assert_eq!(r[1].genre, vec!["Comedy".to_string(), "Action".to_string()]);
}
