use content_service::{
    admit_page, leading_date_field, listing_plan, normalize, truncate_description, Aggregation,
    ContentTracker, ListKind, ListingItem, MediaKind, DESCRIPTION_LIMIT,
};

fn listing(id: i64, title: &str) -> ListingItem {
    ListingItem {
        id,
        title: title.to_string(),
        release_date: Some("2021-06-30".to_string()),
        rating: Some(7.5f32.to_bits()),
        overview: format!("About {}", title),
    }
}

#[test]
fn tracker_reports_first_sighting_only() {
    let mut t = ContentTracker::new();
    assert!(t.is_new(42));
    assert!(!t.is_new(42));
    assert!(t.is_new(-1));
}

#[test]
fn overlapping_pages_yield_shared_id_once() {
    let mut t = ContentTracker::new();
    let first = vec![listing(1, "One"), listing(2, "Two"), listing(3, "Three")];
    let second = vec![listing(3, "Three"), listing(4, "Four"), listing(1, "One")];
    let a = admit_page(&mut t, &first);
    let b = admit_page(&mut t, &second);
    let ids: Vec<i64> = a.iter().chain(b.iter()).map(|x| x.id).collect();
    assert_eq!(ids, vec![1, 2, 3, 4]);
}

#[test]
fn duplicate_ids_within_a_page_are_dropped() {
    let mut t = ContentTracker::new();
    let page = vec![listing(7, "Seven"), listing(7, "Seven again"), listing(8, "Eight")];
    let a = admit_page(&mut t, &page);
    let titles: Vec<&str> = a.iter().map(|x| x.title.as_str()).collect();
    assert_eq!(titles, vec!["Seven", "Eight"]);
}

#[test]
fn year_is_leading_date_field() {
    assert_eq!(leading_date_field(&"1999-03-31".to_string()), "1999");
    assert_eq!(leading_date_field(&"2024".to_string()), "2024");
    assert_eq!(leading_date_field(&"".to_string()), "");
    assert_eq!(leading_date_field(&"-05".to_string()), "");
}

#[test]
fn description_is_cut_to_limit() {
    assert_eq!(DESCRIPTION_LIMIT, 200);
    let short = "A short overview.".to_string();
    assert_eq!(truncate_description(&short), short);
    let long: String = "é".repeat(250);
    let cut = truncate_description(&long);
    assert_eq!(cut.chars().count(), 200);
    assert_eq!(cut, "é".repeat(200));
    let exact: String = "x".repeat(200);
    assert_eq!(truncate_description(&exact), exact);
}

#[test]
fn normalize_builds_entry() {
    let item = listing(5, "Five");
    let c = normalize(&item, vec!["Drama".to_string()], vec!["Netflix".to_string()]);
    assert_eq!(c.title, "Five");
    assert_eq!(c.year, Some("2021".to_string()));
    assert_eq!(c.rating, Some(7.5f32.to_bits()));
    assert_eq!(c.genre, vec!["Drama".to_string()]);
    assert_eq!(c.description, "About Five");
    assert_eq!(c.where_to_watch, vec!["Netflix".to_string()]);
    let mut undated = listing(6, "Six");
    undated.release_date = None;
    let c = normalize(&undated, Vec::new(), Vec::new());
    assert_eq!(c.year, None);
    assert!(c.genre.is_empty() && c.where_to_watch.is_empty());
}

#[test]
fn plan_reads_ten_listings_per_page() {
    let plan = listing_plan();
    assert_eq!(plan.len(), 50);
    assert_eq!(plan[0].media, MediaKind::Movie);
    assert_eq!(plan[0].list, ListKind::TrendingWeek);
    assert_eq!(plan[0].page, 1);
    assert_eq!(plan[4].list, ListKind::Current);
    assert_eq!(plan[5].media, MediaKind::Tv);
    assert_eq!(plan[5].list, ListKind::TrendingWeek);
    assert_eq!(plan[13].page, 2);
    assert_eq!(plan[13].list, ListKind::TopRated);
    assert_eq!(plan[49].page, 5);
    assert_eq!(plan[49].media, MediaKind::Tv);
}

#[test]
fn aggregation_collects_each_item_once() {
    let mut run = Aggregation::new();
    let pages = vec![
        vec![listing(1, "One"), listing(2, "Two")],
        vec![listing(2, "Two"), listing(3, "Three")],
    ];
    for page in &pages {
        for item in run.accept_page(page) {
            run.add(&item, vec!["Drama".to_string()], Vec::new());
        }
    }
    let mut titles: Vec<String> = run.finish().into_iter().map(|c| c.title).collect();
    titles.sort();
    assert_eq!(titles, vec!["One".to_string(), "Three".to_string(), "Two".to_string()]);
}

#[test]
fn shared_id_across_three_pages_is_collected_once() {
    let mut run = Aggregation::new();
    let pages = vec![
        vec![listing(42, "Answer"), listing(1, "One")],
        vec![listing(2, "Two"), listing(42, "Answer")],
        vec![listing(42, "Answer"), listing(3, "Three"), listing(2, "Two")],
    ];
    let mut ids = Vec::new();
    for page in &pages {
        for item in run.accept_page(page) {
            ids.push(item.id);
            run.add(&item, Vec::new(), Vec::new());
        }
    }
    assert_eq!(ids, vec![42, 1, 2, 3]);
    let answers = run.finish().into_iter().filter(|c| c.title == "Answer").count();
    assert_eq!(answers, 1);
}
