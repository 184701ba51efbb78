use content_service::snapshot::restore_from_decoded;
use content_service::{
    frame_snapshot, unframe_snapshot, Content, ContentCache, LoadError, UploadRetry, UploadStep,
    UserPreferences, MAX_UPLOAD_ATTEMPTS,
};

#[test]
fn frame_then_unframe_round_trips() {
    let json = br#"{"content":[],"used_recommendations":{},"last_updated":"2024-01-01T00:00:00Z"}"#.to_vec();
    let framed = frame_snapshot(&json);
    assert_ne!(framed, json);
    assert_eq!(&framed[..2], &[0x1f, 0x8b]);
    let back = unframe_snapshot(Some(framed)).expect("unframing");
    assert_eq!(back, json);
}

#[test]
fn empty_snapshot_round_trips() {
    let framed = frame_snapshot(&Vec::new());
    assert!(!framed.is_empty());
    assert_eq!(unframe_snapshot(Some(framed)), Ok(Vec::new()));
}

#[test]
fn missing_snapshot_is_not_found() {
    assert_eq!(unframe_snapshot(None), Err(LoadError::NotFound));
}

#[test]
fn corrupt_snapshot_is_restore_error() {
    assert_eq!(unframe_snapshot(Some(b"not gzip at all".to_vec())), Err(LoadError::Restore));
    assert_eq!(unframe_snapshot(Some(Vec::new())), Err(LoadError::Restore));
}

#[test]
fn upload_retries_with_backoff_then_gives_up() {
    assert_eq!(MAX_UPLOAD_ATTEMPTS, 3);
    let mut retry = UploadRetry::new();
    assert_eq!(retry.after_attempt(false), UploadStep::RetryAfter(2));
    assert_eq!(retry.after_attempt(false), UploadStep::RetryAfter(4));
    assert_eq!(retry.after_attempt(false), UploadStep::GiveUp);
    assert_eq!(retry.after_attempt(false), UploadStep::GiveUp);
}

#[test]
fn upload_success_is_done() {
    let mut retry = UploadRetry::new();
    assert_eq!(retry.after_attempt(true), UploadStep::Done);
    let mut retry = UploadRetry::new();
    assert_eq!(retry.after_attempt(false), UploadStep::RetryAfter(2));
    assert_eq!(retry.after_attempt(true), UploadStep::Done);
}

#[test]
fn failed_save_leaves_cache_serving() {
    let mut cache = ContentCache::new_at(0);
    let content: Vec<Content> = (0..12)
        .map(|i| Content {
            title: format!("T{}", i),
            year: None,
            rating: Some(8.0f32.to_bits()),
            genre: vec!["Drama".to_string()],
            description: String::new(),
            where_to_watch: Vec::new(),
        })
        .collect();
    let data = cache.replace_at(content, 0);
    assert_eq!(data.content.len(), 12);
    let mut retry = UploadRetry::new();
    let mut outcome = UploadStep::Done;
    for _ in 0..MAX_UPLOAD_ATTEMPTS {
        outcome = retry.after_attempt(false);
    }
    assert_eq!(outcome, UploadStep::GiveUp);
    let prefs = UserPreferences {
        favorite_genres: vec!["Drama".to_string()],
        minimum_rating: 7.0f32.to_bits(),
    };
    assert_eq!(cache.recommend(&prefs).len(), 12);
}

#[test]
fn decoded_outcome_maps_to_load_result() {
    assert_eq!(restore_from_decoded(None), Err(LoadError::Restore));
    assert_eq!(restore_from_decoded(Some(vec![1, 2, 3])), Ok(vec![1, 2, 3]));
}
