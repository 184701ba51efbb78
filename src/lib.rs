//! Recommendation cache and rotation engine: a catalog of titles refreshed
//! from an upstream source, per-user rotation of what was already shown, and
//! the framing of durable snapshots of that state.

pub mod aggregate;
pub mod cache;
pub mod content;
pub mod rating;
pub mod recommend;
pub mod rotation;
pub mod snapshot;
pub mod user_key;

pub use aggregate::{
    admit_page, leading_date_field, listing_plan, normalize, truncate_description, Aggregation,
    ContentTracker, ListKind, ListingItem, ListingQuery, MediaKind, DESCRIPTION_LIMIT,
    LISTING_PAGES,
};
pub use cache::{CacheData, ContentCache, STALE_AFTER_SECS};
pub use content::{filter_matching, matches_preferences, Content, UserPreferences};
pub use rating::{rating_at_least, UNRATED};
pub use recommend::MAX_RECOMMENDATIONS;
pub use rotation::{RotationStore, ROTATION_FLOOR};
pub use snapshot::{
    frame_snapshot, unframe_snapshot, LoadError, PersistError, UploadRetry, UploadStep,
    MAX_UPLOAD_ATTEMPTS,
};
pub use user_key::generate_user_key;
