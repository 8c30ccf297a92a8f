//! The activity cache: what is kept of each session's activities, how a
//! fetched page is merged into it, and which sessions are given up when the
//! cache is full.

pub mod access_order;
pub mod fetch;
pub mod merge;
pub mod merge_laws;
pub mod model;
pub mod refresh;
pub mod store;
pub mod store_laws;

pub use access_order::list_cached_sessions;
pub use merge::merge_activities;
pub use model::{ActivityCacheConfig, CacheMetadata, CacheStats, Moment, SessionCache};
pub use refresh::{refresh_record, update_cache_incremental};
pub use store::{
    clear_all_cache, commit_session_cache, delete_session_cache, get_cache_stats,
    load_session_cache, save_session_cache, CacheStore,
};
