//! What the cache keeps: one record for each session, and one record of the
//! order in which the sessions were last used.

use crate::text::{clone_opt_text, clone_texts, opt_text, texts};
use crate::types::activity::{activity_views, clone_activities, Activity, ActivityView};
use vstd::prelude::*;

verus! {

/// How the cache is set up.
#[derive(Debug)]
pub struct ActivityCacheConfig {
    /// Whether activities are cached at all.
    pub enabled: bool,
    /// How many sessions are kept; the least recently used go first.
    pub max_sessions: usize,
}

impl Default for ActivityCacheConfig {
    fn default() -> (r: Self)
        ensures
            r.enabled,
            r.max_sessions == 50,
    {
        ActivityCacheConfig { enabled: true, max_sessions: 50 }
    }
}

impl Clone for ActivityCacheConfig {
    fn clone(&self) -> (r: Self)
        ensures
            r == *self,
    {
        ActivityCacheConfig { enabled: self.enabled, max_sessions: self.max_sessions }
    }
}

/// A point in time: seconds since the start of 1970 in UTC, and the
/// nanoseconds into that second.
#[derive(Debug, Clone, Copy, PartialEq, Eq, Structural)]
pub struct Moment {
    pub seconds: i64,
    pub nanos: u32,
}

/// The activities kept of one session.
#[derive(Debug)]
pub struct SessionCache {
    /// The session whose activities these are.
    pub session_id: String,
    /// The activities, one for each id, the newest first.
    pub activities: Vec<Activity>,
    /// Where the next fetch goes on; `None`: from the start.
    pub last_page_token: Option<String>,
    /// When a page was last merged in.
    pub last_updated: Moment,
    /// When the record was made.
    pub created_at: Moment,
}

/// What a [`SessionCache`] holds.
pub struct SessionCacheView {
    pub session_id: Seq<char>,
    pub activities: Seq<ActivityView>,
    pub last_page_token: Option<Seq<char>>,
    pub last_updated: Moment,
    pub created_at: Moment,
}

impl View for SessionCache {
    type V = SessionCacheView;

    open spec fn view(&self) -> SessionCacheView {
        SessionCacheView {
            session_id: self.session_id@,
            activities: activity_views(self.activities@),
            last_page_token: opt_text(self.last_page_token),
            last_updated: self.last_updated,
            created_at: self.created_at,
        }
    }
}

impl Clone for SessionCache {
    fn clone(&self) -> (r: Self)
        ensures
            r@ == self@,
    {
        SessionCache {
            session_id: self.session_id.clone(),
            activities: clone_activities(&self.activities),
            last_page_token: clone_opt_text(&self.last_page_token),
            last_updated: self.last_updated,
            created_at: self.created_at,
        }
    }
}

/// The sessions that the cache holds, in the order of their last use, and
/// the setup of the cache.
#[derive(Debug)]
pub struct CacheMetadata {
    /// The ids of the cached sessions; the least recently used first.
    pub access_order: Vec<String>,
    /// The setup of the cache.
    pub config: ActivityCacheConfig,
}

/// What a [`CacheMetadata`] holds.
pub struct CacheMetadataView {
    pub access_order: Seq<Seq<char>>,
    pub config: ActivityCacheConfig,
}

impl View for CacheMetadata {
    type V = CacheMetadataView;

    open spec fn view(&self) -> CacheMetadataView {
        CacheMetadataView { access_order: texts(self.access_order@), config: self.config }
    }
}

impl Default for CacheMetadata {
    fn default() -> (r: Self)
        ensures
            r@.access_order == Seq::<Seq<char>>::empty(),
            r.config.enabled,
            r.config.max_sessions == 50,
    {
        let r = CacheMetadata { access_order: Vec::new(), config: ActivityCacheConfig::default() };
        proof {
            assert(r@.access_order =~= Seq::<Seq<char>>::empty());
        }
        r
    }
}

impl Clone for CacheMetadata {
    fn clone(&self) -> (r: Self)
        ensures
            r@ == self@,
    {
        CacheMetadata {
            access_order: clone_texts(&self.access_order),
            config: self.config.clone(),
        }
    }
}

/// Figures on the cache as a whole.
#[derive(Debug)]
pub struct CacheStats {
    pub enabled: bool,
    pub total_sessions: usize,
    pub max_sessions: usize,
    pub total_activities: usize,
    pub total_size_bytes: u64,
    pub cache_dir: String,
}

} // verus!
