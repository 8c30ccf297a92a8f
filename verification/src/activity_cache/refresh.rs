//! Bringing a session's record up to date: what to fetch, and what the
//! record is once the fetched page is merged in.

use crate::activity_cache::fetch::{Fetched, ACTIVITIES_PAGE_SIZE};
use crate::activity_cache::merge::{merge_activities, merge_of};
use crate::activity_cache::model::{Moment, SessionCache};
use crate::text::{clone_opt_text, opt_text};
use crate::types::activity::{activity_views, Activity, ActivityView, ListActivitiesResponse};
use vstd::prelude::*;

verus! {

/// What was found where a session's record is kept.
#[derive(Debug)]
pub enum SessionLookup {
    /// There is no record.
    Missing,
    /// There is one, and it cannot be read as a record.
    Unreadable,
    /// The record.
    Found(SessionCache),
}

/// Why an operation of the cache failed.
#[derive(Debug, Clone, Copy, PartialEq, Eq, Structural)]
pub enum CacheError {
    /// Reading, writing or deleting in the store failed.
    Storage,
    /// A record in the store cannot be read as what it should be.
    Serialization,
    /// The session service did not deliver.
    RemoteFetch,
}

/// What to fetch to bring a session's record up to date.
#[derive(Debug)]
pub enum FetchPlan {
    /// All activities, page after page: there is no record yet.
    Full,
    /// One page, from where the record's last fetch ended.
    Page { page_size: u32, page_token: Option<String> },
}

/// What is to be fetched for a session of which `lookup` was found. An
/// unreadable record is an error here; it is not replaced.
pub fn plan_refresh(lookup: &SessionLookup) -> (plan: Result<FetchPlan, CacheError>)
    ensures
        match *lookup {
            SessionLookup::Missing => plan matches Ok(FetchPlan::Full),
            SessionLookup::Unreadable => plan == Err::<FetchPlan, CacheError>(
                CacheError::Serialization,
            ),
            SessionLookup::Found(cache) => plan matches Ok(
                FetchPlan::Page { page_size, page_token },
            ) && page_size == ACTIVITIES_PAGE_SIZE && opt_text(page_token) == opt_text(
                cache.last_page_token,
            ),
        },
{
    match lookup {
        SessionLookup::Missing => Ok(FetchPlan::Full),
        SessionLookup::Unreadable => Err(CacheError::Serialization),
        SessionLookup::Found(cache) => Ok(
            FetchPlan::Page {
                page_size: ACTIVITIES_PAGE_SIZE,
                page_token: clone_opt_text(&cache.last_page_token),
            },
        ),
    }
}

/// The activities of a record that may not be there yet.
pub open spec fn cached_activities(cached: Option<SessionCache>) -> Seq<ActivityView> {
    match cached {
        Some(cache) => activity_views(cache.activities@),
        None => Seq::empty(),
    }
}

/// `cache` is the record of the session `session_id` once the page
/// `response` is merged into `cached`, at the time `now`: a record that is
/// there keeps its session and the time it was made at, one that is made
/// now starts empty at `now`; the page's activities replace those of the
/// same id; the record goes on from where the page ended.
pub open spec fn is_update(
    cached: Option<SessionCache>,
    session_id: Seq<char>,
    response: ListActivitiesResponse,
    now: Moment,
    cache: SessionCache,
) -> bool {
    &&& cache.session_id@ == (match cached {
        Some(old) => old.session_id@,
        None => session_id,
    })
    &&& activity_views(cache.activities@) == merge_of(
        cached_activities(cached),
        activity_views(response.activities@),
    )
    &&& opt_text(cache.last_page_token) == opt_text(response.next_page_token)
    &&& cache.last_updated == now
    &&& cache.created_at == (match cached {
        Some(old) => old.created_at,
        None => now,
    })
}

/// The record of the session `session_id` once the page `response` is
/// merged into `cached`, at the time `now`. Without a record so far, one is
/// made: it starts empty at `now`. The page's activities replace those of
/// the same id; the record then goes on from where the page ended.
pub fn update_cache_incremental(
    cached: Option<SessionCache>,
    session_id: &str,
    response: ListActivitiesResponse,
    now: Moment,
) -> (cache: SessionCache)
    ensures
        is_update(cached, session_id@, response, now, cache),
{
    let mut cache = match cached {
        Some(old) => old,
        None => {
            let fresh = SessionCache {
                session_id: session_id.to_owned(),
                activities: Vec::new(),
                last_page_token: None,
                last_updated: now,
                created_at: now,
            };
            proof {
                assert(activity_views(fresh.activities@) =~= Seq::<ActivityView>::empty());
            }
            fresh
        },
    };
    let mut held: Vec<Activity> = Vec::new();
    std::mem::swap(&mut held, &mut cache.activities);
    cache.activities = merge_activities(held, response.activities);
    cache.last_page_token = response.next_page_token;
    cache.last_updated = now;
    cache
}

/// The record that was found, if one was.
pub open spec fn found_record(lookup: SessionLookup) -> Option<SessionCache> {
    match lookup {
        SessionLookup::Found(cache) => Some(cache),
        _ => None,
    }
}

/// The record of the session `session_id`, of which `lookup` was found,
/// once what was fetched is merged in at the time `now`. A record that
/// cannot be read is an error, whatever was fetched: no new record takes
/// its place. A request that failed is an error too. Else the record is
/// what `update_cache_incremental` gives, and its activities are those of
/// the session as the cache has them.
pub fn refresh_record(lookup: SessionLookup, session_id: &str, fetched: Fetched, now: Moment) -> (r:
    Result<SessionCache, CacheError>)
    ensures
        match lookup {
            SessionLookup::Unreadable => r matches Err(e) && e == CacheError::Serialization,
            _ => match fetched {
                Fetched::Failed => r matches Err(e) && e == CacheError::RemoteFetch,
                Fetched::Page(response) => r matches Ok(cache) && is_update(
                    found_record(lookup),
                    session_id@,
                    response,
                    now,
                    cache,
                ),
            },
        },
{
    let cached = match lookup {
        SessionLookup::Unreadable => {
            return Err(CacheError::Serialization);
        },
        SessionLookup::Missing => None,
        SessionLookup::Found(cache) => Some(cache),
    };
    match fetched {
        Fetched::Failed => Err(CacheError::RemoteFetch),
        Fetched::Page(response) => Ok(update_cache_incremental(cached, session_id, response, now)),
    }
}

} // verus!
