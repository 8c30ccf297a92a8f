//! Fetching all activities of a session that has no record yet: page
//! after page, up to a ceiling.

use crate::activity_cache::merge::{newest_first_of, sort_newest_first};
use crate::activity_cache::refresh::CacheError;
use crate::text::opt_text;
use crate::types::activity::{activity_views, Activity, ActivityView, ListActivitiesResponse};
use vstd::prelude::*;

verus! {

/// No further page is asked for once this many activities are there.
pub const MAX_ACTIVITIES_TO_FETCH: usize = 100;

/// How many activities are asked for with each page.
pub const ACTIVITIES_PAGE_SIZE: u32 = 50;

/// A page to ask the session service for.
#[derive(Debug)]
pub struct PageRequest {
    pub page_size: u32,
    /// Where the page starts; `None`: at the start.
    pub page_token: Option<String>,
}

/// A fetch of all activities that is under way: what has come so far.
#[derive(Debug)]
pub struct FullFetch {
    pub collected: Vec<Activity>,
}

/// How a fetch goes on after a page has come.
#[derive(Debug)]
pub enum FetchStep {
    /// One more page is to be asked for.
    More(FullFetch, PageRequest),
    /// The fetch is over: all that came, the newest first.
    Done(Vec<Activity>),
}

/// What came of asking the service for a page.
#[derive(Debug)]
pub enum Fetched {
    /// The page.
    Page(ListActivitiesResponse),
    /// No page: the request failed.
    Failed,
}

/// Whether a fetch ends with a page after which `count` activities are
/// there and the service names `next` as the following page.
pub open spec fn fetch_ends(count: nat, next: Option<Seq<char>>) -> bool {
    next is None || count >= MAX_ACTIVITIES_TO_FETCH
}

/// `step` is how a fetch that has `collected` goes on after the page
/// `response`: it is over, with all activities the newest first, where the
/// service names no further page or the ceiling is reached; else it asks
/// for the page that the service named, with all activities collected.
pub open spec fn goes_on_as(
    collected: Seq<ActivityView>,
    response: ListActivitiesResponse,
    step: FetchStep,
) -> bool {
    let all = collected + activity_views(response.activities@);
    if fetch_ends(all.len(), opt_text(response.next_page_token)) {
        step matches FetchStep::Done(list) && activity_views(list@) == newest_first_of(all)
    } else {
        step matches FetchStep::More(fetch, request) && activity_views(fetch.collected@) == all
            && request.page_size == ACTIVITIES_PAGE_SIZE && opt_text(request.page_token)
            == opt_text(response.next_page_token)
    }
}

impl FullFetch {
    /// A fetch at its start, and the first page to ask for.
    pub fn start() -> (r: (FullFetch, PageRequest))
        ensures
            r.0.collected@.len() == 0,
            r.1.page_size == ACTIVITIES_PAGE_SIZE,
            r.1.page_token is None,
    {
        (
            FullFetch { collected: Vec::new() },
            PageRequest { page_size: ACTIVITIES_PAGE_SIZE, page_token: None },
        )
    }

    /// Takes the page `response`. The fetch ends where the service names
    /// no further page or the ceiling is reached; else the page that the
    /// service named is the next to ask for.
    pub fn accept(self, response: ListActivitiesResponse) -> (step: FetchStep)
        ensures
            goes_on_as(activity_views(self.collected@), response, step),
    {
        let ghost all = activity_views(self.collected@) + activity_views(response.activities@);
        let mut collected = self.collected;
        let mut page = response.activities;
        collected.append(&mut page);
        proof {
            assert(activity_views(collected@) =~= all);
        }
        match response.next_page_token {
            None => FetchStep::Done(sort_newest_first(collected)),
            Some(token) => {
                if collected.len() >= MAX_ACTIVITIES_TO_FETCH {
                    FetchStep::Done(sort_newest_first(collected))
                } else {
                    FetchStep::More(
                        FullFetch { collected },
                        PageRequest { page_size: ACTIVITIES_PAGE_SIZE, page_token: Some(token) },
                    )
                }
            },
        }
    }

    /// Takes what came of asking for a page. A request that failed ends
    /// the fetch with an error, and nothing of what was collected is handed
    /// on; a page is taken as `accept` takes it.
    pub fn take(self, event: Fetched) -> (r: Result<FetchStep, CacheError>)
        ensures
            match event {
                Fetched::Failed => r matches Err(e) && e == CacheError::RemoteFetch,
                Fetched::Page(response) => r matches Ok(step) && goes_on_as(
                    activity_views(self.collected@),
                    response,
                    step,
                ),
            },
    {
        match event {
            Fetched::Failed => Err(CacheError::RemoteFetch),
            Fetched::Page(response) => Ok(self.accept(response)),
        }
    }
}

} // verus!
