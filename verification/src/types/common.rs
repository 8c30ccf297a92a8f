//! What the resources have in common.

use vstd::prelude::*;

verus! {

/// A page of a list: its items, and where the next page starts.
#[derive(Debug, Clone)]
pub struct ListResponse<T> {
    pub items: T,
    /// `None`: this is the last page.
    pub next_page_token: Option<String>,
}

} // verus!
