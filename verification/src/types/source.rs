//! Sources: the repositories that sessions work on.

use vstd::prelude::*;

verus! {

/// A source.
#[derive(Debug, Clone)]
pub struct Source {
    /// The full resource name.
    pub name: String,
    pub id: String,
    pub github_repo: Option<GitHubRepo>,
}

/// A repository on GitHub.
#[derive(Debug, Clone)]
pub struct GitHubRepo {
    pub owner: String,
    pub repo: String,
    pub is_private: Option<bool>,
    pub default_branch: Option<GitHubBranch>,
    pub branches: Vec<GitHubBranch>,
}

/// A branch of a repository.
#[derive(Debug, Clone)]
pub struct GitHubBranch {
    pub display_name: String,
}

/// One page of sources.
#[derive(Debug, Clone)]
pub struct ListSourcesResponse {
    pub sources: Vec<Source>,
    pub next_page_token: Option<String>,
}

} // verus!
