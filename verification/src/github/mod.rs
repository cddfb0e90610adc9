//! Records of GitHub sources: repositories, issues, pull requests and CI events.
use vstd::prelude::*;

use crate::time::UbuTimestamp;

verus! {

/// A CI run event of a repository.
#[derive(Debug, Clone, PartialEq, Eq)]
pub struct GitHubCiEventSource {
    pub repository: String,
    pub run_id: u64,
    pub status: String,
    pub html_url: String,
    pub updated_at: UbuTimestamp,
}

#[derive(Debug, Clone, Copy, PartialEq, Eq, Hash, Structural)]
pub enum GitHubIssueState {
    Open,
    Closed,
}

/// An issue of a repository.
#[derive(Debug, Clone, PartialEq, Eq)]
pub struct GitHubIssueSource {
    pub repository: String,
    pub number: u64,
    pub title: String,
    pub state: GitHubIssueState,
    pub html_url: String,
    pub updated_at: UbuTimestamp,
}

#[derive(Debug, Clone, Copy, PartialEq, Eq, Hash, Structural)]
pub enum GitHubPrState {
    Open,
    Closed,
    Merged,
}

/// A pull request of a repository.
#[derive(Debug, Clone, PartialEq, Eq)]
pub struct GitHubPrSource {
    pub repository: String,
    pub number: u64,
    pub title: String,
    pub state: GitHubPrState,
    pub html_url: String,
    pub updated_at: UbuTimestamp,
}

/// A repository.
#[derive(Debug, Clone, PartialEq, Eq)]
pub struct GitHubRepositorySource {
    pub owner: String,
    pub name: String,
    pub html_url: String,
}

} // verus!
