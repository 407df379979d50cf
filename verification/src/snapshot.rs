//! Point-in-time facts about one repository, as the metadata source reports
//! them. Timestamps are kept as the RFC 3339 texts that were received; a
//! field that the source left out is `None`, an absent list is empty.

use vstd::prelude::*;

verus! {

/// One open issue of a repository.
#[derive(Debug, Clone)]
pub struct IssueCandidate {
    pub title: Option<String>,
    /// The issue's address, which is its key in the store.
    pub url: Option<String>,
    pub created_at: Option<String>,
    pub assignee_count: i64,
    pub labels: Vec<String>,
    /// How many project boards the issue is linked to.
    pub project_count: usize,
    /// When the first comment was written, where there is one.
    pub first_comment_at: Option<String>,
}

/// One merged pull request.
#[derive(Debug, Clone)]
pub struct PullRequestFact {
    pub created_at: Option<String>,
    pub merged_at: Option<String>,
    pub additions: u32,
    pub deletions: u32,
    pub changed_files: u32,
    pub comment_count: u32,
    pub labels: Vec<String>,
}

/// What one fetch learned about a repository.
#[derive(Debug, Clone)]
pub struct RepositorySnapshot {
    /// `owner/name`, the repository's key in the store.
    pub full_name: String,
    pub name: String,
    pub stars: i64,
    pub forks: i64,
    pub pushed_at: Option<String>,
    /// Commits on the default branch in the trailing thirty days.
    pub commits_30d: i64,
    pub mentionable_users: i64,
    /// Size in bytes of the ownership-declaration file; 0 where there is none.
    pub ownership_file_size: i64,
    /// The extension of each immediate entry of the top-level source
    /// directory; empty for an entry without one.
    pub source_extensions: Vec<String>,
    pub issues: Vec<IssueCandidate>,
    pub pull_requests: Vec<PullRequestFact>,
}

} // verus!
