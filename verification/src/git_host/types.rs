//! What git hosts have in common.

use vstd::prelude::*;

use crate::sorting::{not_after, Sortable, Timestamp};
use crate::text::opt_view;

verus! {

/// A git hosting provider.
#[derive(Clone, Copy, Debug, PartialEq, Eq, Structural)]
pub enum ProviderKind {
    GitHub,
    AzureDevOps,
    Gitee,
    Unknown,
}

/// Why a git host refused or failed.
#[allow(inconsistent_fields)]
#[derive(Debug, PartialEq, Eq)]
pub enum GitHostError {
    Repository(String),
    PullRequest(String),
    AuthFailed(String),
    InsufficientPermissions(String),
    RepoNotFoundOrNoAccess(String),
    CliNotInstalled { provider: ProviderKind },
    CliVersionUnsupported { provider: ProviderKind, found: String, minimum: String },
    UnsupportedProvider,
    UnexpectedOutput(String),
}

impl GitHostError {
    /// A copy of this error.
    pub fn copy(&self) -> (copied: Self)
        ensures
            copied == *self,
    {
        match self {
            GitHostError::Repository(message) => GitHostError::Repository(message.clone()),
            GitHostError::PullRequest(message) => GitHostError::PullRequest(message.clone()),
            GitHostError::AuthFailed(message) => GitHostError::AuthFailed(message.clone()),
            GitHostError::InsufficientPermissions(message) =>
                GitHostError::InsufficientPermissions(message.clone()),
            GitHostError::RepoNotFoundOrNoAccess(message) =>
                GitHostError::RepoNotFoundOrNoAccess(message.clone()),
            GitHostError::CliNotInstalled { provider } => GitHostError::CliNotInstalled {
                provider: *provider,
            },
            GitHostError::CliVersionUnsupported { provider, found, minimum } =>
                GitHostError::CliVersionUnsupported {
                provider: *provider,
                found: found.clone(),
                minimum: minimum.clone(),
            },
            GitHostError::UnsupportedProvider => GitHostError::UnsupportedProvider,
            GitHostError::UnexpectedOutput(message) => GitHostError::UnexpectedOutput(
                message.clone(),
            ),
        }
    }
}

/// Where a pull request stands.
#[derive(Clone, Copy, Debug, PartialEq, Eq, Structural)]
pub enum MergeStatus {
    Open,
    Merged,
    Closed,
    Unknown,
}

/// A pull request.
#[derive(Debug, PartialEq, Eq)]
pub struct PullRequestInfo {
    pub number: i64,
    pub url: String,
    pub status: MergeStatus,
    pub merged_at: Option<Timestamp>,
    pub merge_commit_sha: Option<String>,
}

/// Model of [`PullRequestInfo`].
pub struct PrView {
    pub number: i64,
    pub url: Seq<char>,
    pub status: MergeStatus,
    pub merged_at: Option<Timestamp>,
    pub merge_commit_sha: Option<Seq<char>>,
}

impl View for PullRequestInfo {
    type V = PrView;

    open spec fn view(&self) -> PrView {
        PrView {
            number: self.number,
            url: self.url@,
            status: self.status,
            merged_at: self.merged_at,
            merge_commit_sha: opt_view(self.merge_commit_sha),
        }
    }
}

impl PullRequestInfo {
    /// A copy of this pull request.
    pub fn copy(&self) -> (copied: Self)
        ensures
            copied == *self,
    {
        PullRequestInfo {
            number: self.number,
            url: self.url.clone(),
            status: self.status,
            merged_at: self.merged_at,
            merge_commit_sha: match &self.merge_commit_sha {
                Some(sha) => Some(sha.clone()),
                None => None,
            },
        }
    }
}

/// An open pull request.
#[derive(Debug, PartialEq, Eq)]
pub struct OpenPrInfo {
    pub number: i64,
    pub url: String,
    pub title: String,
    pub head_branch: String,
    pub base_branch: String,
}

/// A pull request to be created.
#[derive(Debug, PartialEq, Eq)]
pub struct CreatePrRequest {
    pub title: String,
    pub body: Option<String>,
    pub head_branch: String,
    pub base_branch: String,
    pub draft: Option<bool>,
    pub head_repo_url: Option<String>,
}

/// A comment on a pull request.
#[derive(Debug, PartialEq, Eq)]
pub enum UnifiedPrComment {
    General {
        id: String,
        author: String,
        author_association: Option<String>,
        body: String,
        created_at: Timestamp,
        url: Option<String>,
    },
}

/// Model of [`UnifiedPrComment`].
pub struct CommentView {
    pub id: Seq<char>,
    pub author: Seq<char>,
    pub author_association: Option<Seq<char>>,
    pub body: Seq<char>,
    pub created_at: Timestamp,
    pub url: Option<Seq<char>>,
}

impl View for UnifiedPrComment {
    type V = CommentView;

    open spec fn view(&self) -> CommentView {
        match self {
            UnifiedPrComment::General { id, author, author_association, body, created_at, url } =>
                CommentView {
                id: id@,
                author: author@,
                author_association: opt_view(*author_association),
                body: body@,
                created_at: *created_at,
                url: opt_view(*url),
            },
        }
    }
}

impl UnifiedPrComment {
    /// When this comment was made.
    pub fn created_at(&self) -> (moment: Timestamp)
        ensures
            moment == self@.created_at,
    {
        match self {
            UnifiedPrComment::General { created_at, .. } => *created_at,
        }
    }
}

impl Sortable for UnifiedPrComment {
    open spec fn precedes(self, other: UnifiedPrComment) -> bool {
        not_after(self@.created_at, other@.created_at)
    }

    fn may_precede(&self, other: &UnifiedPrComment) -> (may: bool) {
        let moment = self.created_at();
        moment.is_not_after(&other.created_at())
    }
}

/// The model of [`PullRequestInfo`] holds what the value does, part by part.
pub proof fn law_model_of_pull_request_info(value: PullRequestInfo)
    ensures
        value@.number == value.number,
        value@.url == value.url@,
        value@.status == value.status,
        value@.merged_at == value.merged_at,
        value@.merge_commit_sha == opt_view(value.merge_commit_sha),
{
}

/// The model of [`UnifiedPrComment`] holds what the value does, part by part.
pub proof fn law_model_of_unified_pr_comment(value: UnifiedPrComment)
    ensures
        match value {
            UnifiedPrComment::General { id, author, author_association, body, created_at, url } =>
                value@ == (CommentView {
                    id: id@,
                    author: author@,
                    author_association: opt_view(author_association),
                    body: body@,
                    created_at,
                    url: opt_view(url),
                }),
        },
{
}

} // verus!
