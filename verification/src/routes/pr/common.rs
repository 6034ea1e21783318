//! What the routes for pull requests have in common.

use vstd::prelude::*;

use crate::git_host::gitee::HostFailure;
use crate::git_host::types::{GitHostError, ProviderKind, PullRequestInfo};

verus! {

/// A row that is looked up.
#[derive(Debug, PartialEq, Eq)]
pub enum Lookup<T> {
    /// It has not been looked up.
    Unknown,
    /// There is none.
    Missing,
    Found(T),
}

/// A repository of a workspace.
#[derive(Debug, PartialEq, Eq)]
pub struct WorkspaceRepo {
    pub repo_id: u128,
    pub target_branch: String,
}

/// A repository.
#[derive(Debug, PartialEq, Eq)]
pub struct Repo {
    pub name: String,
}

/// A git remote.
#[derive(Debug, PartialEq, Eq)]
pub struct GitRemote {
    pub name: String,
    pub url: String,
}

/// How many files of a working tree differ from its last commit.
#[derive(Clone, Copy, Debug, PartialEq, Eq, Structural)]
pub struct WorktreeStatus {
    pub uncommitted_tracked: usize,
    pub untracked: usize,
}

/// Whether everything in a working tree is committed.
pub open spec fn is_clean_tree(status: WorktreeStatus) -> bool {
    status.uncommitted_tracked == 0 && status.untracked == 0
}

impl WorktreeStatus {
    /// Whether everything in the working tree is committed.
    pub fn is_clean(&self) -> (clean: bool)
        ensures
            clean == is_clean_tree(*self),
    {
        self.uncommitted_tracked == 0 && self.untracked == 0
    }
}

/// What was merged, or is to be: a branch, or a pull request.
#[derive(Debug, PartialEq, Eq)]
pub enum Merge {
    Direct,
    Pr(PullRequestInfo),
}

/// The pull request that is attached: the first merge, where it is one.
pub open spec fn attached_pr(merges: Seq<Merge>) -> Option<PullRequestInfo> {
    if merges.len() > 0 {
        match merges[0] {
            Merge::Pr(pr) => Some(pr),
            Merge::Direct => None,
        }
    } else {
        None
    }
}

/// The pull request that is attached.
pub fn find_attached(merges: &Vec<Merge>) -> (attached: Option<&PullRequestInfo>)
    ensures
        match attached {
            Some(pr) => attached_pr(merges@) == Some(*pr),
            None => attached_pr(merges@) is None,
        },
{
    if merges.len() > 0 {
        match &merges[0] {
            Merge::Pr(pr) => Some(pr),
            Merge::Direct => None,
        }
    } else {
        None
    }
}

/// Why git could not do something.
#[derive(Debug, PartialEq, Eq)]
pub enum GitFailure {
    AuthFailed,
    NotAvailable,
    Other(String),
}

/// Why a pull request was not created or attached, for the user to act on.
#[allow(inconsistent_fields)]
#[derive(Debug, PartialEq, Eq)]
pub enum PrError {
    CliNotInstalled { provider: ProviderKind },
    CliVersionUnsupported { provider: ProviderKind, found: String, minimum: String },
    CliNotLoggedIn { provider: ProviderKind },
    GitCliNotLoggedIn,
    GitCliNotInstalled,
    TargetBranchNotFound { branch: String },
    SourceBranchChanged,
    UnsupportedProvider,
}

/// Model of [`PrError`].
#[allow(inconsistent_fields)]
pub enum PrErrorView {
    CliNotInstalled { provider: ProviderKind },
    CliVersionUnsupported { provider: ProviderKind, found: Seq<char>, minimum: Seq<char> },
    CliNotLoggedIn { provider: ProviderKind },
    GitCliNotLoggedIn,
    GitCliNotInstalled,
    TargetBranchNotFound { branch: Seq<char> },
    SourceBranchChanged,
    UnsupportedProvider,
}

impl View for PrError {
    type V = PrErrorView;

    open spec fn view(&self) -> PrErrorView {
        match self {
            PrError::CliNotInstalled { provider } => PrErrorView::CliNotInstalled {
                provider: *provider,
            },
            PrError::CliVersionUnsupported { provider, found, minimum } =>
                PrErrorView::CliVersionUnsupported {
                provider: *provider,
                found: found@,
                minimum: minimum@,
            },
            PrError::CliNotLoggedIn { provider } => PrErrorView::CliNotLoggedIn {
                provider: *provider,
            },
            PrError::GitCliNotLoggedIn => PrErrorView::GitCliNotLoggedIn,
            PrError::GitCliNotInstalled => PrErrorView::GitCliNotInstalled,
            PrError::TargetBranchNotFound { branch } => PrErrorView::TargetBranchNotFound {
                branch: branch@,
            },
            PrError::SourceBranchChanged => PrErrorView::SourceBranchChanged,
            PrError::UnsupportedProvider => PrErrorView::UnsupportedProvider,
        }
    }
}

/// Why a request failed.
#[derive(Debug, PartialEq, Eq)]
pub enum ApiError {
    RepoNotFound,
    TaskNotFound,
    Validation(String),
    Git(String),
    GitHost(GitHostError),
}

/// Model of [`ApiError`].
pub enum ApiFailure {
    RepoNotFound,
    TaskNotFound,
    Validation(Seq<char>),
    Git(Seq<char>),
    GitHost(HostFailure),
}

impl View for ApiError {
    type V = ApiFailure;

    open spec fn view(&self) -> ApiFailure {
        match self {
            ApiError::RepoNotFound => ApiFailure::RepoNotFound,
            ApiError::TaskNotFound => ApiFailure::TaskNotFound,
            ApiError::Validation(message) => ApiFailure::Validation(message@),
            ApiError::Git(message) => ApiFailure::Git(message@),
            ApiError::GitHost(error) => ApiFailure::GitHost(error@),
        }
    }
}

/// How a run ends that gives no result: the user is told why, or the request
/// fails.
#[derive(Debug, PartialEq, Eq)]
pub enum PrEnd {
    Refused(PrError),
    Failed(ApiError),
}

/// Model of [`PrEnd`].
pub enum PrEndView {
    Refused(PrErrorView),
    Failed(ApiFailure),
}

impl View for PrEnd {
    type V = PrEndView;

    open spec fn view(&self) -> PrEndView {
        match self {
            PrEnd::Refused(error) => PrEndView::Refused(error@),
            PrEnd::Failed(error) => PrEndView::Failed(error@),
        }
    }
}

/// How a run ends where git fails.
pub open spec fn git_end(failure: GitFailure) -> PrEndView {
    match failure {
        GitFailure::AuthFailed => PrEndView::Refused(PrErrorView::GitCliNotLoggedIn),
        GitFailure::NotAvailable => PrEndView::Refused(PrErrorView::GitCliNotInstalled),
        GitFailure::Other(message) => PrEndView::Failed(ApiFailure::Git(message@)),
    }
}

/// How a run ends where no provider serves a remote.
pub open spec fn open_end(failure: HostFailure) -> PrEndView {
    match failure {
        HostFailure::UnsupportedProvider => PrEndView::Refused(PrErrorView::UnsupportedProvider),
        HostFailure::CliNotInstalled(provider) => PrEndView::Refused(
            PrErrorView::CliNotInstalled { provider },
        ),
        _ => PrEndView::Failed(ApiFailure::GitHost(failure)),
    }
}

/// How a run ends where git fails.
pub fn end_of_git(failure: &GitFailure) -> (end: PrEnd)
    ensures
        end@ == git_end(*failure),
{
    match failure {
        GitFailure::AuthFailed => PrEnd::Refused(PrError::GitCliNotLoggedIn),
        GitFailure::NotAvailable => PrEnd::Refused(PrError::GitCliNotInstalled),
        GitFailure::Other(message) => PrEnd::Failed(ApiError::Git(message.clone())),
    }
}

/// How a run ends where no provider serves a remote.
pub fn end_of_open(error: &GitHostError) -> (end: PrEnd)
    ensures
        end@ == open_end(error@),
{
    match error {
        GitHostError::UnsupportedProvider => PrEnd::Refused(PrError::UnsupportedProvider),
        GitHostError::CliNotInstalled { provider } => PrEnd::Refused(
            PrError::CliNotInstalled { provider: *provider },
        ),
        _ => PrEnd::Failed(ApiError::GitHost(error.copy())),
    }
}

/// The model of [`PrError`] holds what the value does, part by part.
pub proof fn law_model_of_pr_error(value: PrError)
    ensures
        match value {
            PrError::CliNotInstalled { provider } => value@ == (PrErrorView::CliNotInstalled {
                provider,
            }),
            PrError::CliVersionUnsupported { provider, found, minimum } =>
                value@ == (PrErrorView::CliVersionUnsupported {
                    provider,
                    found: found@,
                    minimum: minimum@,
                }),
            PrError::CliNotLoggedIn { provider } => value@ == (PrErrorView::CliNotLoggedIn {
                provider,
            }),
            PrError::GitCliNotLoggedIn => value@ == PrErrorView::GitCliNotLoggedIn,
            PrError::GitCliNotInstalled => value@ == PrErrorView::GitCliNotInstalled,
            PrError::TargetBranchNotFound { branch } =>
                value@ == (PrErrorView::TargetBranchNotFound {
                    branch: branch@,
                }),
            PrError::SourceBranchChanged => value@ == PrErrorView::SourceBranchChanged,
            PrError::UnsupportedProvider => value@ == PrErrorView::UnsupportedProvider,
        },
{
}

/// The model of [`ApiError`] holds what the value does, part by part.
pub proof fn law_model_of_api_error(value: ApiError)
    ensures
        match value {
            ApiError::RepoNotFound => value@ == ApiFailure::RepoNotFound,
            ApiError::TaskNotFound => value@ == ApiFailure::TaskNotFound,
            ApiError::Validation(message) => value@ == ApiFailure::Validation(message@),
            ApiError::Git(message) => value@ == ApiFailure::Git(message@),
            ApiError::GitHost(error) => value@ == ApiFailure::GitHost(error@),
        },
{
}

/// The model of [`PrEnd`] holds what the value does, part by part.
pub proof fn law_model_of_pr_end(value: PrEnd)
    ensures
        match value {
            PrEnd::Refused(error) => value@ == PrEndView::Refused(error@),
            PrEnd::Failed(error) => value@ == PrEndView::Failed(error@),
        },
{
}

/// A working tree is clean exactly where no file in it is changed and none is
/// new.
pub proof fn law_clean_trees_hold_nothing_uncommitted(status: WorktreeStatus)
    ensures
        is_clean_tree(status) ==> status.uncommitted_tracked == 0 && status.untracked == 0,
        status.uncommitted_tracked > 0 || status.untracked > 0 ==> !is_clean_tree(status),
        status.uncommitted_tracked == 0 && status.untracked == 0 ==> is_clean_tree(status),
{
}

/// A pull request is attached exactly where the first merge is one; later merges
/// make no difference.
pub proof fn law_first_merge_decides(pr: PullRequestInfo, rest: Seq<Merge>)
    ensures
        attached_pr(Seq::empty()) is None,
        attached_pr(seq![Merge::Pr(pr)] + rest) == Some(pr),
        attached_pr(seq![Merge::Direct] + rest) is None,
{
}

/// What the user can act on has a name of its own: that git is not logged in or
/// not installed, that no provider serves the remote, and that its tool is
/// missing. Everything else fails as what it is.
pub proof fn law_refusals_are_what_users_can_act_on(message: String, failure: HostFailure)
    ensures
        git_end(GitFailure::AuthFailed) == PrEndView::Refused(PrErrorView::GitCliNotLoggedIn),
        git_end(GitFailure::NotAvailable) == PrEndView::Refused(PrErrorView::GitCliNotInstalled),
        git_end(GitFailure::Other(message)) == PrEndView::Failed(ApiFailure::Git(message@)),
        open_end(HostFailure::UnsupportedProvider) == PrEndView::Refused(
            PrErrorView::UnsupportedProvider,
        ),
        failure matches HostFailure::CliNotInstalled(provider) ==> open_end(failure)
            == PrEndView::Refused(PrErrorView::CliNotInstalled { provider }),
        !(failure is UnsupportedProvider) && !(failure is CliNotInstalled) ==> open_end(failure)
            == PrEndView::Failed(ApiFailure::GitHost(failure)),
{
}

} // verus!
