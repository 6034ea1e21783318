//! Reading the comments on the pull request of a workspace.

use vstd::prelude::*;

use crate::git_host::gitee::HostFailure;
use crate::git_host::types::{GitHostError, ProviderKind, UnifiedPrComment};
use crate::routes::pr::common::{
    attached_pr, find_attached, ApiError, ApiFailure, GitRemote, Lookup, Merge, Repo,
    WorkspaceRepo,
};

verus! {

/// A request for the comments on the pull request of a repository.
#[derive(Clone, Copy, Debug, PartialEq, Eq, Structural)]
pub struct GetPrCommentsQuery {
    pub repo_id: u128,
}

/// The comments on a pull request.
#[derive(Debug, PartialEq, Eq)]
pub struct PrCommentsResponse {
    pub comments: Vec<UnifiedPrComment>,
}

/// Why there are no comments, for the user to act on.
#[allow(inconsistent_fields)]
#[derive(Debug, PartialEq, Eq)]
pub enum GetPrCommentsError {
    NoPrAttached,
    CliNotInstalled { provider: ProviderKind },
    CliVersionUnsupported { provider: ProviderKind, found: String, minimum: String },
    CliNotLoggedIn { provider: ProviderKind },
}

/// Model of [`GetPrCommentsError`].
#[allow(inconsistent_fields)]
pub enum CommentsErrorView {
    NoPrAttached,
    CliNotInstalled { provider: ProviderKind },
    CliVersionUnsupported { provider: ProviderKind, found: Seq<char>, minimum: Seq<char> },
    CliNotLoggedIn { provider: ProviderKind },
}

impl View for GetPrCommentsError {
    type V = CommentsErrorView;

    open spec fn view(&self) -> CommentsErrorView {
        match self {
            GetPrCommentsError::NoPrAttached => CommentsErrorView::NoPrAttached,
            GetPrCommentsError::CliNotInstalled { provider } =>
                CommentsErrorView::CliNotInstalled { provider: *provider },
            GetPrCommentsError::CliVersionUnsupported { provider, found, minimum } =>
                CommentsErrorView::CliVersionUnsupported {
                provider: *provider,
                found: found@,
                minimum: minimum@,
            },
            GetPrCommentsError::CliNotLoggedIn { provider } => CommentsErrorView::CliNotLoggedIn {
                provider: *provider,
            },
        }
    }
}

/// A run that reads comments: the query, and what is known so far.
#[derive(Debug, PartialEq, Eq)]
pub struct CommentsRun {
    pub query: GetPrCommentsQuery,
    pub workspace_repo: Lookup<WorkspaceRepo>,
    pub repo: Lookup<Repo>,
    /// The merges of the repository, as they are listed.
    pub merges: Option<Vec<Merge>>,
    pub remote: Option<GitRemote>,
    pub host: Option<Result<ProviderKind, GitHostError>>,
    /// Why the provider gave no comments, where it was asked.
    pub fetched: Option<Result<(), GitHostError>>,
}

/// What a run does or looks up next.
#[allow(inconsistent_fields)]
#[derive(Debug, PartialEq, Eq)]
pub enum CommentsAction {
    FindWorkspaceRepo { repo_id: u128 },
    FindRepo { repo_id: u128 },
    FindMerges { repo_id: u128 },
    ResolveRemote { branch: String },
    OpenHost { remote_url: String },
    FetchComments { remote_url: String, number: i64 },
    /// The comments that were fetched are reported.
    Show,
    Refuse(GetPrCommentsError),
    Fail(ApiError),
}

/// Model of [`CommentsAction`].
#[allow(inconsistent_fields)]
pub enum CommentsStep {
    FindWorkspaceRepo { repo_id: u128 },
    FindRepo { repo_id: u128 },
    FindMerges { repo_id: u128 },
    ResolveRemote { branch: Seq<char> },
    OpenHost { remote_url: Seq<char> },
    FetchComments { remote_url: Seq<char>, number: i64 },
    Show,
    Refuse(CommentsErrorView),
    Fail(ApiFailure),
}

impl View for CommentsAction {
    type V = CommentsStep;

    open spec fn view(&self) -> CommentsStep {
        match self {
            CommentsAction::FindWorkspaceRepo { repo_id } => CommentsStep::FindWorkspaceRepo {
                repo_id: *repo_id,
            },
            CommentsAction::FindRepo { repo_id } => CommentsStep::FindRepo { repo_id: *repo_id },
            CommentsAction::FindMerges { repo_id } => CommentsStep::FindMerges {
                repo_id: *repo_id,
            },
            CommentsAction::ResolveRemote { branch } => CommentsStep::ResolveRemote {
                branch: branch@,
            },
            CommentsAction::OpenHost { remote_url } => CommentsStep::OpenHost {
                remote_url: remote_url@,
            },
            CommentsAction::FetchComments { remote_url, number } => CommentsStep::FetchComments {
                remote_url: remote_url@,
                number: *number,
            },
            CommentsAction::Show => CommentsStep::Show,
            CommentsAction::Refuse(error) => CommentsStep::Refuse(error@),
            CommentsAction::Fail(error) => CommentsStep::Fail(error@),
        }
    }
}

/// How a run ends where no provider serves the remote.
pub open spec fn opened_end(failure: HostFailure) -> CommentsStep {
    match failure {
        HostFailure::CliNotInstalled(provider) => CommentsStep::Refuse(
            CommentsErrorView::CliNotInstalled { provider },
        ),
        _ => CommentsStep::Fail(ApiFailure::GitHost(failure)),
    }
}

/// How a run ends where the provider gives no comments.
pub open spec fn fetched_end(failure: HostFailure, provider: ProviderKind) -> CommentsStep {
    match failure {
        HostFailure::CliNotInstalled(provider) => CommentsStep::Refuse(
            CommentsErrorView::CliNotInstalled { provider },
        ),
        HostFailure::CliVersionUnsupported { provider, found, minimum } => CommentsStep::Refuse(
            CommentsErrorView::CliVersionUnsupported { provider, found, minimum },
        ),
        HostFailure::AuthFailed(_) => CommentsStep::Refuse(
            CommentsErrorView::CliNotLoggedIn { provider },
        ),
        _ => CommentsStep::Fail(ApiFailure::GitHost(failure)),
    }
}

/// What a run does once the pull request is known.
pub open spec fn fetch_step(run: CommentsRun, workspace_repo: WorkspaceRepo, number: i64) ->
    CommentsStep {
    match run.remote {
        None => CommentsStep::ResolveRemote { branch: workspace_repo.target_branch@ },
        Some(remote) => match run.host {
            None => CommentsStep::OpenHost { remote_url: remote.url@ },
            Some(Err(error)) => opened_end(error@),
            Some(Ok(provider)) => match run.fetched {
                None => CommentsStep::FetchComments { remote_url: remote.url@, number },
                Some(Err(error)) => fetched_end(error@, provider),
                Some(Ok(_)) => CommentsStep::Show,
            },
        },
    }
}

/// What a run does or looks up next.
pub open spec fn comments_step(run: CommentsRun) -> CommentsStep {
    match run.workspace_repo {
        Lookup::Unknown => CommentsStep::FindWorkspaceRepo { repo_id: run.query.repo_id },
        Lookup::Missing => CommentsStep::Fail(ApiFailure::RepoNotFound),
        Lookup::Found(workspace_repo) => match run.repo {
            Lookup::Unknown => CommentsStep::FindRepo { repo_id: workspace_repo.repo_id },
            Lookup::Missing => CommentsStep::Fail(ApiFailure::RepoNotFound),
            Lookup::Found(_) => match run.merges {
                None => CommentsStep::FindMerges { repo_id: run.query.repo_id },
                Some(merges) => match attached_pr(merges@) {
                    None => CommentsStep::Refuse(CommentsErrorView::NoPrAttached),
                    Some(pr) => fetch_step(run, workspace_repo, pr.number),
                },
            },
        },
    }
}

fn end_of_opened(error: &GitHostError) -> (action: CommentsAction)
    ensures
        action@ == opened_end(error@),
{
    match error {
        GitHostError::CliNotInstalled { provider } => CommentsAction::Refuse(
            GetPrCommentsError::CliNotInstalled { provider: *provider },
        ),
        _ => CommentsAction::Fail(ApiError::GitHost(error.copy())),
    }
}

fn end_of_fetched(error: &GitHostError, provider: ProviderKind) -> (action: CommentsAction)
    ensures
        action@ == fetched_end(error@, provider),
{
    match error {
        GitHostError::CliNotInstalled { provider } => CommentsAction::Refuse(
            GetPrCommentsError::CliNotInstalled { provider: *provider },
        ),
        GitHostError::CliVersionUnsupported { provider, found, minimum } => CommentsAction::Refuse(
            GetPrCommentsError::CliVersionUnsupported {
                provider: *provider,
                found: found.clone(),
                minimum: minimum.clone(),
            },
        ),
        GitHostError::AuthFailed(_) => CommentsAction::Refuse(
            GetPrCommentsError::CliNotLoggedIn { provider },
        ),
        _ => CommentsAction::Fail(ApiError::GitHost(error.copy())),
    }
}

impl CommentsRun {
    /// A run of which nothing is known yet.
    pub fn new(query: GetPrCommentsQuery) -> (run: Self)
        ensures
            run == (CommentsRun {
                query,
                workspace_repo: Lookup::Unknown,
                repo: Lookup::Unknown,
                merges: None,
                remote: None,
                host: None,
                fetched: None,
            }),
    {
        CommentsRun {
            query,
            workspace_repo: Lookup::Unknown,
            repo: Lookup::Unknown,
            merges: None,
            remote: None,
            host: None,
            fetched: None,
        }
    }

    fn fetch(&self, workspace_repo: &WorkspaceRepo, number: i64) -> (action: CommentsAction)
        ensures
            action@ == fetch_step(*self, *workspace_repo, number),
    {
        let remote = match &self.remote {
            None => {
                return CommentsAction::ResolveRemote {
                    branch: workspace_repo.target_branch.clone(),
                };
            },
            Some(remote) => remote,
        };
        let provider = match &self.host {
            None => {
                return CommentsAction::OpenHost { remote_url: remote.url.clone() };
            },
            Some(Err(error)) => {
                return end_of_opened(error);
            },
            Some(Ok(provider)) => *provider,
        };
        match &self.fetched {
            None => CommentsAction::FetchComments { remote_url: remote.url.clone(), number },
            Some(Err(error)) => end_of_fetched(error, provider),
            Some(Ok(_)) => CommentsAction::Show,
        }
    }

    /// What this run does or looks up next.
    pub fn next(&self) -> (action: CommentsAction)
        ensures
            action@ == comments_step(*self),
    {
        let workspace_repo = match &self.workspace_repo {
            Lookup::Unknown => {
                return CommentsAction::FindWorkspaceRepo { repo_id: self.query.repo_id };
            },
            Lookup::Missing => {
                return CommentsAction::Fail(ApiError::RepoNotFound);
            },
            Lookup::Found(workspace_repo) => workspace_repo,
        };
        match &self.repo {
            Lookup::Unknown => {
                return CommentsAction::FindRepo { repo_id: workspace_repo.repo_id };
            },
            Lookup::Missing => {
                return CommentsAction::Fail(ApiError::RepoNotFound);
            },
            Lookup::Found(_) => {},
        }
        match &self.merges {
            None => CommentsAction::FindMerges { repo_id: self.query.repo_id },
            Some(merges) => match find_attached(merges) {
                None => CommentsAction::Refuse(GetPrCommentsError::NoPrAttached),
                Some(pr) => self.fetch(workspace_repo, pr.number),
            },
        }
    }
}

/// Comments are fetched for the attached pull request and no other.
pub proof fn law_comments_are_those_of_the_attached_pr(run: CommentsRun)
    ensures
        comments_step(run) matches CommentsStep::FetchComments { number, .. } ==> (
        run.merges matches Some(merges) && attached_pr(merges@) matches Some(pr) && pr.number
            == number),
        comments_step(run) is Show ==> (run.fetched matches Some(Ok(_))),
{
}

/// Whether a step asks for something that is known already.
pub open spec fn is_known(run: CommentsRun, step: CommentsStep) -> bool {
    match step {
        CommentsStep::FindWorkspaceRepo { .. } => run.workspace_repo !is Unknown,
        CommentsStep::FindRepo { .. } => run.repo !is Unknown,
        CommentsStep::FindMerges { .. } => run.merges is Some,
        CommentsStep::ResolveRemote { .. } => run.remote is Some,
        CommentsStep::OpenHost { .. } => run.host is Some,
        CommentsStep::FetchComments { .. } => run.fetched is Some,
        _ => false,
    }
}

/// Nothing is looked up twice: a run asks for nothing that it knows.
pub proof fn law_comments_ask_nothing_twice(run: CommentsRun)
    ensures
        !is_known(run, comments_step(run)),
{
}

/// Whether the repository of a run is known, and its first merge is a pull
/// request: the one whose comments are read.
pub open spec fn reads_comments_of(run: CommentsRun, number: i64) -> bool {
    run.workspace_repo is Found && run.repo is Found && (run.merges matches Some(merges)
        && merges@.len() > 0 && (merges@[0] matches Merge::Pr(pr) && pr.number == number))
}

/// The comments are those of the pull request that is the first merge, and are
/// asked of the provider of the remote of the target branch. Once they are there
/// they are shown.
pub proof fn law_comments_of_the_first_merge_are_read(run: CommentsRun, number: i64)
    requires
        reads_comments_of(run, number),
    ensures
        run.workspace_repo matches Lookup::Found(workspace_repo) ==> (run.remote is None
            ==> comments_step(run) == CommentsStep::ResolveRemote {
            branch: workspace_repo.target_branch@,
        }),
        run.remote matches Some(remote) ==> {
            &&& run.host is None ==> comments_step(run) == CommentsStep::OpenHost {
                remote_url: remote.url@,
            }
            &&& run.host matches Some(Ok(_)) ==> {
                &&& run.fetched is None ==> comments_step(run) == CommentsStep::FetchComments {
                    remote_url: remote.url@,
                    number,
                }
                &&& run.fetched matches Some(Ok(_)) ==> comments_step(run) is Show
            }
        },
{
}

/// Where no pull request is attached, because there is no merge or the first is
/// that of a branch, the user is told so, and nothing is asked of a provider.
pub proof fn law_no_comments_without_a_pr(run: CommentsRun)
    requires
        run.workspace_repo is Found,
        run.repo is Found,
        run.merges matches Some(merges) && (merges@.len() == 0 || merges@[0] is Direct),
    ensures
        comments_step(run) == CommentsStep::Refuse(CommentsErrorView::NoPrAttached),
{
}

/// The repository is the one that is asked for, and where it is missing the
/// request fails.
pub proof fn law_comments_need_the_repository(run: CommentsRun)
    ensures
        run.workspace_repo is Unknown ==> comments_step(run) == (CommentsStep::FindWorkspaceRepo {
            repo_id: run.query.repo_id,
        }),
        run.workspace_repo matches Lookup::Found(workspace_repo) ==> (run.repo is Unknown
            ==> comments_step(run) == CommentsStep::FindRepo { repo_id: workspace_repo.repo_id }),
        run.workspace_repo is Found && run.repo is Found && run.merges is None ==> comments_step(
            run,
        ) == (CommentsStep::FindMerges { repo_id: run.query.repo_id }),
        run.workspace_repo is Missing || (run.workspace_repo is Found && run.repo is Missing)
            ==> comments_step(run) == CommentsStep::Fail(ApiFailure::RepoNotFound),
{
}

/// What keeps the comments from being read is reported. That the tool of the
/// provider is missing, too old or not logged in has a name of its own.
pub proof fn law_comment_failures_are_reported(run: CommentsRun, number: i64)
    requires
        reads_comments_of(run, number),
        run.remote is Some,
    ensures
        run.host matches Some(Err(error)) ==> comments_step(run) == match error@ {
            HostFailure::CliNotInstalled(provider) => CommentsStep::Refuse(
                CommentsErrorView::CliNotInstalled { provider },
            ),
            other => CommentsStep::Fail(ApiFailure::GitHost(other)),
        },
        run.host matches Some(Ok(opened)) ==> (run.fetched matches Some(Err(error))
            ==> comments_step(run) == match error@ {
            HostFailure::CliNotInstalled(provider) => CommentsStep::Refuse(
                CommentsErrorView::CliNotInstalled { provider },
            ),
            HostFailure::CliVersionUnsupported { provider, found, minimum } =>
                CommentsStep::Refuse(
                CommentsErrorView::CliVersionUnsupported { provider, found, minimum },
            ),
            HostFailure::AuthFailed(_) => CommentsStep::Refuse(
                CommentsErrorView::CliNotLoggedIn { provider: opened },
            ),
            other => CommentsStep::Fail(ApiFailure::GitHost(other)),
        }),
{
}

/// The model of [`GetPrCommentsError`] holds what the value does, part by part.
pub proof fn law_model_of_get_pr_comments_error(value: GetPrCommentsError)
    ensures
        match value {
            GetPrCommentsError::NoPrAttached => value@ == CommentsErrorView::NoPrAttached,
            GetPrCommentsError::CliNotInstalled { provider } =>
                value@ == (CommentsErrorView::CliNotInstalled {
                    provider,
                }),
            GetPrCommentsError::CliVersionUnsupported { provider, found, minimum } =>
                value@ == (CommentsErrorView::CliVersionUnsupported {
                    provider,
                    found: found@,
                    minimum: minimum@,
                }),
            GetPrCommentsError::CliNotLoggedIn { provider } =>
                value@ == (CommentsErrorView::CliNotLoggedIn {
                    provider,
                }),
        },
{
}

/// The model of [`CommentsAction`] holds what the value does, part by part.
pub proof fn law_model_of_comments_action(value: CommentsAction)
    ensures
        match value {
            CommentsAction::FindWorkspaceRepo { repo_id } =>
                value@ == (CommentsStep::FindWorkspaceRepo {
                    repo_id,
                }),
            CommentsAction::FindRepo { repo_id } => value@ == (CommentsStep::FindRepo { repo_id }),
            CommentsAction::FindMerges { repo_id } => value@ == (CommentsStep::FindMerges {
                repo_id,
            }),
            CommentsAction::ResolveRemote { branch } => value@ == (CommentsStep::ResolveRemote {
                branch: branch@,
            }),
            CommentsAction::OpenHost { remote_url } => value@ == (CommentsStep::OpenHost {
                remote_url: remote_url@,
            }),
            CommentsAction::FetchComments { remote_url, number } =>
                value@ == (CommentsStep::FetchComments {
                    remote_url: remote_url@,
                    number,
                }),
            CommentsAction::Show => value@ == CommentsStep::Show,
            CommentsAction::Refuse(error) => value@ == CommentsStep::Refuse(error@),
            CommentsAction::Fail(error) => value@ == CommentsStep::Fail(error@),
        },
{
}

} // verus!
