//! Gitee hosting service, backed by the community CLI `ge`.

use vstd::prelude::*;

use crate::git_host::detection::{url_outcome, UrlView};
use crate::git_host::gitee_cli::{
    repo_of, GeCli, GeCliError, GeFailure, GiteeRepoInfo, RepoView, MINIMUM_GE_VERSION,
};
use crate::git_host::redaction::{holds_no_token, law_no_token_is_shown, redact, redacted};
use crate::git_host::types::{CreatePrRequest, GitHostError, ProviderKind};
use crate::text::{concat3, contains, holds_text, lowered, same, to_ascii_lowercase};

verus! {

/// Model of [`GitHostError`].
pub enum HostFailure {
    Repository(Seq<char>),
    PullRequest(Seq<char>),
    AuthFailed(Seq<char>),
    InsufficientPermissions(Seq<char>),
    RepoNotFoundOrNoAccess(Seq<char>),
    CliNotInstalled(ProviderKind),
    CliVersionUnsupported { provider: ProviderKind, found: Seq<char>, minimum: Seq<char> },
    UnsupportedProvider,
    UnexpectedOutput(Seq<char>),
}

impl View for GitHostError {
    type V = HostFailure;

    open spec fn view(&self) -> HostFailure {
        match self {
            GitHostError::Repository(message) => HostFailure::Repository(message@),
            GitHostError::PullRequest(message) => HostFailure::PullRequest(message@),
            GitHostError::AuthFailed(message) => HostFailure::AuthFailed(message@),
            GitHostError::InsufficientPermissions(message) =>
                HostFailure::InsufficientPermissions(message@),
            GitHostError::RepoNotFoundOrNoAccess(message) =>
                HostFailure::RepoNotFoundOrNoAccess(message@),
            GitHostError::CliNotInstalled { provider } => HostFailure::CliNotInstalled(*provider),
            GitHostError::CliVersionUnsupported { provider, found, minimum } =>
                HostFailure::CliVersionUnsupported {
                provider: *provider,
                found: found@,
                minimum: minimum@,
            },
            GitHostError::UnsupportedProvider => HostFailure::UnsupportedProvider,
            GitHostError::UnexpectedOutput(message) => HostFailure::UnexpectedOutput(message@),
        }
    }
}

/// Whether a message says that permission is missing.
pub open spec fn is_forbidden(message: Seq<char>) -> bool {
    ||| holds_text(lowered(message), "403"@)
    ||| holds_text(lowered(message), "forbidden"@)
    ||| holds_text(message, "无权限"@)
}

/// Whether a message says that something was not found.
pub open spec fn is_missing(message: Seq<char>) -> bool {
    ||| holds_text(lowered(message), "404"@)
    ||| holds_text(lowered(message), "not found"@)
    ||| holds_text(message, "不存在"@)
}

/// What a failure of `ge` is to users of a git host. What it is goes by the text
/// as it came; users get the text without credentials.
pub open spec fn host_failure(failure: GeFailure) -> HostFailure {
    match failure {
        GeFailure::AuthFailed(message) => HostFailure::AuthFailed(redacted(message)),
        GeFailure::NotAvailable => HostFailure::CliNotInstalled(ProviderKind::Gitee),
        GeFailure::UnsupportedVersion { found, .. } => HostFailure::CliVersionUnsupported {
            provider: ProviderKind::Gitee,
            found,
            minimum: MINIMUM_GE_VERSION@,
        },
        GeFailure::CommandFailed(message) => if is_forbidden(message) {
            HostFailure::InsufficientPermissions(redacted(message))
        } else if is_missing(message) {
            HostFailure::RepoNotFoundOrNoAccess(redacted(message))
        } else {
            HostFailure::PullRequest(redacted(message))
        },
        GeFailure::UnexpectedOutput(message) => HostFailure::UnexpectedOutput(redacted(message)),
    }
}

/// What a failure of `ge` is to users of a git host, without credentials.
pub fn host_error(error: GeCliError) -> (host: GitHostError)
    ensures
        host@ == host_failure(error@),
{
    match error {
        GeCliError::AuthFailed(message) => GitHostError::AuthFailed(redact(&message)),
        GeCliError::NotAvailable => GitHostError::CliNotInstalled { provider: ProviderKind::Gitee },
        GeCliError::UnsupportedVersion { found, .. } => GitHostError::CliVersionUnsupported {
            provider: ProviderKind::Gitee,
            found,
            minimum: MINIMUM_GE_VERSION.to_owned(),
        },
        GeCliError::CommandFailed(message) => {
            let lower = to_ascii_lowercase(&message);
            if contains(&lower, "403") || contains(&lower, "forbidden") || contains(
                &message,
                "无权限",
            ) {
                GitHostError::InsufficientPermissions(redact(&message))
            } else if contains(&lower, "404") || contains(&lower, "not found") || contains(
                &message,
                "不存在",
            ) {
                GitHostError::RepoNotFoundOrNoAccess(redact(&message))
            } else {
                GitHostError::PullRequest(redact(&message))
            }
        },
        GeCliError::UnexpectedOutput(message) => GitHostError::UnexpectedOutput(redact(&message)),
    }
}

/// The text of a failure that repeats what a program printed or a URL held.
pub open spec fn host_text(failure: HostFailure) -> Option<Seq<char>> {
    match failure {
        HostFailure::Repository(message) => Some(message),
        HostFailure::PullRequest(message) => Some(message),
        HostFailure::AuthFailed(message) => Some(message),
        HostFailure::InsufficientPermissions(message) => Some(message),
        HostFailure::RepoNotFoundOrNoAccess(message) => Some(message),
        HostFailure::UnexpectedOutput(message) => Some(message),
        _ => None,
    }
}

/// Whatever `ge` did, users get its text without credentials: the text of a
/// failure is the redacted one, so nothing in it is long enough to be a token.
pub proof fn law_failures_show_no_credentials(failure: GeFailure)
    ensures
        host_text(host_failure(failure)) == match failure {
            GeFailure::CommandFailed(message) => Some(redacted(message)),
            GeFailure::AuthFailed(message) => Some(redacted(message)),
            GeFailure::UnexpectedOutput(message) => Some(redacted(message)),
            _ => None,
        },
        host_text(host_failure(failure)) matches Some(text) ==> holds_no_token(text),
{
    match failure {
        GeFailure::CommandFailed(message) => law_no_token_is_shown(message),
        GeFailure::AuthFailed(message) => law_no_token_is_shown(message),
        GeFailure::UnexpectedOutput(message) => law_no_token_is_shown(message),
        _ => {},
    }
}

/// Taking credentials out does not change what a failure is: where permission
/// is missing, or something was not found, is told from the text as it came.
pub proof fn law_failures_are_told_from_the_whole_text(message: Seq<char>)
    ensures
        host_failure(GeFailure::CommandFailed(message)) is InsufficientPermissions <==> is_forbidden(
            message,
        ),
        host_failure(GeFailure::CommandFailed(message)) is RepoNotFoundOrNoAccess <==> is_missing(
            message,
        ) && !is_forbidden(message),
{
}

/// What is asked of `ge`.
#[derive(Clone, Copy, Debug, PartialEq, Eq, Structural)]
pub enum GeOperation {
    CreatePr,
    ViewPr,
    ListPrs,
    FetchComments,
    ListOpenPrs,
}

/// What an operation is called in messages.
pub open spec fn operation_text(operation: GeOperation) -> Seq<char> {
    match operation {
        GeOperation::CreatePr => "PR creation"@,
        GeOperation::ViewPr => "viewing PR"@,
        GeOperation::ListPrs => "listing PRs"@,
        GeOperation::FetchComments => "fetching comments"@,
        GeOperation::ListOpenPrs => "listing open PRs"@,
    }
}

impl GeOperation {
    /// What this operation is called in messages.
    pub fn text(&self) -> (text: &'static str)
        ensures
            text@ == operation_text(*self),
    {
        match self {
            GeOperation::CreatePr => "PR creation",
            GeOperation::ViewPr => "viewing PR",
            GeOperation::ListPrs => "listing PRs",
            GeOperation::FetchComments => "fetching comments",
            GeOperation::ListOpenPrs => "listing open PRs",
        }
    }
}

/// The failure of an attempt whose task did not finish.
pub open spec fn task_failure(operation: GeOperation, message: Seq<char>) -> HostFailure {
    HostFailure::PullRequest(
        "Failed to execute Gitee CLI for "@ + operation_text(operation) + ": "@ + redacted(message),
    )
}

/// The repository that a remote names, as a git host reports it.
pub open spec fn host_repo(remote: Seq<char>, url: Option<UrlView>) -> Result<
    RepoView,
    HostFailure,
> {
    match repo_of(remote, url) {
        Ok(repo) => Ok(repo),
        Err(failure) => Err(host_failure(failure)),
    }
}

/// The repository in which a pull request is to be created: that of the
/// target. A request whose head is in another repository is refused.
pub open spec fn create_target(
    target: Result<RepoView, HostFailure>,
    head: Option<Result<RepoView, HostFailure>>,
) -> Result<RepoView, HostFailure> {
    match target {
        Err(failure) => Err(failure),
        Ok(repo) => match head {
            None => Ok(repo),
            Some(Err(failure)) => Err(failure),
            Some(Ok(head)) => if head == repo {
                Ok(repo)
            } else {
                Err(
                    HostFailure::PullRequest(
                        "Cross-fork pull requests are not supported for Gitee"@,
                    ),
                )
            },
        },
    }
}

/// The model of a repository that a git host reports.
pub open spec fn host_outcome(repo: Result<GiteeRepoInfo, GitHostError>) -> Result<
    RepoView,
    HostFailure,
> {
    match repo {
        Ok(repo) => Ok(repo@),
        Err(error) => Err(error@),
    }
}

/// The model of the repository of a head, where there is one.
pub open spec fn opt_outcome(repo: Option<Result<GiteeRepoInfo, GitHostError>>) -> Option<
    Result<RepoView, HostFailure>,
> {
    match repo {
        Some(repo) => Some(host_outcome(repo)),
        None => None,
    }
}

/// Gitee as a git host.
#[derive(Clone, Copy, Debug, PartialEq, Eq, Structural)]
pub struct GiteeProvider {
    pub ge_cli: GeCli,
}

impl GiteeProvider {
    /// The provider.
    pub fn new() -> (provider: Result<Self, GitHostError>)
        ensures
            provider == Ok::<GiteeProvider, GitHostError>(GiteeProvider { ge_cli: GeCli }),
    {
        Ok(GiteeProvider { ge_cli: GeCli::new() })
    }

    /// The kind of this provider.
    pub fn provider_kind(&self) -> (kind: ProviderKind)
        ensures
            kind == ProviderKind::Gitee,
    {
        ProviderKind::Gitee
    }

    /// The repository that a remote names.
    pub fn repo_info(remote_url: &str) -> (repo: Result<GiteeRepoInfo, GitHostError>)
        ensures
            host_outcome(repo) == host_repo(remote_url@, url_outcome(remote_url@)),
    {
        match GeCli::parse_repo_url(remote_url) {
            Ok(repo) => Ok(repo),
            Err(error) => Err(host_error(error)),
        }
    }

    /// The repository in which a pull request is to be created, given that of
    /// the target and that of the head, where the head names one.
    pub fn check_repos(
        target: Result<GiteeRepoInfo, GitHostError>,
        head: Option<Result<GiteeRepoInfo, GitHostError>>,
    ) -> (repo: Result<GiteeRepoInfo, GitHostError>)
        ensures
            host_outcome(repo) == create_target(host_outcome(target), opt_outcome(head)),
    {
        let target = match target {
            Ok(target) => target,
            Err(error) => {
                return Err(error);
            },
        };
        match head {
            None => Ok(target),
            Some(Err(error)) => Err(error),
            Some(Ok(head)) => {
                if same(&head.owner, &target.owner) && same(&head.repo_name, &target.repo_name) {
                    Ok(target)
                } else {
                    Err(
                        GitHostError::PullRequest(
                            "Cross-fork pull requests are not supported for Gitee".to_owned(),
                        ),
                    )
                }
            },
        }
    }

    /// The repository in which a request for a pull request is carried out.
    pub fn create_repo(remote_url: &str, request: &CreatePrRequest) -> (repo: Result<
        GiteeRepoInfo,
        GitHostError,
    >)
        ensures
            host_outcome(repo) == create_target(
                host_repo(remote_url@, url_outcome(remote_url@)),
                match request.head_repo_url {
                    Some(head_url) => Some(host_repo(head_url@, url_outcome(head_url@))),
                    None => None,
                },
            ),
    {
        let target = Self::repo_info(remote_url);
        let head = match &request.head_repo_url {
            Some(head_url) => Some(Self::repo_info(head_url)),
            None => None,
        };
        Self::check_repos(target, head)
    }

    /// What an attempt at an operation gave, where the task that made it
    /// finished; `finished` is the failure of the task otherwise.
    pub fn attempt_result<T>(
        operation: GeOperation,
        finished: Result<Result<T, GeCliError>, String>,
    ) -> (result: Result<T, GitHostError>)
        ensures
            match finished {
                Ok(Ok(value)) => result == Ok::<T, GitHostError>(value),
                Ok(Err(error)) => result matches Err(host) && host@ == host_failure(error@),
                Err(message) => result matches Err(host) && host@ == task_failure(
                    operation,
                    message@,
                ),
            },
    {
        match finished {
            Ok(Ok(value)) => Ok(value),
            Ok(Err(error)) => Err(host_error(error)),
            Err(message) => {
                let mut text = concat3("Failed to execute Gitee CLI for ", operation.text(), ": ");
                text.append(&redact(&message));
                Err(GitHostError::PullRequest(text))
            },
        }
    }
}

/// A pull request is created within one repository only: where a request is
/// carried out, and its head names a repository, that is the target itself.
pub proof fn law_cross_fork_is_refused(
    target: Result<RepoView, HostFailure>,
    head: Option<Result<RepoView, HostFailure>>,
)
    ensures
        create_target(target, head) is Ok <==> target is Ok && (head is Some ==> head->0 is Ok
            && head->0->Ok_0 == target->Ok_0),
        create_target(target, head) is Ok ==> create_target(target, head) == target,
{
}

/// What `ge` reports keeps its meaning on the way to the user: that the login
/// failed, that the program is missing or too old, and what it printed. A command
/// that failed is a matter of permission where it says so, else of something
/// missing where it says that, and else of the pull request.
pub proof fn law_ge_failures_keep_their_meaning(
    message: Seq<char>,
    found: Seq<char>,
    minimum: Seq<char>,
)
    ensures
        host_failure(GeFailure::AuthFailed(message)) == HostFailure::AuthFailed(redacted(message)),
        host_failure(GeFailure::NotAvailable) == HostFailure::CliNotInstalled(ProviderKind::Gitee),
        host_failure((GeFailure::UnsupportedVersion { found, minimum })) == (
        HostFailure::CliVersionUnsupported {
            provider: ProviderKind::Gitee,
            found,
            minimum: MINIMUM_GE_VERSION@,
        }),
        host_failure(GeFailure::UnexpectedOutput(message)) == HostFailure::UnexpectedOutput(
            redacted(message),
        ),
        ({
            let lower = lowered(message);
            let forbidden = holds_text(lower, "403"@) || holds_text(lower, "forbidden"@)
                || holds_text(message, "无权限"@);
            let missing = holds_text(lower, "404"@) || holds_text(lower, "not found"@)
                || holds_text(message, "不存在"@);
            host_failure(GeFailure::CommandFailed(message)) == if forbidden {
                HostFailure::InsufficientPermissions(redacted(message))
            } else if missing {
                HostFailure::RepoNotFoundOrNoAccess(redacted(message))
            } else {
                HostFailure::PullRequest(redacted(message))
            }
        }),
{
}

/// An attempt whose task did not finish is reported with what was attempted and
/// the message of the task, without credentials.
pub proof fn law_unfinished_attempts_are_named(message: Seq<char>)
    ensures
        task_failure(GeOperation::CreatePr, message) == HostFailure::PullRequest(
            "Failed to execute Gitee CLI for "@ + "PR creation"@ + ": "@ + redacted(message),
        ),
        task_failure(GeOperation::ViewPr, message) == HostFailure::PullRequest(
            "Failed to execute Gitee CLI for "@ + "viewing PR"@ + ": "@ + redacted(message),
        ),
        task_failure(GeOperation::ListPrs, message) == HostFailure::PullRequest(
            "Failed to execute Gitee CLI for "@ + "listing PRs"@ + ": "@ + redacted(message),
        ),
        task_failure(GeOperation::FetchComments, message) == HostFailure::PullRequest(
            "Failed to execute Gitee CLI for "@ + "fetching comments"@ + ": "@ + redacted(message),
        ),
        task_failure(GeOperation::ListOpenPrs, message) == HostFailure::PullRequest(
            "Failed to execute Gitee CLI for "@ + "listing open PRs"@ + ": "@ + redacted(message),
        ),
{
}

/// What keeps a pull request from being created is told: what is wrong with the
/// remote it goes to, else with that of its head, and that the two name different
/// repositories.
pub proof fn law_unusable_repos_are_told(
    target: RepoView,
    head: RepoView,
    failure: HostFailure,
    other: Option<Result<RepoView, HostFailure>>,
)
    ensures
        create_target(Err(failure), other) == Err::<RepoView, HostFailure>(failure),
        create_target(Ok(target), Some(Err(failure))) == Err::<RepoView, HostFailure>(failure),
        create_target(Ok(target), None) == Ok::<RepoView, HostFailure>(target),
        head.owner == target.owner && head.repo_name == target.repo_name ==> create_target(
            Ok(target),
            Some(Ok(head)),
        ) == Ok::<RepoView, HostFailure>(target),
        head.owner != target.owner || head.repo_name != target.repo_name ==> create_target(
            Ok(target),
            Some(Ok(head)),
        ) == Err::<RepoView, HostFailure>(
            HostFailure::PullRequest("Cross-fork pull requests are not supported for Gitee"@),
        ),
{
}

/// The model of [`GitHostError`] holds what the value does, part by part.
pub proof fn law_model_of_git_host_error(value: GitHostError)
    ensures
        match value {
            GitHostError::Repository(message) => value@ == HostFailure::Repository(message@),
            GitHostError::PullRequest(message) => value@ == HostFailure::PullRequest(message@),
            GitHostError::AuthFailed(message) => value@ == HostFailure::AuthFailed(message@),
            GitHostError::InsufficientPermissions(message) =>
                value@ == HostFailure::InsufficientPermissions(message@),
            GitHostError::RepoNotFoundOrNoAccess(message) =>
                value@ == HostFailure::RepoNotFoundOrNoAccess(message@),
            GitHostError::CliNotInstalled { provider } =>
                value@ == HostFailure::CliNotInstalled(provider),
            GitHostError::CliVersionUnsupported { provider, found, minimum } =>
                value@ == (HostFailure::CliVersionUnsupported {
                    provider,
                    found: found@,
                    minimum: minimum@,
                }),
            GitHostError::UnsupportedProvider => value@ == HostFailure::UnsupportedProvider,
            GitHostError::UnexpectedOutput(message) =>
                value@ == HostFailure::UnexpectedOutput(message@),
        },
{
}

} // verus!
