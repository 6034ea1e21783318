//! Creating a workspace from a pull request.

use vstd::prelude::*;

use crate::git_host::detection::url_outcome;
use crate::git_host::gitee_cli::{
    ge_message, repo_of, repo_outcome, GeCli, GeCliError, GeFailure, GiteeRepoInfo, RepoView,
};
use crate::git_host::types::ProviderKind;
use crate::routes::pr::common::{ApiError, ApiFailure, GitRemote, Lookup, Repo};
use crate::text::{concat3, concat4, copy_text, opt_view, signed_decimal, signed_decimal_text};

verus! {

/// A request to create a workspace from a pull request.
#[derive(Debug, PartialEq, Eq)]
pub struct CreateWorkspaceFromPrBody {
    pub repo_id: u128,
    pub pr_number: i64,
    pub pr_title: String,
    pub pr_url: String,
    pub head_branch: String,
    pub base_branch: String,
    pub run_setup: bool,
    pub remote_name: Option<String>,
}

/// The workspace that was created, and its task.
#[derive(Clone, Copy, Debug, PartialEq, Eq, Structural)]
pub struct CreateWorkspaceFromPrResponse {
    pub workspace: u128,
    pub task: u128,
}

/// Why no workspace was created, for the user to act on.
#[allow(inconsistent_fields)]
#[derive(Debug, PartialEq, Eq)]
pub enum CreateFromPrError {
    PrNotFound,
    BranchFetchFailed { message: String },
    CliNotInstalled { provider: ProviderKind },
    CliVersionUnsupported { provider: ProviderKind, found: String, minimum: String },
    AuthFailed { message: String },
    UnsupportedProvider,
    RepoNotInProject,
}

/// Model of [`CreateFromPrError`].
#[allow(inconsistent_fields)]
pub enum RefusalView {
    PrNotFound,
    BranchFetchFailed { message: Seq<char> },
    CliNotInstalled { provider: ProviderKind },
    CliVersionUnsupported { provider: ProviderKind, found: Seq<char>, minimum: Seq<char> },
    AuthFailed { message: Seq<char> },
    UnsupportedProvider,
    RepoNotInProject,
}

impl View for CreateFromPrError {
    type V = RefusalView;

    open spec fn view(&self) -> RefusalView {
        match self {
            CreateFromPrError::PrNotFound => RefusalView::PrNotFound,
            CreateFromPrError::BranchFetchFailed { message } => RefusalView::BranchFetchFailed {
                message: message@,
            },
            CreateFromPrError::CliNotInstalled { provider } => RefusalView::CliNotInstalled {
                provider: *provider,
            },
            CreateFromPrError::CliVersionUnsupported { provider, found, minimum } =>
                RefusalView::CliVersionUnsupported {
                    provider: *provider,
                    found: found@,
                    minimum: minimum@,
                },
            CreateFromPrError::AuthFailed { message } => RefusalView::AuthFailed {
                message: message@,
            },
            CreateFromPrError::UnsupportedProvider => RefusalView::UnsupportedProvider,
            CreateFromPrError::RepoNotInProject => RefusalView::RepoNotInProject,
        }
    }
}

/// The provider that serves a remote, and what it is called.
#[derive(Debug, PartialEq, Eq)]
pub struct OpenedHost {
    pub provider: ProviderKind,
    pub name: String,
}

/// How the branch of a pull request is checked out.
#[derive(Debug, PartialEq, Eq)]
pub enum Checkout {
    GitHub { number: i64 },
    Gitee { repo: GiteeRepoInfo, number: i64 },
}

/// Model of [`Checkout`].
pub enum CheckoutView {
    GitHub { number: i64 },
    Gitee { repo: RepoView, number: i64 },
}

impl View for Checkout {
    type V = CheckoutView;

    open spec fn view(&self) -> CheckoutView {
        match self {
            Checkout::GitHub { number } => CheckoutView::GitHub { number: *number },
            Checkout::Gitee { repo, number } => CheckoutView::Gitee {
                repo: repo@,
                number: *number,
            },
        }
    }
}

/// How the branch of a pull request is checked out, given the provider and the
/// repository on Gitee that the remote names; a message where it cannot be.
pub open spec fn checkout_of(
    host: Result<OpenedHost, String>,
    repo: Result<RepoView, GeFailure>,
    number: i64,
) -> Result<CheckoutView, Seq<char>> {
    match host {
        Err(message) => Err(message@),
        Ok(host) => match host.provider {
            ProviderKind::GitHub => Ok(CheckoutView::GitHub { number }),
            ProviderKind::Gitee => match repo {
                Ok(repo) => Ok(CheckoutView::Gitee { repo, number }),
                Err(failure) => Err(ge_message(failure)),
            },
            _ => Err(
                "Checking out pull requests from "@ + host.name@ + " is not supported"@,
            ),
        },
    }
}

/// The model of a way to check out, or of why there is none.
pub open spec fn checkout_outcome(checkout: Result<Checkout, String>) -> Result<
    CheckoutView,
    Seq<char>,
> {
    match checkout {
        Ok(checkout) => Ok(checkout@),
        Err(message) => Err(message@),
    }
}

/// How the branch of a pull request is checked out, given the provider and the
/// repository on Gitee that the remote names.
pub fn checkout_from(
    host: &Result<OpenedHost, String>,
    repo: Result<GiteeRepoInfo, GeCliError>,
    number: i64,
) -> (checkout: Result<Checkout, String>)
    ensures
        checkout_outcome(checkout) == checkout_of(*host, repo_outcome(repo), number),
{
    match host {
        Err(message) => Err(message.clone()),
        Ok(host) => match host.provider {
            ProviderKind::GitHub => Ok(Checkout::GitHub { number }),
            ProviderKind::Gitee => match repo {
                Ok(repo) => Ok(Checkout::Gitee { repo, number }),
                Err(error) => Err(error.message()),
            },
            _ => Err(
                concat3("Checking out pull requests from ", &host.name, " is not supported"),
            ),
        },
    }
}

/// A run that creates a workspace: the request, and what is known so far.
#[derive(Debug, PartialEq, Eq)]
pub struct FromPrRun {
    pub body: CreateWorkspaceFromPrBody,
    pub repo: Lookup<Repo>,
    /// The first project that the repository belongs to.
    pub project: Lookup<u128>,
    pub remote: Option<GitRemote>,
    /// The task and the workspace, once they are there.
    pub prepared: Option<CreateWorkspaceFromPrResponse>,
    /// The provider that serves the remote, or why there is none.
    pub host: Option<Result<OpenedHost, String>>,
    pub checked_out: Option<Result<(), String>>,
}

/// What a run does or looks up next.
#[allow(inconsistent_fields)]
#[derive(Debug, PartialEq, Eq)]
pub enum FromPrAction {
    FindRepo { repo_id: u128 },
    FindProject { repo_id: u128 },
    /// Looks up the remote of a name, or the default one.
    ResolveRemote { name: Option<String> },
    /// Creates a task that is in progress, its workspace on the target branch,
    /// and the container.
    Prepare {
        project_id: u128,
        title: String,
        description: String,
        branch: String,
        working_dir: String,
    },
    OpenHost { remote_url: String },
    CheckOut(Checkout),
    /// Switches the workspace to the branch of the pull request and records
    /// that, runs the setup where it is asked for, and reports the workspace.
    Complete {
        created: CreateWorkspaceFromPrResponse,
        head_branch: String,
        target_branch: String,
        number: i64,
        url: String,
        run_setup: bool,
    },
    Refuse(CreateFromPrError),
    Fail(ApiError),
}

/// Model of [`FromPrAction`].
#[allow(inconsistent_fields)]
pub enum FromPrStep {
    FindRepo { repo_id: u128 },
    FindProject { repo_id: u128 },
    ResolveRemote { name: Option<Seq<char>> },
    Prepare {
        project_id: u128,
        title: Seq<char>,
        description: Seq<char>,
        branch: Seq<char>,
        working_dir: Seq<char>,
    },
    OpenHost { remote_url: Seq<char> },
    CheckOut(CheckoutView),
    Complete {
        created: CreateWorkspaceFromPrResponse,
        head_branch: Seq<char>,
        target_branch: Seq<char>,
        number: i64,
        url: Seq<char>,
        run_setup: bool,
    },
    Refuse(RefusalView),
    Fail(ApiFailure),
}

impl View for FromPrAction {
    type V = FromPrStep;

    open spec fn view(&self) -> FromPrStep {
        match self {
            FromPrAction::FindRepo { repo_id } => FromPrStep::FindRepo { repo_id: *repo_id },
            FromPrAction::FindProject { repo_id } => FromPrStep::FindProject { repo_id: *repo_id },
            FromPrAction::ResolveRemote { name } => FromPrStep::ResolveRemote {
                name: opt_view(*name),
            },
            FromPrAction::Prepare { project_id, title, description, branch, working_dir } =>
                FromPrStep::Prepare {
                project_id: *project_id,
                title: title@,
                description: description@,
                branch: branch@,
                working_dir: working_dir@,
            },
            FromPrAction::OpenHost { remote_url } => FromPrStep::OpenHost {
                remote_url: remote_url@,
            },
            FromPrAction::CheckOut(checkout) => FromPrStep::CheckOut(checkout@),
            FromPrAction::Complete {
                created,
                head_branch,
                target_branch,
                number,
                url,
                run_setup,
            } => FromPrStep::Complete {
                created: *created,
                head_branch: head_branch@,
                target_branch: target_branch@,
                number: *number,
                url: url@,
                run_setup: *run_setup,
            },
            FromPrAction::Refuse(error) => FromPrStep::Refuse(error@),
            FromPrAction::Fail(error) => FromPrStep::Fail(error@),
        }
    }
}

/// The target branch, as the remote-tracking branch of the base.
pub open spec fn target_ref(remote: GitRemote, body: CreateWorkspaceFromPrBody) -> Seq<char> {
    remote.name@ + "/"@ + body.base_branch@
}

/// What a run does once the workspace is there, given the repository on Gitee
/// that the remote names.
pub open spec fn checkout_step(
    run: FromPrRun,
    remote: GitRemote,
    created: CreateWorkspaceFromPrResponse,
    gitee_repo: Result<RepoView, GeFailure>,
) -> FromPrStep {
    match run.host {
        None => FromPrStep::OpenHost { remote_url: remote.url@ },
        Some(host) => match checkout_of(host, gitee_repo, run.body.pr_number) {
            Err(message) => FromPrStep::Refuse(RefusalView::BranchFetchFailed { message }),
            Ok(checkout) => match run.checked_out {
                None => FromPrStep::CheckOut(checkout),
                Some(Err(message)) => FromPrStep::Refuse(
                    RefusalView::BranchFetchFailed { message: message@ },
                ),
                Some(Ok(_)) => FromPrStep::Complete {
                    created,
                    head_branch: run.body.head_branch@,
                    target_branch: target_ref(remote, run.body),
                    number: run.body.pr_number,
                    url: run.body.pr_url@,
                    run_setup: run.body.run_setup,
                },
            },
        },
    }
}

/// What a run does or looks up next, given the repository on Gitee that the
/// remote names.
pub open spec fn from_pr_step(run: FromPrRun, gitee_repo: Result<RepoView, GeFailure>) ->
    FromPrStep {
    match run.repo {
        Lookup::Unknown => FromPrStep::FindRepo { repo_id: run.body.repo_id },
        Lookup::Missing => FromPrStep::Fail(ApiFailure::RepoNotFound),
        Lookup::Found(repo) => match run.project {
            Lookup::Unknown => FromPrStep::FindProject { repo_id: run.body.repo_id },
            Lookup::Missing => FromPrStep::Refuse(RefusalView::RepoNotInProject),
            Lookup::Found(project_id) => match run.remote {
                None => FromPrStep::ResolveRemote { name: opt_view(run.body.remote_name) },
                Some(remote) => match run.prepared {
                    None => FromPrStep::Prepare {
                        project_id,
                        title: run.body.pr_title@,
                        description: "Created from PR #"@ + signed_decimal(
                            run.body.pr_number as int,
                        ) + ": "@ + run.body.pr_url@,
                        branch: target_ref(remote, run.body),
                        working_dir: repo.name@,
                    },
                    Some(created) => checkout_step(run, remote, created, gitee_repo),
                },
            },
        },
    }
}

/// The repository on Gitee that the remote of a run names.
pub open spec fn named_repo(run: FromPrRun) -> Result<RepoView, GeFailure> {
    match run.remote {
        Some(remote) => repo_of(remote.url@, url_outcome(remote.url@)),
        None => Err(GeFailure::NotAvailable),
    }
}

impl FromPrRun {
    /// A run of which nothing is known yet.
    pub fn new(body: CreateWorkspaceFromPrBody) -> (run: Self)
        ensures
            run == (FromPrRun {
                body,
                repo: Lookup::Unknown,
                project: Lookup::Unknown,
                remote: None,
                prepared: None,
                host: None,
                checked_out: None,
            }),
    {
        FromPrRun {
            body,
            repo: Lookup::Unknown,
            project: Lookup::Unknown,
            remote: None,
            prepared: None,
            host: None,
            checked_out: None,
        }
    }

    fn target(&self, remote: &GitRemote) -> (branch: String)
        ensures
            branch@ == target_ref(*remote, self.body),
    {
        concat3(&remote.name, "/", &self.body.base_branch)
    }

    fn next_checkout(
        &self,
        remote: &GitRemote,
        created: CreateWorkspaceFromPrResponse,
        gitee_repo: Result<GiteeRepoInfo, GeCliError>,
    ) -> (action: FromPrAction)
        ensures
            action@ == checkout_step(*self, *remote, created, repo_outcome(gitee_repo)),
    {
        let host = match &self.host {
            None => {
                return FromPrAction::OpenHost { remote_url: remote.url.clone() };
            },
            Some(host) => host,
        };
        let checkout = match checkout_from(host, gitee_repo, self.body.pr_number) {
            Err(message) => {
                return FromPrAction::Refuse(CreateFromPrError::BranchFetchFailed { message });
            },
            Ok(checkout) => checkout,
        };
        match &self.checked_out {
            None => FromPrAction::CheckOut(checkout),
            Some(Err(message)) => FromPrAction::Refuse(
                CreateFromPrError::BranchFetchFailed { message: message.clone() },
            ),
            Some(Ok(_)) => FromPrAction::Complete {
                created,
                head_branch: self.body.head_branch.clone(),
                target_branch: self.target(remote),
                number: self.body.pr_number,
                url: self.body.pr_url.clone(),
                run_setup: self.body.run_setup,
            },
        }
    }

    /// What this run does or looks up next, given the repository on Gitee that
    /// the remote names.
    pub fn next_with(&self, gitee_repo: Result<GiteeRepoInfo, GeCliError>) -> (action: FromPrAction)
        ensures
            action@ == from_pr_step(*self, repo_outcome(gitee_repo)),
    {
        let repo = match &self.repo {
            Lookup::Unknown => {
                return FromPrAction::FindRepo { repo_id: self.body.repo_id };
            },
            Lookup::Missing => {
                return FromPrAction::Fail(ApiError::RepoNotFound);
            },
            Lookup::Found(repo) => repo,
        };
        let project_id: u128 = match &self.project {
            Lookup::Unknown => {
                return FromPrAction::FindProject { repo_id: self.body.repo_id };
            },
            Lookup::Missing => {
                return FromPrAction::Refuse(CreateFromPrError::RepoNotInProject);
            },
            Lookup::Found(project_id) => *project_id,
        };
        let remote = match &self.remote {
            None => {
                return FromPrAction::ResolveRemote { name: copy_text(&self.body.remote_name) };
            },
            Some(remote) => remote,
        };
        match &self.prepared {
            None => {
                let number = signed_decimal_text(self.body.pr_number);
                FromPrAction::Prepare {
                    project_id,
                    title: self.body.pr_title.clone(),
                    description: concat4("Created from PR #", &number, ": ", &self.body.pr_url),
                    branch: self.target(remote),
                    working_dir: repo.name.clone(),
                }
            },
            Some(created) => self.next_checkout(remote, *created, gitee_repo),
        }
    }

    /// What this run does or looks up next.
    pub fn next(&self) -> (action: FromPrAction)
        ensures
            action@ == from_pr_step(*self, named_repo(*self)),
    {
        let gitee_repo = match &self.remote {
            Some(remote) => GeCli::parse_repo_url(&remote.url),
            None => Err(GeCliError::NotAvailable),
        };
        self.next_with(gitee_repo)
    }
}

/// A workspace is switched to the branch of a pull request, and the pull
/// request recorded for it, only once that branch was checked out.
pub proof fn law_workspace_needs_the_checked_out_branch(
    run: FromPrRun,
    gitee_repo: Result<RepoView, GeFailure>,
)
    requires
        from_pr_step(run, gitee_repo) is Complete,
    ensures
        run.checked_out matches Some(Ok(_)),
        run.host matches Some(Ok(host)) && (host.provider == ProviderKind::GitHub || host.provider
            == ProviderKind::Gitee),
        from_pr_step(run, gitee_repo)->head_branch == run.body.head_branch@,
{
}

/// Whether a step asks for something that is known already.
pub open spec fn is_known(run: FromPrRun, step: FromPrStep) -> bool {
    match step {
        FromPrStep::FindRepo { .. } => run.repo !is Unknown,
        FromPrStep::FindProject { .. } => run.project !is Unknown,
        FromPrStep::ResolveRemote { .. } => run.remote is Some,
        FromPrStep::Prepare { .. } => run.prepared is Some,
        FromPrStep::OpenHost { .. } => run.host is Some,
        FromPrStep::CheckOut(_) => run.checked_out is Some,
        FromPrStep::Complete { .. } => false,
        FromPrStep::Refuse(_) => false,
        FromPrStep::Fail(_) => false,
    }
}

/// Nothing is done or looked up twice: a run asks for nothing that it knows. In
/// particular one workspace at most is created.
pub proof fn law_from_pr_asks_nothing_twice(
    run: FromPrRun,
    gitee_repo: Result<RepoView, GeFailure>,
)
    ensures
        !is_known(run, from_pr_step(run, gitee_repo)),
{
}

/// The task is named after the pull request and tells where it came from. Its
/// workspace starts from the base branch on the remote, in the directory of the
/// repository.
pub proof fn law_workspace_starts_from_the_base_branch(
    run: FromPrRun,
    gitee_repo: Result<RepoView, GeFailure>,
)
    ensures
        from_pr_step(run, gitee_repo) matches FromPrStep::Prepare {
            project_id,
            title,
            description,
            branch,
            working_dir,
        } ==> {
            &&& run.project == Lookup::Found(project_id)
            &&& title == run.body.pr_title@
            &&& description == "Created from PR #"@ + signed_decimal(run.body.pr_number as int)
                + ": "@ + run.body.pr_url@
            &&& run.remote matches Some(remote) && branch == remote.name@ + "/"@
                + run.body.base_branch@
            &&& run.repo matches Lookup::Found(repo) && working_dir == repo.name@
        },
{
}

/// The workspace that is reported is the one that was prepared. It is switched
/// to the head branch of the pull request and keeps the base branch on the remote
/// as its target; the pull request is recorded by its number and URL, and the
/// setup runs exactly where that is asked for.
pub proof fn law_workspace_records_the_pr(run: FromPrRun, gitee_repo: Result<RepoView, GeFailure>)
    ensures
        from_pr_step(run, gitee_repo) matches FromPrStep::Complete {
            created,
            head_branch,
            target_branch,
            number,
            url,
            run_setup,
        } ==> {
            &&& run.prepared == Some(created)
            &&& head_branch == run.body.head_branch@
            &&& run.remote matches Some(remote) && target_branch == remote.name@ + "/"@
                + run.body.base_branch@
            &&& number == run.body.pr_number
            &&& url == run.body.pr_url@
            &&& run_setup == run.body.run_setup
        },
{
}

/// A pull request is checked out by its number, in the way of the provider that
/// serves the remote: on Gitee from the repository that the remote names.
/// Nothing else is checked out.
pub proof fn law_pr_is_checked_out_by_number(
    run: FromPrRun,
    gitee_repo: Result<RepoView, GeFailure>,
)
    ensures
        from_pr_step(run, gitee_repo) matches FromPrStep::CheckOut(checkout) ==> (
        run.host matches Some(Ok(host)) && match checkout {
            CheckoutView::GitHub { number } => host.provider == ProviderKind::GitHub && number
                == run.body.pr_number,
            CheckoutView::Gitee { repo, number } => host.provider == ProviderKind::Gitee
                && gitee_repo == Ok::<RepoView, GeFailure>(repo) && number == run.body.pr_number,
        }),
        from_pr_step(run, gitee_repo) matches FromPrStep::OpenHost { remote_url } ==> (
        run.remote matches Some(remote) && remote_url == remote.url@),
        from_pr_step(run, gitee_repo) matches FromPrStep::ResolveRemote { name } ==> match
            run.body.remote_name {
            Some(asked) => name == Some(asked@),
            None => name is None,
        },
        from_pr_step(run, gitee_repo) matches FromPrStep::FindRepo { repo_id } ==> repo_id
            == run.body.repo_id,
        from_pr_step(run, gitee_repo) matches FromPrStep::FindProject { repo_id } ==> repo_id
            == run.body.repo_id,
{
}

/// Whether everything is known that comes before the branch is checked out.
pub open spec fn is_prepared(run: FromPrRun) -> bool {
    run.repo is Found && run.project is Found && run.remote is Some && run.prepared is Some
}

/// A run goes on as long as nothing stops it: it asks for what it needs next,
/// and completes the workspace once the branch is checked out.
pub proof fn law_from_pr_goes_on(run: FromPrRun, gitee_repo: Result<RepoView, GeFailure>)
    ensures
        run.repo is Unknown ==> from_pr_step(run, gitee_repo) is FindRepo,
        run.repo is Found && run.project is Unknown ==> from_pr_step(run, gitee_repo)
            is FindProject,
        run.repo is Found && run.project is Found && run.remote is None ==> from_pr_step(
            run,
            gitee_repo,
        ) is ResolveRemote,
        run.repo is Found && run.project is Found && run.remote is Some && run.prepared is None
            ==> from_pr_step(run, gitee_repo) is Prepare,
        is_prepared(run) ==> {
            &&& run.host is None ==> from_pr_step(run, gitee_repo) is OpenHost
            &&& run.host matches Some(Ok(host)) ==> (host.provider == ProviderKind::GitHub || (
            host.provider == ProviderKind::Gitee && gitee_repo is Ok) ==> {
                &&& run.checked_out is None ==> from_pr_step(run, gitee_repo) is CheckOut
                &&& run.checked_out matches Some(Ok(_)) ==> from_pr_step(run, gitee_repo)
                    is Complete
            })
        },
{
}

/// What keeps a run from its end is reported: that the repository is missing or
/// in no project, and, as what kept the branch from being fetched, that the remote
/// has no provider, that its provider is not supported, that the remote names no
/// repository on Gitee, and what git says.
pub proof fn law_from_pr_failures_are_reported(
    run: FromPrRun,
    gitee_repo: Result<RepoView, GeFailure>,
)
    ensures
        run.repo is Missing ==> from_pr_step(run, gitee_repo) == FromPrStep::Fail(
            ApiFailure::RepoNotFound,
        ),
        run.repo is Found && run.project is Missing ==> from_pr_step(run, gitee_repo)
            == FromPrStep::Refuse(RefusalView::RepoNotInProject),
        is_prepared(run) ==> {
            &&& run.host matches Some(Err(message)) ==> from_pr_step(run, gitee_repo)
                == FromPrStep::Refuse(RefusalView::BranchFetchFailed { message: message@ })
            &&& run.host matches Some(Ok(host)) ==> {
                &&& host.provider != ProviderKind::GitHub && host.provider != ProviderKind::Gitee
                    ==> from_pr_step(run, gitee_repo) == FromPrStep::Refuse(
                    RefusalView::BranchFetchFailed {
                        message: "Checking out pull requests from "@ + host.name@
                            + " is not supported"@,
                    },
                )
                &&& host.provider == ProviderKind::Gitee ==> (gitee_repo matches Err(failure)
                    ==> from_pr_step(run, gitee_repo) == FromPrStep::Refuse(
                    RefusalView::BranchFetchFailed { message: ge_message(failure) },
                ))
                &&& host.provider == ProviderKind::GitHub ==> (run.checked_out matches Some(
                    Err(message),
                ) ==> from_pr_step(run, gitee_repo) == FromPrStep::Refuse(
                    RefusalView::BranchFetchFailed { message: message@ },
                ))
                &&& host.provider == ProviderKind::Gitee && gitee_repo is Ok ==> (
                run.checked_out matches Some(Err(message)) ==> from_pr_step(run, gitee_repo)
                    == FromPrStep::Refuse(RefusalView::BranchFetchFailed { message: message@ }))
            }
        },
{
}

/// The model of [`CreateFromPrError`] holds what the value does, part by part.
pub proof fn law_model_of_create_from_pr_error(value: CreateFromPrError)
    ensures
        match value {
            CreateFromPrError::PrNotFound => value@ == RefusalView::PrNotFound,
            CreateFromPrError::BranchFetchFailed { message } =>
                value@ == (RefusalView::BranchFetchFailed {
                    message: message@,
                }),
            CreateFromPrError::CliNotInstalled { provider } =>
                value@ == (RefusalView::CliNotInstalled {
                    provider,
                }),
            CreateFromPrError::CliVersionUnsupported { provider, found, minimum } =>
                value@ == (RefusalView::CliVersionUnsupported {
                    provider,
                    found: found@,
                    minimum: minimum@,
                }),
            CreateFromPrError::AuthFailed { message } => value@ == (RefusalView::AuthFailed {
                message: message@,
            }),
            CreateFromPrError::UnsupportedProvider => value@ == RefusalView::UnsupportedProvider,
            CreateFromPrError::RepoNotInProject => value@ == RefusalView::RepoNotInProject,
        },
{
}

/// The model of [`Checkout`] holds what the value does, part by part.
pub proof fn law_model_of_checkout(value: Checkout)
    ensures
        match value {
            Checkout::GitHub { number } => value@ == (CheckoutView::GitHub { number }),
            Checkout::Gitee { repo, number } => value@ == (CheckoutView::Gitee {
                repo: repo@,
                number,
            }),
        },
{
}

/// The model of [`FromPrAction`] holds what the value does, part by part.
pub proof fn law_model_of_from_pr_action(value: FromPrAction)
    ensures
        match value {
            FromPrAction::FindRepo { repo_id } => value@ == (FromPrStep::FindRepo { repo_id }),
            FromPrAction::FindProject { repo_id } => value@ == (FromPrStep::FindProject {
                repo_id,
            }),
            FromPrAction::ResolveRemote { name } => value@ == (FromPrStep::ResolveRemote {
                name: opt_view(name),
            }),
            FromPrAction::Prepare { project_id, title, description, branch, working_dir } =>
                value@ == (FromPrStep::Prepare {
                    project_id,
                    title: title@,
                    description: description@,
                    branch: branch@,
                    working_dir: working_dir@,
                }),
            FromPrAction::OpenHost { remote_url } => value@ == (FromPrStep::OpenHost {
                remote_url: remote_url@,
            }),
            FromPrAction::CheckOut(checkout) => value@ == FromPrStep::CheckOut(checkout@),
            FromPrAction::Complete {
                created,
                head_branch,
                target_branch,
                number,
                url,
                run_setup,
            } => value@ == (FromPrStep::Complete {
                created,
                head_branch: head_branch@,
                target_branch: target_branch@,
                number,
                url: url@,
                run_setup,
            }),
            FromPrAction::Refuse(error) => value@ == FromPrStep::Refuse(error@),
            FromPrAction::Fail(error) => value@ == FromPrStep::Fail(error@),
        },
{
}

} // verus!
