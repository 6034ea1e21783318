//! Creating a pull request from the branch of a workspace.

use vstd::prelude::*;

use crate::git_host::gitee::{host_failure, HostFailure};
use crate::git_host::gitee_cli::{GeFailure, MINIMUM_GE_VERSION};
use crate::git_host::types::{CreatePrRequest, GitHostError, ProviderKind, PullRequestInfo};
use crate::routes::pr::common::{
    end_of_git, end_of_open, git_end, is_clean_tree, open_end, ApiError, ApiFailure, GitFailure,
    GitRemote, Lookup, PrEnd, PrEndView, PrError, PrErrorView, Repo, WorkspaceRepo, WorktreeStatus,
};
use crate::text::{concat2, copy_text, opt_view, same, strip_prefix, without_prefix};

verus! {

/// A request to create a pull request.
#[derive(Debug, PartialEq, Eq)]
pub struct CreatePrApiRequest {
    pub title: String,
    pub body: Option<String>,
    pub target_branch: Option<String>,
    pub draft: Option<bool>,
    pub repo_id: u128,
    pub source_head_sha: Option<String>,
}

/// The commit that a working tree stands on, and what differs from it.
#[derive(Debug, PartialEq, Eq)]
pub struct SourceState {
    pub head: String,
    pub status: WorktreeStatus,
}

/// A run that creates a pull request: the request, the branch of the
/// workspace, and what is known so far.
#[derive(Debug, PartialEq, Eq)]
pub struct CreatePrRun {
    pub request: CreatePrApiRequest,
    pub branch: String,
    pub workspace_repo: Lookup<WorkspaceRepo>,
    pub repo: Lookup<Repo>,
    /// Whether the workspace has its container.
    pub container: bool,
    pub source: Option<SourceState>,
    /// The remote that the branch is pushed to.
    pub push_remote: Option<GitRemote>,
    /// The remote that the target branch names, as `upstream/main` does.
    pub named_remote: Lookup<GitRemote>,
    pub branch_exists: Option<Result<bool, GitFailure>>,
    pub pushed: Option<Result<(), GitFailure>>,
    pub host: Option<Result<ProviderKind, GitHostError>>,
    pub created: Option<Result<PullRequestInfo, GitHostError>>,
}

/// What a run does or looks up next.
#[allow(inconsistent_fields)]
#[derive(Debug, PartialEq, Eq)]
pub enum CreatePrAction {
    FindWorkspaceRepo { repo_id: u128 },
    FindRepo { repo_id: u128 },
    EnsureContainer,
    InspectSource,
    ResolvePushRemote { branch: String },
    ResolveNamedRemote { branch: String },
    CheckBranch { remote_url: String, branch: String },
    Push { branch: String },
    OpenHost { remote_url: String },
    CreatePr { remote_url: String, request: CreatePrRequest },
    /// The pull request is there: it is recorded for the workspace, shown and
    /// reported.
    Created { repo_id: u128, base_branch: String, number: i64, url: String, provider: ProviderKind },
    End(PrEnd),
}

/// Model of [`CreatePrRequest`].
pub struct RequestView {
    pub title: Seq<char>,
    pub body: Option<Seq<char>>,
    pub head_branch: Seq<char>,
    pub base_branch: Seq<char>,
    pub draft: Option<bool>,
    pub head_repo_url: Option<Seq<char>>,
}

impl View for CreatePrRequest {
    type V = RequestView;

    open spec fn view(&self) -> RequestView {
        RequestView {
            title: self.title@,
            body: opt_view(self.body),
            head_branch: self.head_branch@,
            base_branch: self.base_branch@,
            draft: self.draft,
            head_repo_url: opt_view(self.head_repo_url),
        }
    }
}

/// Model of [`CreatePrAction`].
#[allow(inconsistent_fields)]
pub enum CreatePrStep {
    FindWorkspaceRepo { repo_id: u128 },
    FindRepo { repo_id: u128 },
    EnsureContainer,
    InspectSource,
    ResolvePushRemote { branch: Seq<char> },
    ResolveNamedRemote { branch: Seq<char> },
    CheckBranch { remote_url: Seq<char>, branch: Seq<char> },
    Push { branch: Seq<char> },
    OpenHost { remote_url: Seq<char> },
    CreatePr { remote_url: Seq<char>, request: RequestView },
    Created {
        repo_id: u128,
        base_branch: Seq<char>,
        number: i64,
        url: Seq<char>,
        provider: ProviderKind,
    },
    End(PrEndView),
}

impl View for CreatePrAction {
    type V = CreatePrStep;

    open spec fn view(&self) -> CreatePrStep {
        match self {
            CreatePrAction::FindWorkspaceRepo { repo_id } => CreatePrStep::FindWorkspaceRepo {
                repo_id: *repo_id,
            },
            CreatePrAction::FindRepo { repo_id } => CreatePrStep::FindRepo { repo_id: *repo_id },
            CreatePrAction::EnsureContainer => CreatePrStep::EnsureContainer,
            CreatePrAction::InspectSource => CreatePrStep::InspectSource,
            CreatePrAction::ResolvePushRemote { branch } => CreatePrStep::ResolvePushRemote {
                branch: branch@,
            },
            CreatePrAction::ResolveNamedRemote { branch } => CreatePrStep::ResolveNamedRemote {
                branch: branch@,
            },
            CreatePrAction::CheckBranch { remote_url, branch } => CreatePrStep::CheckBranch {
                remote_url: remote_url@,
                branch: branch@,
            },
            CreatePrAction::Push { branch } => CreatePrStep::Push { branch: branch@ },
            CreatePrAction::OpenHost { remote_url } => CreatePrStep::OpenHost {
                remote_url: remote_url@,
            },
            CreatePrAction::CreatePr { remote_url, request } => CreatePrStep::CreatePr {
                remote_url: remote_url@,
                request: request@,
            },
            CreatePrAction::Created { repo_id, base_branch, number, url, provider } =>
                CreatePrStep::Created {
                repo_id: *repo_id,
                base_branch: base_branch@,
                number: *number,
                url: url@,
                provider: *provider,
            },
            CreatePrAction::End(end) => CreatePrStep::End(end@),
        }
    }
}

/// The target branch: the one that is asked for, else that of the workspace.
pub open spec fn target_branch(run: CreatePrRun, workspace_repo: WorkspaceRepo) -> Seq<char> {
    match run.request.target_branch {
        Some(branch) => branch@,
        None => workspace_repo.target_branch@,
    }
}

/// Whether the source is known to differ from the commit that is asked for.
pub open spec fn source_changed(run: CreatePrRun) -> bool {
    match (run.request.source_head_sha, run.source) {
        (Some(expected), Some(source)) => source.head@ != expected@ || !is_clean_tree(
            source.status,
        ),
        _ => false,
    }
}

/// The URL of the remote that a pull request goes to: the one that the target
/// branch names, else the one that is pushed to.
pub open spec fn target_url(push: GitRemote, named: Lookup<GitRemote>) -> Seq<char> {
    match named {
        Lookup::Found(remote) => remote.url@,
        _ => push.url@,
    }
}

/// The branch that a pull request goes to, as its remote calls it.
pub open spec fn base_branch(named: Lookup<GitRemote>, target: Seq<char>) -> Seq<char> {
    match named {
        Lookup::Found(remote) => match without_prefix(target, remote.name@ + "/"@) {
            Some(branch) => branch,
            None => target,
        },
        _ => target,
    }
}

/// How a run ends where the provider does not create the pull request.
pub open spec fn create_end(failure: HostFailure, provider: ProviderKind) -> PrEndView {
    match failure {
        HostFailure::CliNotInstalled(provider) => PrEndView::Refused(
            PrErrorView::CliNotInstalled { provider },
        ),
        HostFailure::CliVersionUnsupported { provider, found, minimum } => PrEndView::Refused(
            PrErrorView::CliVersionUnsupported { provider, found, minimum },
        ),
        HostFailure::AuthFailed(_) => PrEndView::Refused(PrErrorView::CliNotLoggedIn { provider }),
        _ => PrEndView::Failed(ApiFailure::GitHost(failure)),
    }
}

/// What a run does once the remotes are known.
pub open spec fn remote_step(
    run: CreatePrRun,
    workspace_repo: WorkspaceRepo,
    push: GitRemote,
) -> CreatePrStep {
    let target = target_branch(run, workspace_repo);
    let url = target_url(push, run.named_remote);
    let base = base_branch(run.named_remote, target);
    match run.branch_exists {
        None => CreatePrStep::CheckBranch { remote_url: url, branch: base },
        Some(Err(failure)) => CreatePrStep::End(git_end(failure)),
        Some(Ok(exists)) => if !exists {
            CreatePrStep::End(
                PrEndView::Refused(PrErrorView::TargetBranchNotFound { branch: target }),
            )
        } else {
            match run.pushed {
                None => CreatePrStep::Push { branch: run.branch@ },
                Some(Err(failure)) => CreatePrStep::End(git_end(failure)),
                Some(Ok(_)) => match run.host {
                    None => CreatePrStep::OpenHost { remote_url: url },
                    Some(Err(error)) => CreatePrStep::End(open_end(error@)),
                    Some(Ok(provider)) => match run.created {
                        None => CreatePrStep::CreatePr {
                            remote_url: url,
                            request: RequestView {
                                title: run.request.title@,
                                body: opt_view(run.request.body),
                                head_branch: run.branch@,
                                base_branch: base,
                                draft: run.request.draft,
                                head_repo_url: Some(push.url@),
                            },
                        },
                        Some(Err(error)) => CreatePrStep::End(create_end(error@, provider)),
                        Some(Ok(pr)) => CreatePrStep::Created {
                            repo_id: workspace_repo.repo_id,
                            base_branch: base,
                            number: pr.number,
                            url: pr.url@,
                            provider,
                        },
                    },
                },
            }
        },
    }
}

/// What a run does or looks up next.
pub open spec fn create_step(run: CreatePrRun) -> CreatePrStep {
    match run.workspace_repo {
        Lookup::Unknown => CreatePrStep::FindWorkspaceRepo { repo_id: run.request.repo_id },
        Lookup::Missing => CreatePrStep::End(PrEndView::Failed(ApiFailure::RepoNotFound)),
        Lookup::Found(workspace_repo) => match run.repo {
            Lookup::Unknown => CreatePrStep::FindRepo { repo_id: workspace_repo.repo_id },
            Lookup::Missing => CreatePrStep::End(PrEndView::Failed(ApiFailure::RepoNotFound)),
            Lookup::Found(_) => if !run.container {
                CreatePrStep::EnsureContainer
            } else if run.request.source_head_sha is Some && run.source is None {
                CreatePrStep::InspectSource
            } else if source_changed(run) {
                CreatePrStep::End(PrEndView::Refused(PrErrorView::SourceBranchChanged))
            } else {
                match run.push_remote {
                    None => CreatePrStep::ResolvePushRemote { branch: run.branch@ },
                    Some(push) => if run.named_remote is Unknown {
                        CreatePrStep::ResolveNamedRemote {
                            branch: target_branch(run, workspace_repo),
                        }
                    } else {
                        remote_step(run, workspace_repo, push)
                    },
                }
            },
        },
    }
}

fn end_of_create(error: &GitHostError, provider: ProviderKind) -> (end: PrEnd)
    ensures
        end@ == create_end(error@, provider),
{
    match error {
        GitHostError::CliNotInstalled { provider } => PrEnd::Refused(
            PrError::CliNotInstalled { provider: *provider },
        ),
        GitHostError::CliVersionUnsupported { provider, found, minimum } => PrEnd::Refused(
            PrError::CliVersionUnsupported {
                provider: *provider,
                found: found.clone(),
                minimum: minimum.clone(),
            },
        ),
        GitHostError::AuthFailed(_) => PrEnd::Refused(PrError::CliNotLoggedIn { provider }),
        _ => PrEnd::Failed(ApiError::GitHost(error.copy())),
    }
}

impl CreatePrRun {
    /// A run of which nothing is known yet.
    pub fn new(request: CreatePrApiRequest, branch: String) -> (run: Self)
        ensures
            run == (CreatePrRun {
                request,
                branch,
                workspace_repo: Lookup::Unknown,
                repo: Lookup::Unknown,
                container: false,
                source: None,
                push_remote: None,
                named_remote: Lookup::Unknown,
                branch_exists: None,
                pushed: None,
                host: None,
                created: None,
            }),
    {
        CreatePrRun {
            request,
            branch,
            workspace_repo: Lookup::Unknown,
            repo: Lookup::Unknown,
            container: false,
            source: None,
            push_remote: None,
            named_remote: Lookup::Unknown,
            branch_exists: None,
            pushed: None,
            host: None,
            created: None,
        }
    }

    fn base_of(&self, target: &str) -> (base: String)
        ensures
            base@ == base_branch(self.named_remote, target@),
    {
        match &self.named_remote {
            Lookup::Found(remote) => {
                let prefix = concat2(&remote.name, "/");
                match strip_prefix(target, &prefix) {
                    Some(branch) => branch,
                    None => target.to_owned(),
                }
            },
            _ => target.to_owned(),
        }
    }

    fn next_with_remotes(&self, workspace_repo: &WorkspaceRepo, push: &GitRemote) -> (action:
        CreatePrAction)
        ensures
            action@ == remote_step(*self, *workspace_repo, *push),
    {
        let target = self.target_of(workspace_repo);
        let url = match &self.named_remote {
            Lookup::Found(remote) => remote.url.clone(),
            _ => push.url.clone(),
        };
        let base = self.base_of(&target);
        match &self.branch_exists {
            None => {
                return CreatePrAction::CheckBranch { remote_url: url, branch: base };
            },
            Some(Err(failure)) => {
                return CreatePrAction::End(end_of_git(failure));
            },
            Some(Ok(exists)) => {
                if !*exists {
                    return CreatePrAction::End(
                        PrEnd::Refused(PrError::TargetBranchNotFound { branch: target }),
                    );
                }
            },
        }
        match &self.pushed {
            None => {
                return CreatePrAction::Push { branch: self.branch.clone() };
            },
            Some(Err(failure)) => {
                return CreatePrAction::End(end_of_git(failure));
            },
            Some(Ok(_)) => {},
        }
        let provider = match &self.host {
            None => {
                return CreatePrAction::OpenHost { remote_url: url };
            },
            Some(Err(error)) => {
                return CreatePrAction::End(end_of_open(error));
            },
            Some(Ok(provider)) => *provider,
        };
        match &self.created {
            None => CreatePrAction::CreatePr {
                remote_url: url,
                request: CreatePrRequest {
                    title: self.request.title.clone(),
                    body: copy_text(&self.request.body),
                    head_branch: self.branch.clone(),
                    base_branch: base,
                    draft: self.request.draft,
                    head_repo_url: Some(push.url.clone()),
                },
            },
            Some(Err(error)) => CreatePrAction::End(end_of_create(error, provider)),
            Some(Ok(pr)) => CreatePrAction::Created {
                repo_id: workspace_repo.repo_id,
                base_branch: base,
                number: pr.number,
                url: pr.url.clone(),
                provider,
            },
        }
    }

    fn target_of(&self, workspace_repo: &WorkspaceRepo) -> (target: String)
        ensures
            target@ == target_branch(*self, *workspace_repo),
    {
        match &self.request.target_branch {
            Some(branch) => branch.clone(),
            None => workspace_repo.target_branch.clone(),
        }
    }

    /// What this run does or looks up next.
    pub fn next(&self) -> (action: CreatePrAction)
        ensures
            action@ == create_step(*self),
    {
        let workspace_repo = match &self.workspace_repo {
            Lookup::Unknown => {
                return CreatePrAction::FindWorkspaceRepo { repo_id: self.request.repo_id };
            },
            Lookup::Missing => {
                return CreatePrAction::End(PrEnd::Failed(ApiError::RepoNotFound));
            },
            Lookup::Found(workspace_repo) => workspace_repo,
        };
        match &self.repo {
            Lookup::Unknown => {
                return CreatePrAction::FindRepo { repo_id: workspace_repo.repo_id };
            },
            Lookup::Missing => {
                return CreatePrAction::End(PrEnd::Failed(ApiError::RepoNotFound));
            },
            Lookup::Found(_) => {},
        }
        if !self.container {
            return CreatePrAction::EnsureContainer;
        }
        if let Some(expected) = &self.request.source_head_sha {
            match &self.source {
                None => {
                    return CreatePrAction::InspectSource;
                },
                Some(source) => {
                    if !same(&source.head, expected) || !source.status.is_clean() {
                        return CreatePrAction::End(PrEnd::Refused(PrError::SourceBranchChanged));
                    }
                },
            }
        }
        let push = match &self.push_remote {
            None => {
                return CreatePrAction::ResolvePushRemote { branch: self.branch.clone() };
            },
            Some(push) => push,
        };
        if let Lookup::Unknown = &self.named_remote {
            return CreatePrAction::ResolveNamedRemote { branch: self.target_of(workspace_repo) };
        }
        self.next_with_remotes(workspace_repo, push)
    }
}

/// A pull request is created only for a branch that was pushed, towards a
/// branch that exists, on a provider that serves the target remote, and from
/// the commit that was asked for.
pub proof fn law_pr_needs_a_pushed_branch(run: CreatePrRun)
    requires
        create_step(run) is CreatePr,
    ensures
        run.pushed matches Some(Ok(_)),
        run.branch_exists == Some(Ok::<bool, GitFailure>(true)),
        run.host matches Some(Ok(_)),
        !source_changed(run),
        run.request.source_head_sha is Some ==> run.source is Some,
{
}

/// A branch is pushed only towards a target branch that exists, and only while
/// the source is what was asked for.
pub proof fn law_push_needs_an_unchanged_source(run: CreatePrRun)
    requires
        create_step(run) is Push,
    ensures
        run.branch_exists == Some(Ok::<bool, GitFailure>(true)),
        !source_changed(run),
        run.request.source_head_sha is Some ==> run.source is Some,
        create_step(run)->Push_branch == run.branch@,
{
}

/// The provider is chosen by the remote that the pull request goes to, which
/// is also the one whose branch is checked; the head is where the branch is
/// pushed to.
pub proof fn law_provider_follows_the_target_remote(run: CreatePrRun)
    ensures
        run.push_remote matches Some(push) ==> ({
            let url = target_url(push, run.named_remote);
            &&& create_step(run) matches CreatePrStep::CheckBranch { remote_url, .. } ==> remote_url
                == url
            &&& create_step(run) matches CreatePrStep::OpenHost { remote_url } ==> remote_url == url
            &&& create_step(run) matches CreatePrStep::CreatePr { remote_url, request } ==> (
            remote_url == url && request.head_repo_url == Some(push.url@))
        }),
{
}

/// What keeps `ge` from working is told to the user by its own name and with
/// the provider: that it is missing, too old, or not logged in. Everything else
/// is reported as what it is.
pub proof fn law_unusable_ge_is_named(run: CreatePrRun, failure: GeFailure, error: GitHostError)
    requires
        create_step(CreatePrRun { created: None, ..run }) is CreatePr,
        run.host == Some(Ok::<ProviderKind, GitHostError>(ProviderKind::Gitee)),
        run.created == Some(Err::<PullRequestInfo, GitHostError>(error)),
        error@ == host_failure(failure),
    ensures
        create_step(run) == CreatePrStep::End(
            match failure {
                GeFailure::NotAvailable => PrEndView::Refused(
                    PrErrorView::CliNotInstalled { provider: ProviderKind::Gitee },
                ),
                GeFailure::UnsupportedVersion { found, .. } => PrEndView::Refused(
                    PrErrorView::CliVersionUnsupported {
                        provider: ProviderKind::Gitee,
                        found,
                        minimum: MINIMUM_GE_VERSION@,
                    },
                ),
                GeFailure::AuthFailed(_) => PrEndView::Refused(
                    PrErrorView::CliNotLoggedIn { provider: ProviderKind::Gitee },
                ),
                _ => PrEndView::Failed(ApiFailure::GitHost(host_failure(failure))),
            },
        ),
{
}

/// Whether a step asks for something that is known already.
pub open spec fn is_known(run: CreatePrRun, step: CreatePrStep) -> bool {
    match step {
        CreatePrStep::FindWorkspaceRepo { .. } => run.workspace_repo !is Unknown,
        CreatePrStep::FindRepo { .. } => run.repo !is Unknown,
        CreatePrStep::EnsureContainer => run.container,
        CreatePrStep::InspectSource => run.source is Some,
        CreatePrStep::ResolvePushRemote { .. } => run.push_remote is Some,
        CreatePrStep::ResolveNamedRemote { .. } => run.named_remote !is Unknown,
        CreatePrStep::CheckBranch { .. } => run.branch_exists is Some,
        CreatePrStep::Push { .. } => run.pushed is Some,
        CreatePrStep::OpenHost { .. } => run.host is Some,
        CreatePrStep::CreatePr { .. } => run.created is Some,
        CreatePrStep::Created { .. } => false,
        CreatePrStep::End(_) => false,
    }
}

/// Nothing is done or looked up twice: a run asks for nothing that it knows. In
/// particular no branch is pushed again, and no second pull request created.
pub proof fn law_create_asks_nothing_twice(run: CreatePrRun)
    ensures
        !is_known(run, create_step(run)),
{
}

// ---------------------------------------------------------------------------
// What a run asks for, and what it comes to
// ---------------------------------------------------------------------------

/// Where the request names a target branch, that branch is the target: its
/// remote is asked for, and where it is missing, the user is told of it by that
/// name. Where it names no remote, it is the branch that is checked, and the base
/// of the pull request that is created and reported.
pub proof fn law_requested_target_is_used(run: CreatePrRun, branch: String)
    requires
        run.request.target_branch == Some(branch),
    ensures
        create_step(run) matches CreatePrStep::ResolveNamedRemote { branch: asked } ==> asked
            == branch@,
        create_step(run) matches CreatePrStep::End(
            PrEndView::Refused(PrErrorView::TargetBranchNotFound { branch: missing }),
        ) ==> missing == branch@,
        run.named_remote is Missing ==> {
            &&& create_step(run) matches CreatePrStep::CheckBranch { branch: checked, .. } ==> checked
                == branch@
            &&& create_step(run) matches CreatePrStep::CreatePr { request, .. }
                ==> request.base_branch == branch@
            &&& create_step(run) matches CreatePrStep::Created { base_branch: base, .. } ==> base
                == branch@
        },
{
}

/// Where the request names a target branch, that of the workspace makes no
/// difference: two runs that differ only in it take the same steps.
pub proof fn law_workspace_target_makes_no_difference(
    run: CreatePrRun,
    workspace_repo: WorkspaceRepo,
    other: String,
)
    requires
        run.request.target_branch is Some,
        run.workspace_repo == Lookup::Found(workspace_repo),
    ensures
        create_step(
            CreatePrRun {
                workspace_repo: Lookup::Found(
                    WorkspaceRepo { target_branch: other, ..workspace_repo },
                ),
                ..run
            },
        ) == create_step(run),
{
}

/// Where the request names no target branch, the run is the one in which it
/// names that of the workspace.
pub proof fn law_workspace_target_is_the_default(run: CreatePrRun, workspace_repo: WorkspaceRepo)
    requires
        run.request.target_branch is None,
        run.workspace_repo == Lookup::Found(workspace_repo),
    ensures
        create_step(run) == create_step(
            CreatePrRun {
                request: CreatePrApiRequest {
                    target_branch: Some(workspace_repo.target_branch),
                    ..run.request
                },
                ..run
            },
        ),
{
}

/// A target branch such as `upstream/main` goes to the remote that it names: its
/// URL is the one whose branch is checked, whose provider is opened and where the
/// pull request is created, and there the branch has its name without that of
/// the remote.
pub proof fn law_named_remote_takes_the_pr(
    run: CreatePrRun,
    branch: String,
    remote: GitRemote,
    name: Seq<char>,
)
    requires
        run.request.target_branch == Some(branch),
        run.named_remote == Lookup::Found(remote),
        branch@ == remote.name@ + "/"@ + name,
    ensures
        create_step(run) matches CreatePrStep::CheckBranch { remote_url, branch: checked } ==> (
        remote_url == remote.url@ && checked == name),
        create_step(run) matches CreatePrStep::OpenHost { remote_url } ==> remote_url == remote.url@,
        create_step(run) matches CreatePrStep::CreatePr { remote_url, request } ==> (remote_url
            == remote.url@ && request.base_branch == name),
        create_step(run) matches CreatePrStep::Created { base_branch: base, .. } ==> base == name,
{
    let prefix = remote.name@ + "/"@;
    assert(branch@ =~= prefix + name);
    assert(branch@.take(prefix.len() as int) =~= prefix);
    assert(branch@.subrange(0, prefix.len() as int) =~= prefix);
    assert(branch@.skip(prefix.len() as int) =~= name);
}

/// Where the target branch names no remote, the pull request goes to the remote
/// that the branch of the workspace is pushed to. Either way its head is there.
pub proof fn law_pr_goes_to_the_push_remote(run: CreatePrRun, push: GitRemote)
    requires
        run.push_remote == Some(push),
    ensures
        run.named_remote is Missing ==> {
            &&& create_step(run) matches CreatePrStep::CheckBranch { remote_url, .. } ==> remote_url
                == push.url@
            &&& create_step(run) matches CreatePrStep::OpenHost { remote_url } ==> remote_url
                == push.url@
            &&& create_step(run) matches CreatePrStep::CreatePr { remote_url, .. } ==> remote_url
                == push.url@
        },
        create_step(run) matches CreatePrStep::CreatePr { request, .. } ==> request.head_repo_url
            == Some(push.url@),
{
}

/// The pull request that is created has the title, the body and the draft state
/// that are asked for, and its head is the branch of the workspace. That branch
/// is the one whose remote is looked up and that is pushed.
pub proof fn law_pr_is_created_as_asked(run: CreatePrRun)
    ensures
        create_step(run) matches CreatePrStep::CreatePr { request, .. } ==> {
            &&& request.title == run.request.title@
            &&& run.request.body matches Some(body) ==> request.body == Some(body@)
            &&& run.request.body is None ==> request.body is None
            &&& request.draft == run.request.draft
            &&& request.head_branch == run.branch@
        },
        create_step(run) matches CreatePrStep::ResolvePushRemote { branch } ==> branch
            == run.branch@,
        create_step(run) matches CreatePrStep::Push { branch } ==> branch == run.branch@,
        create_step(run) matches CreatePrStep::FindWorkspaceRepo { repo_id } ==> repo_id
            == run.request.repo_id,
{
}

/// What is reported as created is the pull request that the provider created:
/// its number and its URL, the provider, and the repository of the workspace.
pub proof fn law_created_pr_is_reported(run: CreatePrRun)
    ensures
        create_step(run) matches CreatePrStep::Created { repo_id, number, url, provider, .. } ==> {
            &&& run.created matches Some(Ok(pr)) && number == pr.number && url == pr.url@
            &&& run.host == Some(Ok::<ProviderKind, GitHostError>(provider))
            &&& run.workspace_repo matches Lookup::Found(repo) && repo_id == repo.repo_id
        },
{
}

/// Whether the source is the commit that is asked for, with nothing left
/// uncommitted. Where none is asked for, any source will do.
pub open spec fn source_is_as_asked(run: CreatePrRun) -> bool {
    run.request.source_head_sha matches Some(expected) ==> (run.source matches Some(source)
        && source.head@ == expected@ && source.status.uncommitted_tracked == 0
        && source.status.untracked == 0)
}

/// Where the commit that is asked for is not the one that the working tree
/// stands on, or a file is not committed, the run is refused for it, and for
/// nothing else. Nothing is pushed from such a source.
pub proof fn law_changed_source_is_refused(run: CreatePrRun)
    requires
        run.workspace_repo is Found,
        run.repo is Found,
        run.container,
    ensures
        run.source is Some && !source_is_as_asked(run) ==> create_step(run) == CreatePrStep::End(
            PrEndView::Refused(PrErrorView::SourceBranchChanged),
        ),
        source_is_as_asked(run) ==> create_step(run) != CreatePrStep::End(
            PrEndView::Refused(PrErrorView::SourceBranchChanged),
        ),
        create_step(run) is Push || create_step(run) is CreatePr || create_step(run) is Created
            ==> source_is_as_asked(run),
        run.request.source_head_sha is Some && run.source is None ==> create_step(run)
            is InspectSource,
{
}

/// A run goes on as long as nothing stops it: it asks for what it needs next,
/// and once everything is there it is done.
pub proof fn law_create_goes_on(run: CreatePrRun)
    ensures
        run.workspace_repo is Unknown ==> create_step(run) is FindWorkspaceRepo,
        run.workspace_repo matches Lookup::Found(workspace_repo) ==> (run.repo is Unknown
            ==> create_step(run) == CreatePrStep::FindRepo { repo_id: workspace_repo.repo_id }),
        run.workspace_repo is Found && run.repo is Found ==> {
            &&& !run.container ==> create_step(run) is EnsureContainer
            &&& run.container && source_is_as_asked(run) ==> {
                &&& run.push_remote is None ==> create_step(run) is ResolvePushRemote
                &&& run.push_remote is Some && run.named_remote is Unknown ==> create_step(run)
                    is ResolveNamedRemote
                &&& run.push_remote is Some && run.named_remote !is Unknown ==> {
                    &&& run.branch_exists is None ==> create_step(run) is CheckBranch
                    &&& run.branch_exists == Some(Ok::<bool, GitFailure>(false)) ==> (create_step(
                        run,
                    ) matches CreatePrStep::End(PrEndView::Refused(
                        PrErrorView::TargetBranchNotFound { .. },
                    )))
                    &&& run.branch_exists == Some(Ok::<bool, GitFailure>(true)) ==> {
                        &&& run.pushed is None ==> create_step(run) is Push
                        &&& run.pushed matches Some(Ok(_)) ==> {
                            &&& run.host is None ==> create_step(run) is OpenHost
                            &&& run.host matches Some(Ok(_)) ==> {
                                &&& run.created is None ==> create_step(run) is CreatePr
                                &&& run.created matches Some(Ok(_)) ==> create_step(run) is Created
                            }
                        }
                    }
                }
            }
        },
{
}

/// What keeps a run from its end is reported: that the repository is missing,
/// what git says, that no provider serves the remote, and what the provider
/// says. What the user can act on has a name of its own.
pub proof fn law_create_failures_are_reported(run: CreatePrRun)
    ensures
        run.workspace_repo is Missing || (run.workspace_repo is Found && run.repo is Missing)
            ==> create_step(run) == CreatePrStep::End(PrEndView::Failed(ApiFailure::RepoNotFound)),
        run.workspace_repo is Found && run.repo is Found && run.container && source_is_as_asked(run)
            && run.push_remote is Some && run.named_remote !is Unknown ==> {
            &&& run.branch_exists == Some(Err::<bool, GitFailure>(GitFailure::AuthFailed))
                ==> create_step(run) == CreatePrStep::End(
                PrEndView::Refused(PrErrorView::GitCliNotLoggedIn),
            )
            &&& run.branch_exists == Some(Err::<bool, GitFailure>(GitFailure::NotAvailable))
                ==> create_step(run) == CreatePrStep::End(
                PrEndView::Refused(PrErrorView::GitCliNotInstalled),
            )
            &&& run.branch_exists matches Some(Err(GitFailure::Other(message))) ==> create_step(run)
                == CreatePrStep::End(PrEndView::Failed(ApiFailure::Git(message@)))
            &&& run.branch_exists == Some(Ok::<bool, GitFailure>(true)) ==> {
                &&& run.pushed == Some(Err::<(), GitFailure>(GitFailure::AuthFailed))
                    ==> create_step(run) == CreatePrStep::End(
                    PrEndView::Refused(PrErrorView::GitCliNotLoggedIn),
                )
                &&& run.pushed == Some(Err::<(), GitFailure>(GitFailure::NotAvailable))
                    ==> create_step(run) == CreatePrStep::End(
                    PrEndView::Refused(PrErrorView::GitCliNotInstalled),
                )
                &&& run.pushed matches Some(Err(GitFailure::Other(message))) ==> create_step(run)
                    == CreatePrStep::End(PrEndView::Failed(ApiFailure::Git(message@)))
                &&& run.pushed matches Some(Ok(_)) ==> {
                    &&& run.host matches Some(Err(error)) ==> create_step(run) == CreatePrStep::End(
                        match error@ {
                            HostFailure::UnsupportedProvider => PrEndView::Refused(
                                PrErrorView::UnsupportedProvider,
                            ),
                            HostFailure::CliNotInstalled(provider) => PrEndView::Refused(
                                PrErrorView::CliNotInstalled { provider },
                            ),
                            other => PrEndView::Failed(ApiFailure::GitHost(other)),
                        },
                    )
                    &&& run.host matches Some(Ok(opened)) ==> (run.created matches Some(Err(error))
                        ==> create_step(run) == CreatePrStep::End(
                        match error@ {
                            HostFailure::CliNotInstalled(provider) => PrEndView::Refused(
                                PrErrorView::CliNotInstalled { provider },
                            ),
                            HostFailure::CliVersionUnsupported { provider, found, minimum } =>
                                PrEndView::Refused(
                                PrErrorView::CliVersionUnsupported { provider, found, minimum },
                            ),
                            HostFailure::AuthFailed(_) => PrEndView::Refused(
                                PrErrorView::CliNotLoggedIn { provider: opened },
                            ),
                            other => PrEndView::Failed(ApiFailure::GitHost(other)),
                        },
                    ))
                }
            }
        },
{
}

/// The model of [`CreatePrRequest`] holds what the value does, part by part.
pub proof fn law_model_of_create_pr_request(value: CreatePrRequest)
    ensures
        value@.title == value.title@,
        value@.body == opt_view(value.body),
        value@.head_branch == value.head_branch@,
        value@.base_branch == value.base_branch@,
        value@.draft == value.draft,
        value@.head_repo_url == opt_view(value.head_repo_url),
{
}

/// The model of [`CreatePrAction`] holds what the value does, part by part.
pub proof fn law_model_of_create_pr_action(value: CreatePrAction)
    ensures
        match value {
            CreatePrAction::FindWorkspaceRepo { repo_id } =>
                value@ == (CreatePrStep::FindWorkspaceRepo {
                    repo_id,
                }),
            CreatePrAction::FindRepo { repo_id } => value@ == (CreatePrStep::FindRepo { repo_id }),
            CreatePrAction::EnsureContainer => value@ == CreatePrStep::EnsureContainer,
            CreatePrAction::InspectSource => value@ == CreatePrStep::InspectSource,
            CreatePrAction::ResolvePushRemote { branch } =>
                value@ == (CreatePrStep::ResolvePushRemote {
                    branch: branch@,
                }),
            CreatePrAction::ResolveNamedRemote { branch } =>
                value@ == (CreatePrStep::ResolveNamedRemote {
                    branch: branch@,
                }),
            CreatePrAction::CheckBranch { remote_url, branch } =>
                value@ == (CreatePrStep::CheckBranch {
                    remote_url: remote_url@,
                    branch: branch@,
                }),
            CreatePrAction::Push { branch } => value@ == (CreatePrStep::Push { branch: branch@ }),
            CreatePrAction::OpenHost { remote_url } => value@ == (CreatePrStep::OpenHost {
                remote_url: remote_url@,
            }),
            CreatePrAction::CreatePr { remote_url, request } => value@ == (CreatePrStep::CreatePr {
                remote_url: remote_url@,
                request: request@,
            }),
            CreatePrAction::Created { repo_id, base_branch, number, url, provider } =>
                value@ == (CreatePrStep::Created {
                    repo_id,
                    base_branch: base_branch@,
                    number,
                    url: url@,
                    provider,
                }),
            CreatePrAction::End(end) => value@ == CreatePrStep::End(end@),
        },
{
}

} // verus!
