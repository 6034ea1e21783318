//! Attaching a pull request that exists to a workspace.

use vstd::prelude::*;

use crate::git_host::gitee::HostFailure;
use crate::git_host::types::{GitHostError, MergeStatus, ProviderKind, PullRequestInfo};
use crate::routes::pr::common::{
    attached_pr, end_of_open, find_attached, open_end, ApiError, ApiFailure, GitRemote, Lookup,
    Merge, PrEnd, PrEndView, PrError, PrErrorView, Repo, WorkspaceRepo,
};
use crate::text::{copy_text, opt_view};

verus! {

/// A request to attach the pull request of a repository.
#[derive(Clone, Copy, Debug, PartialEq, Eq, Structural)]
pub struct AttachExistingPrRequest {
    pub repo_id: u128,
}

/// The pull request that is attached, if any.
#[derive(Debug, PartialEq, Eq)]
pub struct AttachPrResponse {
    pub pr_attached: bool,
    pub pr_url: Option<String>,
    pub pr_number: Option<i64>,
    pub pr_status: Option<MergeStatus>,
}

/// Model of [`AttachPrResponse`].
pub struct AttachView {
    pub pr_attached: bool,
    pub pr_url: Option<Seq<char>>,
    pub pr_number: Option<i64>,
    pub pr_status: Option<MergeStatus>,
}

impl View for AttachPrResponse {
    type V = AttachView;

    open spec fn view(&self) -> AttachView {
        AttachView {
            pr_attached: self.pr_attached,
            pr_url: opt_view(self.pr_url),
            pr_number: self.pr_number,
            pr_status: self.pr_status,
        }
    }
}

/// The response for a pull request.
pub open spec fn attached_response(pr: PullRequestInfo) -> AttachView {
    AttachView {
        pr_attached: true,
        pr_url: Some(pr.url@),
        pr_number: Some(pr.number),
        pr_status: Some(pr.status),
    }
}

/// The response where there is no pull request.
pub open spec fn nothing_attached() -> AttachView {
    AttachView { pr_attached: false, pr_url: None, pr_number: None, pr_status: None }
}

/// A run that attaches a pull request: the request, the workspace, and what is
/// known so far.
#[derive(Debug, PartialEq, Eq)]
pub struct AttachPrRun {
    pub request: AttachExistingPrRequest,
    pub branch: String,
    /// Whether the workspace is kept out of the archive.
    pub pinned: bool,
    pub task: Lookup<u128>,
    pub workspace_repo: Lookup<WorkspaceRepo>,
    pub repo: Lookup<Repo>,
    /// The merges of the repository, as they are listed.
    pub merges: Option<Vec<Merge>>,
    pub remote: Option<GitRemote>,
    pub host: Option<Result<ProviderKind, GitHostError>>,
    pub prs: Option<Result<Vec<PullRequestInfo>, GitHostError>>,
}

/// What a run does or looks up next.
#[allow(inconsistent_fields)]
#[derive(Debug, PartialEq, Eq)]
pub enum AttachPrAction {
    FindTask,
    FindWorkspaceRepo { repo_id: u128 },
    FindRepo { repo_id: u128 },
    FindMerges { repo_id: u128 },
    ResolveRemote { branch: String },
    OpenHost { remote_url: String },
    ListPrs { remote_url: String, branch: String },
    /// The pull request is recorded for the workspace and reported.
    Attach {
        repo_id: u128,
        target_branch: String,
        pr: PullRequestInfo,
        /// Its status and merge commit, where it is not open.
        update: Option<(MergeStatus, Option<String>)>,
        /// The task that is done with it.
        complete: Option<u128>,
        /// Whether the workspace goes to the archive.
        archive: bool,
        response: AttachPrResponse,
    },
    Reply(AttachPrResponse),
    End(PrEnd),
}

/// Model of [`AttachPrAction`].
#[allow(inconsistent_fields)]
pub enum AttachStep {
    FindTask,
    FindWorkspaceRepo { repo_id: u128 },
    FindRepo { repo_id: u128 },
    FindMerges { repo_id: u128 },
    ResolveRemote { branch: Seq<char> },
    OpenHost { remote_url: Seq<char> },
    ListPrs { remote_url: Seq<char>, branch: Seq<char> },
    Attach {
        repo_id: u128,
        target_branch: Seq<char>,
        pr: PullRequestInfo,
        update: Option<(MergeStatus, Option<String>)>,
        complete: Option<u128>,
        archive: bool,
        response: AttachView,
    },
    Reply(AttachView),
    End(PrEndView),
}

impl View for AttachPrAction {
    type V = AttachStep;

    open spec fn view(&self) -> AttachStep {
        match self {
            AttachPrAction::FindTask => AttachStep::FindTask,
            AttachPrAction::FindWorkspaceRepo { repo_id } => AttachStep::FindWorkspaceRepo {
                repo_id: *repo_id,
            },
            AttachPrAction::FindRepo { repo_id } => AttachStep::FindRepo { repo_id: *repo_id },
            AttachPrAction::FindMerges { repo_id } => AttachStep::FindMerges { repo_id: *repo_id },
            AttachPrAction::ResolveRemote { branch } => AttachStep::ResolveRemote {
                branch: branch@,
            },
            AttachPrAction::OpenHost { remote_url } => AttachStep::OpenHost {
                remote_url: remote_url@,
            },
            AttachPrAction::ListPrs { remote_url, branch } => AttachStep::ListPrs {
                remote_url: remote_url@,
                branch: branch@,
            },
            AttachPrAction::Attach {
                repo_id,
                target_branch,
                pr,
                update,
                complete,
                archive,
                response,
            } => AttachStep::Attach {
                repo_id: *repo_id,
                target_branch: target_branch@,
                pr: *pr,
                update: *update,
                complete: *complete,
                archive: *archive,
                response: response@,
            },
            AttachPrAction::Reply(response) => AttachStep::Reply(response@),
            AttachPrAction::End(end) => AttachStep::End(end@),
        }
    }
}

/// How a run ends where the provider does not list pull requests.
pub open spec fn list_end(failure: HostFailure, provider: ProviderKind) -> PrEndView {
    match failure {
        HostFailure::CliNotInstalled(provider) => PrEndView::Refused(
            PrErrorView::CliNotInstalled { provider },
        ),
        HostFailure::AuthFailed(_) => PrEndView::Refused(PrErrorView::CliNotLoggedIn { provider }),
        _ => PrEndView::Failed(ApiFailure::GitHost(failure)),
    }
}

/// What is recorded of a pull request. A merged one completes the task, and
/// archives the workspace unless that is pinned.
pub open spec fn attach_step(
    run: AttachPrRun,
    task: u128,
    workspace_repo: WorkspaceRepo,
    pr: PullRequestInfo,
) -> AttachStep {
    let merged = pr.status == MergeStatus::Merged;
    AttachStep::Attach {
        repo_id: workspace_repo.repo_id,
        target_branch: workspace_repo.target_branch@,
        pr,
        update: if pr.status == MergeStatus::Open {
            None
        } else {
            Some((pr.status, pr.merge_commit_sha))
        },
        complete: if merged {
            Some(task)
        } else {
            None
        },
        archive: merged && !run.pinned,
        response: attached_response(pr),
    }
}

/// The place of the first open pull request.
pub open spec fn first_open(prs: Seq<PullRequestInfo>) -> Option<int>
    decreases prs.len(),
{
    if prs.len() == 0 {
        None
    } else {
        match first_open(prs.drop_last()) {
            Some(at) => Some(at),
            None => if prs.last().status == MergeStatus::Open {
                Some(prs.len() - 1)
            } else {
                None
            },
        }
    }
}

/// The place of the pull request that is attached: the first open one, and
/// where none is open the first.
pub open spec fn preferred_pr(prs: Seq<PullRequestInfo>) -> int {
    match first_open(prs) {
        Some(at) => at,
        None => 0,
    }
}

/// What a run does once it is known that no pull request is attached.
pub open spec fn search_step(
    run: AttachPrRun,
    task: u128,
    workspace_repo: WorkspaceRepo,
) -> AttachStep {
    match run.remote {
        None => AttachStep::ResolveRemote { branch: workspace_repo.target_branch@ },
        Some(remote) => match run.host {
            None => AttachStep::OpenHost { remote_url: remote.url@ },
            Some(Err(error)) => AttachStep::End(open_end(error@)),
            Some(Ok(provider)) => match run.prs {
                None => AttachStep::ListPrs { remote_url: remote.url@, branch: run.branch@ },
                Some(Err(error)) => AttachStep::End(list_end(error@, provider)),
                Some(Ok(prs)) => if prs@.len() > 0 {
                    attach_step(run, task, workspace_repo, prs@[preferred_pr(prs@)])
                } else {
                    AttachStep::Reply(nothing_attached())
                },
            },
        },
    }
}

/// What a run does or looks up next.
pub open spec fn next_attach_step(run: AttachPrRun) -> AttachStep {
    match run.task {
        Lookup::Unknown => AttachStep::FindTask,
        Lookup::Missing => AttachStep::End(PrEndView::Failed(ApiFailure::TaskNotFound)),
        Lookup::Found(task) => match run.workspace_repo {
            Lookup::Unknown => AttachStep::FindWorkspaceRepo { repo_id: run.request.repo_id },
            Lookup::Missing => AttachStep::End(PrEndView::Failed(ApiFailure::RepoNotFound)),
            Lookup::Found(workspace_repo) => match run.repo {
                Lookup::Unknown => AttachStep::FindRepo { repo_id: workspace_repo.repo_id },
                Lookup::Missing => AttachStep::End(PrEndView::Failed(ApiFailure::RepoNotFound)),
                Lookup::Found(_) => match run.merges {
                    None => AttachStep::FindMerges { repo_id: run.request.repo_id },
                    Some(merges) => match attached_pr(merges@) {
                        Some(pr) => AttachStep::Reply(attached_response(pr)),
                        None => search_step(run, task, workspace_repo),
                    },
                },
            },
        },
    }
}

fn end_of_list(error: &GitHostError, provider: ProviderKind) -> (end: PrEnd)
    ensures
        end@ == list_end(error@, provider),
{
    match error {
        GitHostError::CliNotInstalled { provider } => PrEnd::Refused(
            PrError::CliNotInstalled { provider: *provider },
        ),
        GitHostError::AuthFailed(_) => PrEnd::Refused(PrError::CliNotLoggedIn { provider }),
        _ => PrEnd::Failed(ApiError::GitHost(error.copy())),
    }
}

proof fn lemma_first_open_stays(prs: Seq<PullRequestInfo>, to: int)
    requires
        0 <= to <= prs.len(),
        first_open(prs.take(to)) is Some,
    ensures
        first_open(prs) == first_open(prs.take(to)),
    decreases prs.len(),
{
    if to == prs.len() {
        assert(prs.take(to) =~= prs);
    } else {
        assert(prs.drop_last().take(to) =~= prs.take(to));
        lemma_first_open_stays(prs.drop_last(), to);
    }
}

fn prefer_open(prs: &Vec<PullRequestInfo>) -> (at: usize)
    requires
        prs@.len() > 0,
    ensures
        at < prs@.len(),
        at == preferred_pr(prs@),
{
    let mut i: usize = 0;
    while i < prs.len()
        invariant
            i <= prs@.len(),
            first_open(prs@.take(i as int)) is None,
        decreases prs@.len() - i,
    {
        proof {
            let seen = prs@.take(i + 1);
            assert(seen.drop_last() =~= prs@.take(i as int));
            assert(seen.last() == prs@[i as int]);
        }
        if matches!(prs[i].status, MergeStatus::Open) {
            proof {
                lemma_first_open_stays(prs@, i + 1);
            }
            return i;
        }
        i = i + 1;
    }
    assert(prs@.take(prs@.len() as int) =~= prs@);
    0
}

/// An open pull request is attached wherever one is listed, and the first that
/// is listed where none is open.
pub proof fn law_open_pull_requests_are_preferred(prs: Seq<PullRequestInfo>)
    requires
        prs.len() > 0,
    ensures
        0 <= preferred_pr(prs) < prs.len(),
        (exists|i: int| 0 <= i < prs.len() && (#[trigger] prs[i]).status == MergeStatus::Open)
            ==> prs[preferred_pr(prs)].status == MergeStatus::Open && forall|i: int|
            0 <= i < preferred_pr(prs) ==> (#[trigger] prs[i]).status != MergeStatus::Open,
        (forall|i: int| 0 <= i < prs.len() ==> (#[trigger] prs[i]).status != MergeStatus::Open)
            ==> preferred_pr(prs) == 0,
{
    lemma_first_open(prs);
}

proof fn lemma_first_open(prs: Seq<PullRequestInfo>)
    ensures
        match first_open(prs) {
            Some(at) => 0 <= at < prs.len() && prs[at].status == MergeStatus::Open && forall|
                i: int,
            |
                0 <= i < at ==> (#[trigger] prs[i]).status != MergeStatus::Open,
            None => forall|i: int|
                0 <= i < prs.len() ==> (#[trigger] prs[i]).status != MergeStatus::Open,
        },
    decreases prs.len(),
{
    if prs.len() > 0 {
        let rest = prs.drop_last();
        lemma_first_open(rest);
        assert(forall|i: int| 0 <= i < rest.len() ==> #[trigger] prs[i] == rest[i]);
    }
}

fn response_for(pr: &PullRequestInfo) -> (response: AttachPrResponse)
    ensures
        response@ == attached_response(*pr),
{
    AttachPrResponse {
        pr_attached: true,
        pr_url: Some(pr.url.clone()),
        pr_number: Some(pr.number),
        pr_status: Some(pr.status),
    }
}

impl AttachPrRun {
    /// A run of which nothing is known yet.
    pub fn new(request: AttachExistingPrRequest, branch: String, pinned: bool) -> (run: Self)
        ensures
            run == (AttachPrRun {
                request,
                branch,
                pinned,
                task: Lookup::Unknown,
                workspace_repo: Lookup::Unknown,
                repo: Lookup::Unknown,
                merges: None,
                remote: None,
                host: None,
                prs: None,
            }),
    {
        AttachPrRun {
            request,
            branch,
            pinned,
            task: Lookup::Unknown,
            workspace_repo: Lookup::Unknown,
            repo: Lookup::Unknown,
            merges: None,
            remote: None,
            host: None,
            prs: None,
        }
    }

    fn attach(&self, task: u128, workspace_repo: &WorkspaceRepo, pr: &PullRequestInfo) -> (action:
        AttachPrAction)
        ensures
            action@ == attach_step(*self, task, *workspace_repo, *pr),
    {
        let merged = matches!(pr.status, MergeStatus::Merged);
        let open = matches!(pr.status, MergeStatus::Open);
        AttachPrAction::Attach {
            repo_id: workspace_repo.repo_id,
            target_branch: workspace_repo.target_branch.clone(),
            pr: pr.copy(),
            update: if open {
                None
            } else {
                Some((pr.status, copy_text(&pr.merge_commit_sha)))
            },
            complete: if merged {
                Some(task)
            } else {
                None
            },
            archive: merged && !self.pinned,
            response: response_for(pr),
        }
    }

    fn search(&self, task: u128, workspace_repo: &WorkspaceRepo) -> (action: AttachPrAction)
        ensures
            action@ == search_step(*self, task, *workspace_repo),
    {
        let remote = match &self.remote {
            None => {
                return AttachPrAction::ResolveRemote {
                    branch: workspace_repo.target_branch.clone(),
                };
            },
            Some(remote) => remote,
        };
        let provider = match &self.host {
            None => {
                return AttachPrAction::OpenHost { remote_url: remote.url.clone() };
            },
            Some(Err(error)) => {
                return AttachPrAction::End(end_of_open(error));
            },
            Some(Ok(provider)) => *provider,
        };
        match &self.prs {
            None => AttachPrAction::ListPrs {
                remote_url: remote.url.clone(),
                branch: self.branch.clone(),
            },
            Some(Err(error)) => AttachPrAction::End(end_of_list(error, provider)),
            Some(Ok(prs)) => if prs.len() > 0 {
                let at: usize = prefer_open(prs);
                self.attach(task, workspace_repo, &prs[at])
            } else {
                AttachPrAction::Reply(
                    AttachPrResponse {
                        pr_attached: false,
                        pr_url: None,
                        pr_number: None,
                        pr_status: None,
                    },
                )
            },
        }
    }

    /// What this run does or looks up next.
    pub fn next(&self) -> (action: AttachPrAction)
        ensures
            action@ == next_attach_step(*self),
    {
        let task: u128 = match &self.task {
            Lookup::Unknown => {
                return AttachPrAction::FindTask;
            },
            Lookup::Missing => {
                return AttachPrAction::End(PrEnd::Failed(ApiError::TaskNotFound));
            },
            Lookup::Found(task) => *task,
        };
        let workspace_repo = match &self.workspace_repo {
            Lookup::Unknown => {
                return AttachPrAction::FindWorkspaceRepo { repo_id: self.request.repo_id };
            },
            Lookup::Missing => {
                return AttachPrAction::End(PrEnd::Failed(ApiError::RepoNotFound));
            },
            Lookup::Found(workspace_repo) => workspace_repo,
        };
        match &self.repo {
            Lookup::Unknown => {
                return AttachPrAction::FindRepo { repo_id: workspace_repo.repo_id };
            },
            Lookup::Missing => {
                return AttachPrAction::End(PrEnd::Failed(ApiError::RepoNotFound));
            },
            Lookup::Found(_) => {},
        }
        match &self.merges {
            None => AttachPrAction::FindMerges { repo_id: self.request.repo_id },
            Some(merges) => match find_attached(merges) {
                Some(pr) => AttachPrAction::Reply(response_for(pr)),
                None => self.search(task, workspace_repo),
            },
        }
    }
}

/// A task is completed exactly by a merged pull request, and a pinned
/// workspace is never archived.
pub proof fn law_only_merged_prs_complete_tasks(run: AttachPrRun)
    requires
        next_attach_step(run) is Attach,
    ensures
        next_attach_step(run) matches AttachStep::Attach { pr, complete, archive, response, .. } && {
            &&& complete is Some <==> pr.status == MergeStatus::Merged
            &&& archive <==> pr.status == MergeStatus::Merged && !run.pinned
            &&& response == attached_response(pr)
            &&& complete is Some ==> run.task == Lookup::Found(complete->0)
        },
{
}

/// Where a pull request is attached already, it is reported, and neither the
/// provider is asked nor anything recorded.
pub proof fn law_attached_pr_is_kept(run: AttachPrRun)
    requires
        run.merges matches Some(merges) && attached_pr(merges@) is Some,
    ensures
        !(next_attach_step(run) is Attach),
        !(next_attach_step(run) is OpenHost),
        !(next_attach_step(run) is ListPrs),
        run.task is Found && run.workspace_repo is Found && run.repo is Found ==> next_attach_step(
            run,
        ) == AttachStep::Reply(attached_response(attached_pr(run.merges->0@)->0)),
{
}

/// Whether a step asks for something that is known already.
pub open spec fn is_known(run: AttachPrRun, step: AttachStep) -> bool {
    match step {
        AttachStep::FindTask => run.task !is Unknown,
        AttachStep::FindWorkspaceRepo { .. } => run.workspace_repo !is Unknown,
        AttachStep::FindRepo { .. } => run.repo !is Unknown,
        AttachStep::FindMerges { .. } => run.merges is Some,
        AttachStep::ResolveRemote { .. } => run.remote is Some,
        AttachStep::OpenHost { .. } => run.host is Some,
        AttachStep::ListPrs { .. } => run.prs is Some,
        AttachStep::Attach { .. } => false,
        AttachStep::Reply(_) => false,
        AttachStep::End(_) => false,
    }
}

/// Nothing is looked up twice: a run asks for nothing that it knows.
pub proof fn law_attach_asks_nothing_twice(run: AttachPrRun)
    ensures
        !is_known(run, next_attach_step(run)),
{
}

/// Where no pull request is attached yet and the provider lists any, the one
/// that is attached is the first open one; where none is open, the first.
pub proof fn law_preferred_pr_is_attached(run: AttachPrRun, prs: Vec<PullRequestInfo>, at: int)
    requires
        next_attach_step(run) is Attach,
        run.prs == Some(Ok::<Vec<PullRequestInfo>, GitHostError>(prs)),
        0 <= at < prs@.len(),
    ensures
        prs@[at].status == MergeStatus::Open && (forall|i: int|
            0 <= i < at ==> (#[trigger] prs@[i]).status != MergeStatus::Open) ==> next_attach_step(
            run,
        )->pr == prs@[at],
        (forall|i: int| 0 <= i < prs@.len() ==> (#[trigger] prs@[i]).status != MergeStatus::Open)
            ==> next_attach_step(run)->pr == prs@[0],
{
    lemma_first_open(prs@);
}

/// A pull request is recorded for the repository and the target branch of the
/// workspace. Where it is not open any more, its status and its merge commit are
/// recorded too, and the reply gives its URL, its number and its status.
pub proof fn law_attached_pr_is_recorded(run: AttachPrRun)
    ensures
        next_attach_step(run) matches AttachStep::Attach {
            repo_id,
            target_branch,
            pr,
            update,
            response,
            ..
        } ==> {
            &&& run.workspace_repo matches Lookup::Found(workspace_repo) && repo_id
                == workspace_repo.repo_id && target_branch == workspace_repo.target_branch@
            &&& run.prs matches Some(Ok(prs)) && prs@.contains(pr)
            &&& pr.status == MergeStatus::Open ==> update is None
            &&& pr.status != MergeStatus::Open ==> update == Some((pr.status, pr.merge_commit_sha))
            &&& response == (AttachView {
                pr_attached: true,
                pr_url: Some(pr.url@),
                pr_number: Some(pr.number),
                pr_status: Some(pr.status),
            })
        },
{
    if let AttachStep::Attach { pr, .. } = next_attach_step(run) {
        let prs = run.prs->0->Ok_0@;
        lemma_first_open(prs);
        assert(prs[preferred_pr(prs)] == pr);
    }
}

/// A run asks the provider of the remote of the target branch for the pull
/// requests of the branch of the workspace.
pub proof fn law_prs_of_the_branch_are_listed(run: AttachPrRun)
    ensures
        next_attach_step(run) matches AttachStep::FindWorkspaceRepo { repo_id } ==> repo_id
            == run.request.repo_id,
        next_attach_step(run) matches AttachStep::FindMerges { repo_id } ==> repo_id
            == run.request.repo_id,
        next_attach_step(run) matches AttachStep::FindRepo { repo_id } ==> (
        run.workspace_repo matches Lookup::Found(workspace_repo) && repo_id
            == workspace_repo.repo_id),
        next_attach_step(run) matches AttachStep::ResolveRemote { branch } ==> (
        run.workspace_repo matches Lookup::Found(workspace_repo) && branch
            == workspace_repo.target_branch@),
        next_attach_step(run) matches AttachStep::OpenHost { remote_url } ==> (
        run.remote matches Some(remote) && remote_url == remote.url@),
        next_attach_step(run) matches AttachStep::ListPrs { remote_url, branch } ==> (
        run.remote matches Some(remote) && remote_url == remote.url@ && branch == run.branch@),
{
}

/// Whether the task and the repository of a run are known, and no pull request
/// is attached: there are no merges, or the first is that of a branch.
pub open spec fn searches(run: AttachPrRun) -> bool {
    run.task is Found && run.workspace_repo is Found && run.repo is Found && (
    run.merges matches Some(merges) && (merges@.len() == 0 || merges@[0] is Direct))
}

/// A run goes on as long as nothing stops it, and ends once it knows what there
/// is to attach. Where nothing is, it says so.
pub proof fn law_attach_goes_on(run: AttachPrRun)
    ensures
        run.task is Unknown ==> next_attach_step(run) is FindTask,
        run.task is Found && run.workspace_repo is Unknown ==> next_attach_step(run)
            is FindWorkspaceRepo,
        run.task is Found && run.workspace_repo is Found && run.repo is Unknown
            ==> next_attach_step(run) is FindRepo,
        run.task is Found && run.workspace_repo is Found && run.repo is Found && run.merges is None
            ==> next_attach_step(run) is FindMerges,
        searches(run) ==> {
            &&& run.remote is None ==> next_attach_step(run) is ResolveRemote
            &&& run.remote is Some && run.host is None ==> next_attach_step(run) is OpenHost
            &&& run.remote is Some && (run.host matches Some(Ok(_))) ==> {
                &&& run.prs is None ==> next_attach_step(run) is ListPrs
                &&& run.prs matches Some(Ok(prs)) ==> (prs@.len() > 0 ==> next_attach_step(run)
                    is Attach)
                &&& run.prs matches Some(Ok(prs)) ==> (prs@.len() == 0 ==> next_attach_step(run)
                    == AttachStep::Reply(
                    AttachView {
                        pr_attached: false,
                        pr_url: None,
                        pr_number: None,
                        pr_status: None,
                    },
                ))
            }
        },
{
}

/// The first merge of a repository decides whether a pull request is attached:
/// where it is one, the reply is that one.
pub proof fn law_first_merge_is_the_attached_pr(
    run: AttachPrRun,
    merges: Vec<Merge>,
    pr: PullRequestInfo,
)
    requires
        run.task is Found,
        run.workspace_repo is Found,
        run.repo is Found,
        run.merges == Some(merges),
        merges@.len() > 0,
        merges@[0] == Merge::Pr(pr),
    ensures
        next_attach_step(run) == AttachStep::Reply(
            AttachView {
                pr_attached: true,
                pr_url: Some(pr.url@),
                pr_number: Some(pr.number),
                pr_status: Some(pr.status),
            },
        ),
{
}

/// What keeps a run from its end is reported: that the task or the repository
/// is missing, that no provider serves the remote, and what the provider says.
/// What the user can act on has a name of its own.
pub proof fn law_attach_failures_are_reported(run: AttachPrRun)
    ensures
        run.task is Missing ==> next_attach_step(run) == AttachStep::End(
            PrEndView::Failed(ApiFailure::TaskNotFound),
        ),
        run.task is Found && (run.workspace_repo is Missing || (run.workspace_repo is Found
            && run.repo is Missing)) ==> next_attach_step(run) == AttachStep::End(
            PrEndView::Failed(ApiFailure::RepoNotFound),
        ),
        searches(run) && run.remote is Some ==> {
            &&& run.host matches Some(Err(error)) ==> next_attach_step(run) == AttachStep::End(
                match error@ {
                    HostFailure::UnsupportedProvider => PrEndView::Refused(
                        PrErrorView::UnsupportedProvider,
                    ),
                    HostFailure::CliNotInstalled(provider) => PrEndView::Refused(
                        PrErrorView::CliNotInstalled { provider },
                    ),
                    other => PrEndView::Failed(ApiFailure::GitHost(other)),
                },
            )
            &&& run.host matches Some(Ok(opened)) ==> (run.prs matches Some(Err(error))
                ==> next_attach_step(run) == AttachStep::End(
                match error@ {
                    HostFailure::CliNotInstalled(provider) => PrEndView::Refused(
                        PrErrorView::CliNotInstalled { provider },
                    ),
                    HostFailure::AuthFailed(_) => PrEndView::Refused(
                        PrErrorView::CliNotLoggedIn { provider: opened },
                    ),
                    other => PrEndView::Failed(ApiFailure::GitHost(other)),
                },
            ))
        },
{
}

/// The model of [`AttachPrResponse`] holds what the value does, part by part.
pub proof fn law_model_of_attach_pr_response(value: AttachPrResponse)
    ensures
        value@.pr_attached == value.pr_attached,
        value@.pr_url == opt_view(value.pr_url),
        value@.pr_number == value.pr_number,
        value@.pr_status == value.pr_status,
{
}

/// The model of [`AttachPrAction`] holds what the value does, part by part.
pub proof fn law_model_of_attach_pr_action(value: AttachPrAction)
    ensures
        match value {
            AttachPrAction::FindTask => value@ == AttachStep::FindTask,
            AttachPrAction::FindWorkspaceRepo { repo_id } =>
                value@ == (AttachStep::FindWorkspaceRepo {
                    repo_id,
                }),
            AttachPrAction::FindRepo { repo_id } => value@ == (AttachStep::FindRepo { repo_id }),
            AttachPrAction::FindMerges { repo_id } => value@ == (AttachStep::FindMerges {
                repo_id,
            }),
            AttachPrAction::ResolveRemote { branch } => value@ == (AttachStep::ResolveRemote {
                branch: branch@,
            }),
            AttachPrAction::OpenHost { remote_url } => value@ == (AttachStep::OpenHost {
                remote_url: remote_url@,
            }),
            AttachPrAction::ListPrs { remote_url, branch } => value@ == (AttachStep::ListPrs {
                remote_url: remote_url@,
                branch: branch@,
            }),
            AttachPrAction::Attach {
                repo_id,
                target_branch,
                pr,
                update,
                complete,
                archive,
                response,
            } => value@ == (AttachStep::Attach {
                repo_id,
                target_branch: target_branch@,
                pr,
                update,
                complete,
                archive,
                response: response@,
            }),
            AttachPrAction::Reply(response) => value@ == AttachStep::Reply(response@),
            AttachPrAction::End(end) => value@ == AttachStep::End(end@),
        },
{
}

} // verus!
