//! What the routes decide.

use kanban_core::git_host::gitee_cli::{GeCliError, GiteeRepoInfo};
use kanban_core::git_host::types::{
    GitHostError, MergeStatus, ProviderKind, PullRequestInfo,
};
use kanban_core::native_history::ExecutionProcessStatus;
use kanban_core::routes::frontend::{development_hint, requested_path, serve_file, Shown};
use kanban_core::routes::pr::attach::{AttachExistingPrRequest, AttachPrAction, AttachPrRun};
use kanban_core::routes::pr::comments::{
    CommentsAction, CommentsRun, GetPrCommentsError, GetPrCommentsQuery,
};
use kanban_core::routes::pr::common::{
    ApiError, GitFailure, GitRemote, Lookup, Merge, PrEnd, PrError, Repo, WorkspaceRepo,
    WorktreeStatus,
};
use kanban_core::routes::pr::create::{
    CreatePrAction, CreatePrApiRequest, CreatePrRun, SourceState,
};
use kanban_core::routes::pr::description::{
    check_description, description_json, description_prompt, AgentProcess, DescriptionAction,
    DescriptionRun, GenerateAction, GeneratePrDescriptionRequest, GenerateRun,
    GeneratedPrDescription, GetPrDescriptionQuery, PrDescriptionStatus, RepoState,
    DEFAULT_PR_DESCRIPTION_PROMPT,
};
use kanban_core::routes::pr::from_pr::{
    Checkout, CreateFromPrError, CreateWorkspaceFromPrBody, CreateWorkspaceFromPrResponse,
    FromPrAction, FromPrRun, OpenedHost,
};
use serde_json::Value;

fn decode(json: &str) -> Result<GeneratedPrDescription, String> {
    let value: Value = serde_json::from_str(json).map_err(|error| error.to_string())?;
    let text = |key: &str| -> Result<String, String> {
        value
            .get(key)
            .and_then(Value::as_str)
            .map(str::to_string)
            .ok_or(format!("missing field `{key}`"))
    };
    Ok(GeneratedPrDescription { title: text("title")?, body: text("body")? })
}

fn parse_generated_pr_description(summary: &str) -> Result<GeneratedPrDescription, String> {
    let json = description_json(summary)?;
    check_description(decode(&json))
}

#[test]
fn parses_structured_pr_description_with_or_without_fence() {
    for summary in [
        r###"{"title":"Fix status","body":"## Summary\nDone"}"###,
        "```json\n{\"title\":\"Fix status\",\"body\":\"## Summary\\nDone\"}\n```",
    ] {
        let generated = parse_generated_pr_description(summary).unwrap();
        assert_eq!(generated.title, "Fix status");
        assert_eq!(generated.body, "## Summary\nDone");
    }
}

#[test]
fn rejects_empty_or_explanatory_pr_description() {
    assert!(parse_generated_pr_description(r#"{"title":"","body":"body"}"#).is_err());
    assert!(parse_generated_pr_description("Here is the JSON: {} ").is_err());
}

#[test]
fn descriptions_have_limits() {
    let check = |title: String, body: String| {
        check_description(Ok(GeneratedPrDescription { title, body })).map(|_| ())
    };
    assert_eq!(check("t".repeat(256), "b".repeat(65536)), Ok(()));
    assert_eq!(
        check("é".repeat(257), "b".into()),
        Err("AI-generated PR title exceeds 256 characters".into())
    );
    assert_eq!(
        check("t".into(), "é".repeat(32769)),
        Err("AI-generated PR body exceeds 64 KiB".into())
    );
    assert_eq!(
        check(" ".into(), "b".into()),
        Err("AI response must contain non-empty title and body".into())
    );
    assert_eq!(
        check_description(Err("x".into())).unwrap_err(),
        "AI response is not valid PR description JSON: x"
    );
    assert_eq!(
        description_json("```json").unwrap_err(),
        "AI response contains an invalid code fence"
    );
    assert_eq!(
        description_json("```json\n{}").unwrap_err(),
        "AI response contains an unclosed code fence"
    );
    assert_eq!(description_json("```\na ``` b\n``` tail").unwrap(), "a ``` b");
}

fn clean() -> WorktreeStatus {
    WorktreeStatus { uncommitted_tracked: 0, untracked: 0 }
}

fn dirty() -> WorktreeStatus {
    WorktreeStatus { uncommitted_tracked: 0, untracked: 1 }
}

fn remote(name: &str, url: &str) -> GitRemote {
    GitRemote { name: name.into(), url: url.into() }
}

fn workspace_repo() -> Lookup<WorkspaceRepo> {
    Lookup::Found(WorkspaceRepo { repo_id: 7, target_branch: "upstream/main".into() })
}

fn repo() -> Lookup<Repo> {
    Lookup::Found(Repo { name: "widgets".into() })
}

fn pr(status: MergeStatus) -> PullRequestInfo {
    PullRequestInfo {
        number: 5,
        url: "https://example.com/5".into(),
        status,
        merged_at: None,
        merge_commit_sha: Some("sha".into()),
    }
}

fn create_run(source_head_sha: Option<&str>) -> CreatePrRun {
    CreatePrRun::new(
        CreatePrApiRequest {
            title: "T".into(),
            body: Some("B".into()),
            target_branch: None,
            draft: Some(true),
            repo_id: 3,
            source_head_sha: source_head_sha.map(str::to_string),
        },
        "feature".into(),
    )
}

fn prepared_run() -> CreatePrRun {
    let mut run = create_run(Some("abc"));
    run.workspace_repo = workspace_repo();
    run.repo = repo();
    run.container = true;
    run.source = Some(SourceState { head: "abc".into(), status: clean() });
    run.push_remote = Some(remote("origin", "git@gitee.com:me/widgets.git"));
    run.named_remote = Lookup::Found(remote("upstream", "git@gitee.com:acme/widgets.git"));
    run
}

#[test]
fn pull_requests_are_created_step_by_step() {
    let mut run = create_run(Some("abc"));
    assert_eq!(run.next(), CreatePrAction::FindWorkspaceRepo { repo_id: 3 });
    run.workspace_repo = workspace_repo();
    assert_eq!(run.next(), CreatePrAction::FindRepo { repo_id: 7 });
    run.repo = repo();
    assert_eq!(run.next(), CreatePrAction::EnsureContainer);
    run.container = true;
    assert_eq!(run.next(), CreatePrAction::InspectSource);
    run.source = Some(SourceState { head: "abc".into(), status: clean() });
    assert_eq!(run.next(), CreatePrAction::ResolvePushRemote { branch: "feature".into() });
    run.push_remote = Some(remote("origin", "git@gitee.com:me/widgets.git"));
    assert_eq!(
        run.next(),
        CreatePrAction::ResolveNamedRemote { branch: "upstream/main".into() }
    );
    run.named_remote = Lookup::Found(remote("upstream", "git@gitee.com:acme/widgets.git"));
    assert_eq!(
        run.next(),
        CreatePrAction::CheckBranch {
            remote_url: "git@gitee.com:acme/widgets.git".into(),
            branch: "main".into()
        }
    );
    run.branch_exists = Some(Ok(true));
    assert_eq!(run.next(), CreatePrAction::Push { branch: "feature".into() });
    run.pushed = Some(Ok(()));
    assert_eq!(
        run.next(),
        CreatePrAction::OpenHost { remote_url: "git@gitee.com:acme/widgets.git".into() }
    );
    run.host = Some(Ok(ProviderKind::Gitee));
    match run.next() {
        CreatePrAction::CreatePr { remote_url, request } => {
            assert_eq!(remote_url, "git@gitee.com:acme/widgets.git");
            assert_eq!(request.head_branch, "feature");
            assert_eq!(request.base_branch, "main");
            assert_eq!(request.draft, Some(true));
            assert_eq!(
                request.head_repo_url.as_deref(),
                Some("git@gitee.com:me/widgets.git")
            );
        }
        other => panic!("unexpected action: {other:?}"),
    }
    run.created = Some(Ok(pr(MergeStatus::Open)));
    assert_eq!(
        run.next(),
        CreatePrAction::Created {
            repo_id: 7,
            base_branch: "main".into(),
            number: 5,
            url: "https://example.com/5".into(),
            provider: ProviderKind::Gitee
        }
    );
}

#[test]
fn changed_sources_are_never_pushed() {
    let refused = CreatePrAction::End(PrEnd::Refused(PrError::SourceBranchChanged));
    let mut run = prepared_run();
    run.source = Some(SourceState { head: "other".into(), status: clean() });
    assert_eq!(run.next(), refused);
    run.source = Some(SourceState { head: "abc".into(), status: dirty() });
    assert_eq!(run.next(), refused);
}

#[test]
fn creation_ends_where_something_is_missing() {
    let mut run = prepared_run();
    run.branch_exists = Some(Ok(false));
    assert_eq!(
        run.next(),
        CreatePrAction::End(PrEnd::Refused(PrError::TargetBranchNotFound {
            branch: "upstream/main".into()
        }))
    );
    run.branch_exists = Some(Err(GitFailure::NotAvailable));
    assert_eq!(
        run.next(),
        CreatePrAction::End(PrEnd::Refused(PrError::GitCliNotInstalled))
    );
    run.branch_exists = Some(Ok(true));
    run.pushed = Some(Err(GitFailure::AuthFailed));
    assert_eq!(
        run.next(),
        CreatePrAction::End(PrEnd::Refused(PrError::GitCliNotLoggedIn))
    );
    run.pushed = Some(Err(GitFailure::Other("boom".into())));
    assert_eq!(
        run.next(),
        CreatePrAction::End(PrEnd::Failed(ApiError::Git("boom".into())))
    );
    run.pushed = Some(Ok(()));
    run.host = Some(Err(GitHostError::UnsupportedProvider));
    assert_eq!(
        run.next(),
        CreatePrAction::End(PrEnd::Refused(PrError::UnsupportedProvider))
    );
    run.host = Some(Err(GitHostError::CliNotInstalled { provider: ProviderKind::Gitee }));
    assert_eq!(
        run.next(),
        CreatePrAction::End(PrEnd::Refused(PrError::CliNotInstalled {
            provider: ProviderKind::Gitee
        }))
    );
    run.host = Some(Ok(ProviderKind::Gitee));
    run.created = Some(Err(GitHostError::AuthFailed("x".into())));
    assert_eq!(
        run.next(),
        CreatePrAction::End(PrEnd::Refused(PrError::CliNotLoggedIn {
            provider: ProviderKind::Gitee
        }))
    );
    run.created = Some(Err(GitHostError::CliVersionUnsupported {
        provider: ProviderKind::Gitee,
        found: "1".into(),
        minimum: "2".into(),
    }));
    assert!(matches!(
        run.next(),
        CreatePrAction::End(PrEnd::Refused(PrError::CliVersionUnsupported { .. }))
    ));
    run.created = Some(Err(GitHostError::PullRequest("x".into())));
    assert_eq!(
        run.next(),
        CreatePrAction::End(PrEnd::Failed(ApiError::GitHost(GitHostError::PullRequest("x".into()))))
    );
    run.workspace_repo = Lookup::Missing;
    assert_eq!(
        run.next(),
        CreatePrAction::End(PrEnd::Failed(ApiError::RepoNotFound))
    );
}

#[test]
fn unnamed_remotes_fall_back_to_the_pushed_one() {
    let mut run = prepared_run();
    run.named_remote = Lookup::Missing;
    assert_eq!(
        run.next(),
        CreatePrAction::CheckBranch {
            remote_url: "git@gitee.com:me/widgets.git".into(),
            branch: "upstream/main".into()
        }
    );
}

fn attach_run(pinned: bool) -> AttachPrRun {
    let mut run =
        AttachPrRun::new(AttachExistingPrRequest { repo_id: 3 }, "feature".into(), pinned);
    run.task = Lookup::Found(11);
    run.workspace_repo = workspace_repo();
    run.repo = repo();
    run.merges = Some(vec![Merge::Direct, Merge::Pr(pr(MergeStatus::Open))]);
    run.remote = Some(remote("origin", "u"));
    run.host = Some(Ok(ProviderKind::Gitee));
    run
}

#[test]
fn merged_pull_requests_complete_the_task() {
    for (status, pinned) in [
        (MergeStatus::Merged, false),
        (MergeStatus::Merged, true),
        (MergeStatus::Closed, false),
        (MergeStatus::Open, false),
    ] {
        let mut run = attach_run(pinned);
        run.prs = Some(Ok(vec![pr(status), pr(MergeStatus::Closed)]));
        match run.next() {
            AttachPrAction::Attach {
                repo_id,
                target_branch,
                update,
                complete,
                archive,
                response,
                ..
            } => {
                let merged = status == MergeStatus::Merged;
                assert_eq!(repo_id, 7);
                assert_eq!(target_branch, "upstream/main");
                assert_eq!(complete, if merged { Some(11) } else { None });
                assert_eq!(archive, merged && !pinned);
                assert_eq!(update.is_some(), status != MergeStatus::Open);
                assert_eq!(response.pr_status, Some(status));
            }
            other => panic!("unexpected action: {other:?}"),
        }
    }
}

#[test]
fn open_pull_requests_are_preferred() {
    let mut run = attach_run(false);
    let mut open = pr(MergeStatus::Open);
    open.number = 6;
    let mut later = pr(MergeStatus::Open);
    later.number = 7;
    run.prs = Some(Ok(vec![pr(MergeStatus::Merged), open, later]));
    match run.next() {
        AttachPrAction::Attach { pr, update, complete, archive, response, .. } => {
            assert_eq!(pr.number, 6);
            assert_eq!(update, None);
            assert_eq!(complete, None);
            assert!(!archive);
            assert_eq!(response.pr_number, Some(6));
            assert_eq!(response.pr_status, Some(MergeStatus::Open));
        }
        other => panic!("unexpected action: {other:?}"),
    }
}

#[test]
fn attached_pull_requests_are_reported_at_once() {
    let mut run = attach_run(false);
    run.merges = Some(vec![Merge::Pr(pr(MergeStatus::Closed))]);
    match run.next() {
        AttachPrAction::Reply(response) => {
            assert!(response.pr_attached);
            assert_eq!(response.pr_number, Some(5));
        }
        other => panic!("unexpected action: {other:?}"),
    }
    let mut run = attach_run(false);
    run.prs = Some(Ok(Vec::new()));
    match run.next() {
        AttachPrAction::Reply(response) => assert!(!response.pr_attached),
        other => panic!("unexpected action: {other:?}"),
    }
    run.prs = Some(Err(GitHostError::AuthFailed("x".into())));
    assert_eq!(
        run.next(),
        AttachPrAction::End(PrEnd::Refused(PrError::CliNotLoggedIn {
            provider: ProviderKind::Gitee
        }))
    );
    run.task = Lookup::Missing;
    assert_eq!(
        run.next(),
        AttachPrAction::End(PrEnd::Failed(ApiError::TaskNotFound))
    );
}

#[test]
fn comments_need_an_attached_pull_request() {
    let mut run = CommentsRun::new(GetPrCommentsQuery { repo_id: 3 });
    run.workspace_repo = workspace_repo();
    run.repo = repo();
    run.merges = Some(Vec::new());
    assert_eq!(run.next(), CommentsAction::Refuse(GetPrCommentsError::NoPrAttached));
    run.merges = Some(vec![Merge::Pr(pr(MergeStatus::Open))]);
    run.remote = Some(remote("origin", "u"));
    run.host = Some(Ok(ProviderKind::Gitee));
    assert_eq!(
        run.next(),
        CommentsAction::FetchComments { remote_url: "u".into(), number: 5 }
    );
    run.fetched = Some(Ok(()));
    assert_eq!(run.next(), CommentsAction::Show);
    run.fetched = Some(Err(GitHostError::AuthFailed("x".into())));
    assert_eq!(
        run.next(),
        CommentsAction::Refuse(GetPrCommentsError::CliNotLoggedIn {
            provider: ProviderKind::Gitee
        })
    );
    run.host = Some(Err(GitHostError::UnsupportedProvider));
    assert_eq!(
        run.next(),
        CommentsAction::Fail(ApiError::GitHost(GitHostError::UnsupportedProvider))
    );
}

#[test]
fn agents_describe_committed_changes_only() {
    let mut run = GenerateRun::new(GeneratePrDescriptionRequest {
        repo_id: 3,
        target_branch: Some("main".into()),
    });
    run.workspace_repo = workspace_repo();
    run.repo = repo();
    run.container = true;
    run.status = Some(dirty());
    assert_eq!(
        run.next(),
        GenerateAction::Fail(ApiError::Validation(
            "Commit or discard working tree changes before generating a PR description".into()
        ))
    );
    run.status = Some(clean());
    assert_eq!(run.next(), GenerateAction::ReadHead);
    run.head = Some("abc".into());
    assert_eq!(run.next(), GenerateAction::ReadPrompt);
    run.configured = Some(Some("Describe {pr_number}".into()));
    assert_eq!(run.next(), GenerateAction::FindSession);
    run.session = Lookup::Found(1);
    assert_eq!(run.next(), GenerateAction::FindProfile { session_id: 1 });
    run.profile = Lookup::Found(());
    assert_eq!(run.next(), GenerateAction::FindAgentSession { session_id: 1 });
    run.agent_session = Some(Some("agent".into()));
    match run.next() {
        GenerateAction::StartAgent { prompt, follow_up, working_dir, .. } => {
            assert!(prompt.starts_with(DEFAULT_PR_DESCRIPTION_PROMPT));
            assert!(prompt.contains("\n\nTarget branch: main\nSource HEAD: abc\n\nRegardless"));
            assert_eq!(follow_up.as_deref(), Some("agent"));
            assert_eq!(working_dir, "widgets");
        }
        other => panic!("unexpected action: {other:?}"),
    }
    run.started = Some(99);
    match run.next() {
        GenerateAction::Reply(response) => {
            assert_eq!(response.execution_process_id, 99);
            assert_eq!(response.source_head_sha, "abc");
        }
        other => panic!("unexpected action: {other:?}"),
    }
    run.session = Lookup::Missing;
    assert!(matches!(run.next(), GenerateAction::Fail(ApiError::Validation(_))));
    assert!(description_prompt(&Some("Mine.".into()), "b", "h").starts_with("Mine.\n\nTarget"));
}

fn description_run(status: ExecutionProcessStatus) -> DescriptionRun {
    let mut run = DescriptionRun::new(
        GetPrDescriptionQuery { execution_process_id: 1, repo_id: 3 },
        42,
    );
    run.process = Lookup::Found(AgentProcess {
        session_id: 2,
        status,
        affects_task_status: false,
    });
    run.session_workspace = Lookup::Found(42);
    run
}

#[test]
fn descriptions_are_handed_out_for_unchanged_sources() {
    let mut run = description_run(ExecutionProcessStatus::Completed);
    assert_eq!(run.next(), DescriptionAction::FindSummary { process_id: 1 });
    run.summary = Lookup::Found(None);
    assert_eq!(run.next(), DescriptionAction::Reply(PrDescriptionStatus::Running));
    run.summary = Lookup::Found(Some("```\n{}\n```".into()));
    assert_eq!(run.next(), DescriptionAction::Decode { json: "{}".into() });
    run.decoded = Some(Ok(GeneratedPrDescription { title: "T".into(), body: "B".into() }));
    run.workspace_repo = workspace_repo();
    run.repo = repo();
    run.container = true;
    run.status = Some(clean());
    assert_eq!(run.next(), DescriptionAction::FindRepoStates { process_id: 1 });
    run.states = Some(vec![
        RepoState { repo_id: 9, before_head_commit: Some("no".into()) },
        RepoState { repo_id: 3, before_head_commit: Some("sha".into()) },
    ]);
    assert_eq!(
        run.next(),
        DescriptionAction::Reply(PrDescriptionStatus::Completed {
            title: "T".into(),
            body: "B".into(),
            source_head_sha: "sha".into()
        })
    );
    run.states = Some(Vec::new());
    assert_eq!(
        run.next(),
        DescriptionAction::Fail(ApiError::Validation(
            "Source HEAD for PR description generation is unavailable".into()
        ))
    );
    run.status = Some(dirty());
    assert_eq!(
        run.next(),
        DescriptionAction::Reply(PrDescriptionStatus::Failed {
            message: "The working tree changed while the PR description was generated".into()
        })
    );
}

#[test]
fn only_description_processes_are_read() {
    let mut run = description_run(ExecutionProcessStatus::Killed);
    assert_eq!(
        run.next(),
        DescriptionAction::Reply(PrDescriptionStatus::Failed {
            message: "AI agent failed to generate the PR description".into()
        })
    );
    run.session_workspace = Lookup::Found(43);
    assert_eq!(
        run.next(),
        DescriptionAction::Fail(ApiError::Validation(
            "Execution process is not a PR description generation process".into()
        ))
    );
    run.process = Lookup::Missing;
    assert_eq!(
        run.next(),
        DescriptionAction::Fail(ApiError::Validation(
            "PR description generation process not found".into()
        ))
    );
    let running = description_run(ExecutionProcessStatus::Running);
    assert_eq!(running.next(), DescriptionAction::Reply(PrDescriptionStatus::Running));
}

fn from_pr_run(url: &str) -> FromPrRun {
    let mut run = FromPrRun::new(CreateWorkspaceFromPrBody {
        repo_id: 3,
        pr_number: 12,
        pr_title: "Title".into(),
        pr_url: "https://gitee.com/acme/widgets/pulls/12".into(),
        head_branch: "feature".into(),
        base_branch: "main".into(),
        run_setup: true,
        remote_name: None,
    });
    run.repo = repo();
    run.project = Lookup::Found(8);
    run.remote = Some(remote("origin", url));
    run
}

#[test]
fn workspaces_are_checked_out_from_pull_requests() {
    let created = CreateWorkspaceFromPrResponse { workspace: 1, task: 2 };
    let mut run = from_pr_run("git@gitee.com:acme/widgets.git");
    assert_eq!(
        run.next(),
        FromPrAction::Prepare {
            project_id: 8,
            title: "Title".into(),
            description: "Created from PR #12: https://gitee.com/acme/widgets/pulls/12".into(),
            branch: "origin/main".into(),
            working_dir: "widgets".into()
        }
    );
    run.prepared = Some(created);
    assert_eq!(
        run.next(),
        FromPrAction::OpenHost { remote_url: "git@gitee.com:acme/widgets.git".into() }
    );
    run.host = Some(Ok(OpenedHost { provider: ProviderKind::Gitee, name: "Gitee".into() }));
    assert_eq!(
        run.next(),
        FromPrAction::CheckOut(Checkout::Gitee {
            repo: GiteeRepoInfo { owner: "acme".into(), repo_name: "widgets".into() },
            number: 12
        })
    );
    run.checked_out = Some(Ok(()));
    assert_eq!(
        run.next(),
        FromPrAction::Complete {
            created,
            head_branch: "feature".into(),
            target_branch: "origin/main".into(),
            number: 12,
            url: "https://gitee.com/acme/widgets/pulls/12".into(),
            run_setup: true
        }
    );
    run.checked_out = Some(Err("conflict".into()));
    assert_eq!(
        run.next(),
        FromPrAction::Refuse(CreateFromPrError::BranchFetchFailed { message: "conflict".into() })
    );
}

#[test]
fn unsupported_providers_cannot_be_checked_out() {
    let mut run = from_pr_run("https://dev.azure.com/o/p/_git/r");
    run.prepared = Some(CreateWorkspaceFromPrResponse { workspace: 1, task: 2 });
    run.host = Some(Ok(OpenedHost {
        provider: ProviderKind::AzureDevOps,
        name: "Azure DevOps".into(),
    }));
    assert_eq!(
        run.next(),
        FromPrAction::Refuse(CreateFromPrError::BranchFetchFailed {
            message: "Checking out pull requests from Azure DevOps is not supported".into()
        })
    );
    run.host = Some(Ok(OpenedHost { provider: ProviderKind::GitHub, name: "GitHub".into() }));
    assert_eq!(run.next(), FromPrAction::CheckOut(Checkout::GitHub { number: 12 }));
    run.host = Some(Err("no host".into()));
    assert_eq!(
        run.next(),
        FromPrAction::Refuse(CreateFromPrError::BranchFetchFailed { message: "no host".into() })
    );
    run.host = Some(Ok(OpenedHost { provider: ProviderKind::Gitee, name: "Gitee".into() }));
    match run.next_with(Err(GeCliError::NotAvailable)) {
        FromPrAction::Refuse(CreateFromPrError::BranchFetchFailed { message }) => assert_eq!(
            message,
            "Gitee CLI (`ge`) executable not found or not runnable"
        ),
        other => panic!("unexpected action: {other:?}"),
    }
    run.project = Lookup::Missing;
    assert_eq!(
        run.next(),
        FromPrAction::Refuse(CreateFromPrError::RepoNotInProject)
    );
}

#[test]
fn files_are_served_by_type_and_unknown_paths_by_the_start_page() {
    assert_eq!(requested_path("//assets/app.js"), "assets/app.js");
    let script = serve_file("assets/app.css", true, true);
    assert_eq!(script.status, 200);
    assert_eq!(script.content_type.as_deref(), Some("text/css"));
    assert_eq!(script.shown, Shown::File);
    let plain = serve_file("LICENSE", true, false);
    assert_eq!(plain.content_type.as_deref(), Some("application/octet-stream"));
    let routed = serve_file("projects/1", false, true);
    assert_eq!(routed.status, 200);
    assert_eq!(routed.content_type.as_deref(), Some("text/html"));
    assert_eq!(routed.shown, Shown::Index);
    let missing = serve_file("x", false, false);
    assert_eq!((missing.status, missing.content_type), (404, None));
    assert_eq!(
        development_hint(None),
        (
            404,
            "Development backend serves API only. Open http://localhost:3000 instead.".to_string()
        )
    );
    assert!(development_hint(Some("8080".into())).1.contains("localhost:8080 instead"));
}
