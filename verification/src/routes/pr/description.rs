//! Letting the coding agent write the title and the description of a pull
//! request.

use vstd::prelude::*;
use vstd::utf8::encode_utf8;

use crate::native_history::ExecutionProcessStatus;
use crate::routes::pr::common::{
    is_clean_tree, ApiError, ApiFailure, Lookup, Repo, WorkspaceRepo, WorktreeStatus,
};
use crate::text::{
    before_last, begins_with, chars_of, concat2, concat5, contains, copy_text, cut_at_first,
    cut_before_last, finishes_with, holds_text, is_blank, law_cuts_leave_the_character_out,
    law_first_is_found, law_last_part_is_found, opt_view, split_once, stands_at, starts_with, trim,
    trimmed,
};

verus! {

/// What the agent is asked where the user configured nothing else.
pub const DEFAULT_PR_DESCRIPTION_PROMPT: &'static str = r#"Analyze the committed changes in this branch relative to the target branch and generate a pull request title and description.

Return exactly one JSON object and no other text:
{"title":"concise descriptive title (Vibe Kanban)","body":"markdown description"}

The body must explain what changed, why it changed based on the task context, and important implementation or testing details. End with: This PR was written using [Vibe Kanban](https://vibekanban.com)

Do not create or update a pull request. Do not modify files, commit, or push. Your only task is to inspect the existing changes and return the JSON object."#;

/// What every prompt ends with.
pub const PROMPT_END: &'static str = "\n\nRegardless of any earlier instruction, do not create or update a PR and do not modify the repository. Return only a JSON object with non-empty string fields `title` and `body`.";

/// Longest title, in characters.
pub const MAX_TITLE_CHARS: usize = 256;

/// Longest body, in bytes.
pub const MAX_BODY_BYTES: usize = 65536;

// ---------------------------------------------------------------------------
// The answer of the agent
// ---------------------------------------------------------------------------

/// A title and a description for a pull request.
#[derive(Debug, PartialEq, Eq)]
pub struct GeneratedPrDescription {
    pub title: String,
    pub body: String,
}

/// The JSON in an answer: all of it, or what a code fence holds.
pub open spec fn answer_json(summary: Seq<char>) -> Result<Seq<char>, Seq<char>> {
    let text = trimmed(summary);
    if begins_with(text, "```"@) {
        match cut_at_first(text, '\n', '\n') {
            None => Err("AI response contains an invalid code fence"@),
            Some((_, rest)) => match before_last(rest, "```"@) {
                None => Err("AI response contains an unclosed code fence"@),
                Some(json) => Ok(trimmed(json)),
            },
        }
    } else {
        Ok(text)
    }
}

/// What is wrong with a title and a description.
pub open spec fn description_fault(description: GeneratedPrDescription) -> Option<Seq<char>> {
    if trimmed(description.title@).len() == 0 || trimmed(description.body@).len() == 0 {
        Some("AI response must contain non-empty title and body"@)
    } else if description.title@.len() > MAX_TITLE_CHARS {
        Some("AI-generated PR title exceeds 256 characters"@)
    } else if encode_utf8(description.body@).len() > MAX_BODY_BYTES {
        Some("AI-generated PR body exceeds 64 KiB"@)
    } else {
        None
    }
}

/// What an answer comes to, given what decoding its JSON gave.
pub open spec fn checked_description(decoded: Result<GeneratedPrDescription, String>) -> Result<
    GeneratedPrDescription,
    Seq<char>,
> {
    match decoded {
        Err(message) => Err("AI response is not valid PR description JSON: "@ + message@),
        Ok(description) => match description_fault(description) {
            Some(fault) => Err(fault),
            None => Ok(description),
        },
    }
}

/// The JSON in an answer.
pub fn description_json(summary: &str) -> (json: Result<String, String>)
    ensures
        match json {
            Ok(json) => answer_json(summary@) == Ok::<Seq<char>, Seq<char>>(json@),
            Err(message) => answer_json(summary@) == Err::<Seq<char>, Seq<char>>(message@),
        },
{
    let text = trim(summary);
    if !starts_with(&text, "```") {
        return Ok(text);
    }
    let rest = match split_once(&text, '\n') {
        Some((_, rest)) => rest,
        None => {
            return Err("AI response contains an invalid code fence".to_owned());
        },
    };
    match cut_before_last(&rest, "```") {
        Some(json) => Ok(trim(&json)),
        None => Err("AI response contains an unclosed code fence".to_owned()),
    }
}

fn find_fault(description: &GeneratedPrDescription) -> (fault: Option<&'static str>)
    ensures
        match fault {
            Some(fault) => description_fault(*description) == Some(fault@),
            None => description_fault(*description) is None,
        },
{
    if is_blank(&description.title) || is_blank(&description.body) {
        return Some("AI response must contain non-empty title and body");
    }
    if chars_of(&description.title).len() > MAX_TITLE_CHARS {
        return Some("AI-generated PR title exceeds 256 characters");
    }
    if description.body.as_str().as_bytes().len() > MAX_BODY_BYTES {
        return Some("AI-generated PR body exceeds 64 KiB");
    }
    None
}

/// What an answer comes to, given what decoding its JSON gave.
pub fn check_description(decoded: Result<GeneratedPrDescription, String>) -> (checked: Result<
    GeneratedPrDescription,
    String,
>)
    ensures
        match checked {
            Ok(description) => checked_description(decoded) == Ok::<
                GeneratedPrDescription,
                Seq<char>,
            >(description),
            Err(message) => checked_description(decoded) == Err::<
                GeneratedPrDescription,
                Seq<char>,
            >(message@),
        },
{
    match decoded {
        Err(message) => Err(
            concat2("AI response is not valid PR description JSON: ", &message),
        ),
        Ok(description) => match find_fault(&description) {
            Some(fault) => Err(fault.to_owned()),
            None => Ok(description),
        },
    }
}

/// What an answer comes to is decided by its title and its body: both must hold
/// more than white space, the title at most 256 characters and the body at most
/// 65536 bytes. What is in order is handed on as it is; of what is not, the first
/// fault is told, and where the JSON could not be decoded, why.
pub proof fn law_descriptions_are_checked(decoded: Result<GeneratedPrDescription, String>)
    ensures
        decoded matches Err(message) ==> checked_description(decoded) == Err::<
            GeneratedPrDescription,
            Seq<char>,
        >("AI response is not valid PR description JSON: "@ + message@),
        decoded matches Ok(description) ==> {
            let blank = trimmed(description.title@).len() == 0 || trimmed(description.body@).len()
                == 0;
            let long_title = description.title@.len() > 256;
            let long_body = encode_utf8(description.body@).len() > 65536;
            &&& blank ==> checked_description(decoded) == Err::<GeneratedPrDescription, Seq<char>>(
                "AI response must contain non-empty title and body"@,
            )
            &&& !blank && long_title ==> checked_description(decoded) == Err::<
                GeneratedPrDescription,
                Seq<char>,
            >("AI-generated PR title exceeds 256 characters"@)
            &&& !blank && !long_title && long_body ==> checked_description(decoded) == Err::<
                GeneratedPrDescription,
                Seq<char>,
            >("AI-generated PR body exceeds 64 KiB"@)
            &&& !blank && !long_title && !long_body ==> checked_description(decoded) == Ok::<
                GeneratedPrDescription,
                Seq<char>,
            >(description)
        },
{
}

/// An answer that is no code fence is the JSON itself, without the white space
/// around it. Of a code fence the JSON is what stands between its first line and
/// the last three backticks.
pub proof fn law_json_is_found_in_a_fence(
    summary: Seq<char>,
    opening: Seq<char>,
    json: Seq<char>,
    rest: Seq<char>,
)
    ensures
        !begins_with(trimmed(summary), "```"@) ==> answer_json(summary) == Ok::<
            Seq<char>,
            Seq<char>,
        >(trimmed(summary)),
        begins_with(trimmed(summary), "```"@) && trimmed(summary) == opening + "\n"@ + json
            + "```"@ + rest && !opening.contains('\n') && (forall|at: int|
            at > json.len() ==> !stands_at(json + "```"@ + rest, "```"@, at)) ==> answer_json(
            summary,
        ) == Ok::<Seq<char>, Seq<char>>(trimmed(json)),
        begins_with(trimmed(summary), "```"@) && !trimmed(summary).contains('\n') ==> answer_json(
            summary,
        ) == Err::<Seq<char>, Seq<char>>("AI response contains an invalid code fence"@),
        begins_with(trimmed(summary), "```"@) && trimmed(summary) == opening + "\n"@ + json
            && !opening.contains('\n') && !holds_text(json, "```"@) ==> answer_json(summary)
            == Err::<Seq<char>, Seq<char>>("AI response contains an unclosed code fence"@),
{
    let text = trimmed(summary);
    reveal_strlit("\n");
    reveal_strlit("```");
    law_first_is_found(text, '\n', '\n');
    if text == opening + "\n"@ + json + "```"@ + rest && !opening.contains('\n') {
        let after = json + "```"@ + rest;
        assert(text =~= opening + seq!['\n'] + after);
        law_cuts_leave_the_character_out(opening, '\n', after);
        if forall|at: int| at > json.len() ==> !stands_at(after, "```"@, at) {
            assert(after.subrange(json.len() as int, (json.len() + 3) as int) =~= "```"@);
            assert(stands_at(after, "```"@, json.len() as int));
            law_last_part_is_found(after, "```"@, after.len() as int);
            assert(after.take(json.len() as int) =~= json);
        }
    }
    if text == opening + "\n"@ + json && !opening.contains('\n') && !holds_text(json, "```"@) {
        assert(text =~= opening + seq!['\n'] + json);
        law_cuts_leave_the_character_out(opening, '\n', json);
        law_last_part_is_found(json, "```"@, json.len() as int);
    }
}

// ---------------------------------------------------------------------------
// Asking the agent
// ---------------------------------------------------------------------------

/// A request to let the agent write a description.
#[derive(Debug, PartialEq, Eq)]
pub struct GeneratePrDescriptionRequest {
    pub repo_id: u128,
    pub target_branch: Option<String>,
}

/// The process in which the agent writes, and the commit it writes about.
#[derive(Debug, PartialEq, Eq)]
pub struct GeneratePrDescriptionResponse {
    pub execution_process_id: u128,
    pub source_head_sha: String,
}

/// Whether a configured prompt can be used: it speaks of no pull request that
/// would have to exist already.
pub open spec fn is_usable(prompt: Seq<char>) -> bool {
    !holds_text(prompt, "{pr_number}"@) && !holds_text(prompt, "{pr_url}"@) && !holds_text(
        prompt,
        " pr edit"@,
    )
}

/// The first part of the prompt: what is configured where it can be used.
pub open spec fn prompt_template(configured: Option<String>) -> Seq<char> {
    match configured {
        Some(prompt) => if is_usable(prompt@) {
            prompt@
        } else {
            DEFAULT_PR_DESCRIPTION_PROMPT@
        },
        None => DEFAULT_PR_DESCRIPTION_PROMPT@,
    }
}

/// The whole prompt.
pub open spec fn full_prompt(template: Seq<char>, target: Seq<char>, head: Seq<char>) -> Seq<char> {
    template + "\n\nTarget branch: "@ + target + "\nSource HEAD: "@ + head + PROMPT_END@
}

/// The prompt that the agent is given.
pub fn description_prompt(configured: &Option<String>, target_branch: &str, head: &str) -> (prompt:
    String)
    ensures
        prompt@ == full_prompt(prompt_template(*configured), target_branch@, head@),
{
    let template = match configured {
        Some(prompt) => if contains(prompt, "{pr_number}") || contains(prompt, "{pr_url}")
            || contains(prompt, " pr edit") {
            DEFAULT_PR_DESCRIPTION_PROMPT.to_owned()
        } else {
            prompt.clone()
        },
        None => DEFAULT_PR_DESCRIPTION_PROMPT.to_owned(),
    };
    let mut prompt = concat5(
        &template,
        "\n\nTarget branch: ",
        target_branch,
        "\nSource HEAD: ",
        head,
    );
    prompt.append(PROMPT_END);
    prompt
}

/// A run that asks the agent: the request, and what is known so far.
#[derive(Debug, PartialEq, Eq)]
pub struct GenerateRun {
    pub request: GeneratePrDescriptionRequest,
    pub workspace_repo: Lookup<WorkspaceRepo>,
    pub repo: Lookup<Repo>,
    /// Whether the workspace has its container.
    pub container: bool,
    pub status: Option<WorktreeStatus>,
    pub head: Option<String>,
    /// The prompt that is configured, if any.
    pub configured: Option<Option<String>>,
    pub session: Lookup<u128>,
    /// The profile that the agent last ran with.
    pub profile: Lookup<()>,
    /// The agent's own id of its session, where it has run before.
    pub agent_session: Option<Option<String>>,
    /// The process that was started.
    pub started: Option<u128>,
}

/// What a run does or looks up next.
#[allow(inconsistent_fields)]
#[derive(Debug, PartialEq, Eq)]
pub enum GenerateAction {
    FindWorkspaceRepo { repo_id: u128 },
    FindRepo { repo_id: u128 },
    EnsureContainer,
    InspectTree,
    ReadHead,
    ReadPrompt,
    FindSession,
    FindProfile { session_id: u128 },
    FindAgentSession { session_id: u128 },
    /// The agent is started with a prompt, as a follow-up in its own session
    /// where it has one. It does not affect the status of the task.
    StartAgent {
        session_id: u128,
        prompt: String,
        follow_up: Option<String>,
        working_dir: String,
    },
    Reply(GeneratePrDescriptionResponse),
    Fail(ApiError),
}

/// Model of [`GenerateAction`].
#[allow(inconsistent_fields)]
pub enum GenerateStep {
    FindWorkspaceRepo { repo_id: u128 },
    FindRepo { repo_id: u128 },
    EnsureContainer,
    InspectTree,
    ReadHead,
    ReadPrompt,
    FindSession,
    FindProfile { session_id: u128 },
    FindAgentSession { session_id: u128 },
    StartAgent {
        session_id: u128,
        prompt: Seq<char>,
        follow_up: Option<Seq<char>>,
        working_dir: Seq<char>,
    },
    Reply { execution_process_id: u128, source_head_sha: Seq<char> },
    Fail(ApiFailure),
}

impl View for GenerateAction {
    type V = GenerateStep;

    open spec fn view(&self) -> GenerateStep {
        match self {
            GenerateAction::FindWorkspaceRepo { repo_id } => GenerateStep::FindWorkspaceRepo {
                repo_id: *repo_id,
            },
            GenerateAction::FindRepo { repo_id } => GenerateStep::FindRepo { repo_id: *repo_id },
            GenerateAction::EnsureContainer => GenerateStep::EnsureContainer,
            GenerateAction::InspectTree => GenerateStep::InspectTree,
            GenerateAction::ReadHead => GenerateStep::ReadHead,
            GenerateAction::ReadPrompt => GenerateStep::ReadPrompt,
            GenerateAction::FindSession => GenerateStep::FindSession,
            GenerateAction::FindProfile { session_id } => GenerateStep::FindProfile {
                session_id: *session_id,
            },
            GenerateAction::FindAgentSession { session_id } => GenerateStep::FindAgentSession {
                session_id: *session_id,
            },
            GenerateAction::StartAgent { session_id, prompt, follow_up, working_dir } =>
                GenerateStep::StartAgent {
                session_id: *session_id,
                prompt: prompt@,
                follow_up: opt_view(*follow_up),
                working_dir: working_dir@,
            },
            GenerateAction::Reply(response) => GenerateStep::Reply {
                execution_process_id: response.execution_process_id,
                source_head_sha: response.source_head_sha@,
            },
            GenerateAction::Fail(error) => GenerateStep::Fail(error@),
        }
    }
}

/// The failure where a run cannot go on for a reason the user can see.
pub open spec fn invalid(message: Seq<char>) -> ApiFailure {
    ApiFailure::Validation(message)
}

fn validation(message: &str) -> (error: ApiError)
    ensures
        error@ == invalid(message@),
{
    ApiError::Validation(message.to_owned())
}

/// What a run does once the source is known.
pub open spec fn ask_step(
    run: GenerateRun,
    workspace_repo: WorkspaceRepo,
    repo: Repo,
    head: Seq<char>,
) -> GenerateStep {
    let target = match run.request.target_branch {
        Some(branch) => branch@,
        None => workspace_repo.target_branch@,
    };
    match run.configured {
        None => GenerateStep::ReadPrompt,
        Some(configured) => match run.session {
            Lookup::Unknown => GenerateStep::FindSession,
            Lookup::Missing => GenerateStep::Fail(
                invalid("No coding agent session is available to generate the PR description"@),
            ),
            Lookup::Found(session_id) => match run.profile {
                Lookup::Unknown => GenerateStep::FindProfile { session_id },
                Lookup::Missing => GenerateStep::Fail(
                    invalid("No coding agent profile is available to generate the PR description"@),
                ),
                Lookup::Found(_) => match run.agent_session {
                    None => GenerateStep::FindAgentSession { session_id },
                    Some(follow_up) => match run.started {
                        None => GenerateStep::StartAgent {
                            session_id,
                            prompt: full_prompt(prompt_template(configured), target, head),
                            follow_up: opt_view(follow_up),
                            working_dir: repo.name@,
                        },
                        Some(execution_process_id) => GenerateStep::Reply {
                            execution_process_id,
                            source_head_sha: head,
                        },
                    },
                },
            },
        },
    }
}

/// What a run does or looks up next.
pub open spec fn generate_step(run: GenerateRun) -> GenerateStep {
    match run.workspace_repo {
        Lookup::Unknown => GenerateStep::FindWorkspaceRepo { repo_id: run.request.repo_id },
        Lookup::Missing => GenerateStep::Fail(ApiFailure::RepoNotFound),
        Lookup::Found(workspace_repo) => match run.repo {
            Lookup::Unknown => GenerateStep::FindRepo { repo_id: workspace_repo.repo_id },
            Lookup::Missing => GenerateStep::Fail(ApiFailure::RepoNotFound),
            Lookup::Found(repo) => if !run.container {
                GenerateStep::EnsureContainer
            } else {
                match run.status {
                    None => GenerateStep::InspectTree,
                    Some(status) => if !is_clean_tree(status) {
                        GenerateStep::Fail(
                            invalid(
                                "Commit or discard working tree changes before generating a PR description"@,
                            ),
                        )
                    } else {
                        match run.head {
                            None => GenerateStep::ReadHead,
                            Some(head) => ask_step(run, workspace_repo, repo, head@),
                        }
                    },
                }
            },
        },
    }
}

impl GenerateRun {
    /// A run of which nothing is known yet.
    pub fn new(request: GeneratePrDescriptionRequest) -> (run: Self)
        ensures
            run == (GenerateRun {
                request,
                workspace_repo: Lookup::Unknown,
                repo: Lookup::Unknown,
                container: false,
                status: None,
                head: None,
                configured: None,
                session: Lookup::Unknown,
                profile: Lookup::Unknown,
                agent_session: None,
                started: None,
            }),
    {
        GenerateRun {
            request,
            workspace_repo: Lookup::Unknown,
            repo: Lookup::Unknown,
            container: false,
            status: None,
            head: None,
            configured: None,
            session: Lookup::Unknown,
            profile: Lookup::Unknown,
            agent_session: None,
            started: None,
        }
    }

    fn ask(&self, workspace_repo: &WorkspaceRepo, repo: &Repo, head: &String) -> (action:
        GenerateAction)
        ensures
            action@ == ask_step(*self, *workspace_repo, *repo, head@),
    {
        let configured = match &self.configured {
            None => {
                return GenerateAction::ReadPrompt;
            },
            Some(configured) => configured,
        };
        let session_id: u128 = match &self.session {
            Lookup::Unknown => {
                return GenerateAction::FindSession;
            },
            Lookup::Missing => {
                return GenerateAction::Fail(
                    validation(
                        "No coding agent session is available to generate the PR description",
                    ),
                );
            },
            Lookup::Found(session_id) => *session_id,
        };
        match &self.profile {
            Lookup::Unknown => {
                return GenerateAction::FindProfile { session_id };
            },
            Lookup::Missing => {
                return GenerateAction::Fail(
                    validation(
                        "No coding agent profile is available to generate the PR description",
                    ),
                );
            },
            Lookup::Found(_) => {},
        }
        let follow_up = match &self.agent_session {
            None => {
                return GenerateAction::FindAgentSession { session_id };
            },
            Some(follow_up) => follow_up,
        };
        match &self.started {
            Some(execution_process_id) => GenerateAction::Reply(
                GeneratePrDescriptionResponse {
                    execution_process_id: *execution_process_id,
                    source_head_sha: head.clone(),
                },
            ),
            None => {
                let target = match &self.request.target_branch {
                    Some(branch) => branch.clone(),
                    None => workspace_repo.target_branch.clone(),
                };
                GenerateAction::StartAgent {
                    session_id,
                    prompt: description_prompt(configured, &target, head),
                    follow_up: copy_text(follow_up),
                    working_dir: repo.name.clone(),
                }
            },
        }
    }

    /// What this run does or looks up next.
    pub fn next(&self) -> (action: GenerateAction)
        ensures
            action@ == generate_step(*self),
    {
        let workspace_repo = match &self.workspace_repo {
            Lookup::Unknown => {
                return GenerateAction::FindWorkspaceRepo { repo_id: self.request.repo_id };
            },
            Lookup::Missing => {
                return GenerateAction::Fail(ApiError::RepoNotFound);
            },
            Lookup::Found(workspace_repo) => workspace_repo,
        };
        let repo = match &self.repo {
            Lookup::Unknown => {
                return GenerateAction::FindRepo { repo_id: workspace_repo.repo_id };
            },
            Lookup::Missing => {
                return GenerateAction::Fail(ApiError::RepoNotFound);
            },
            Lookup::Found(repo) => repo,
        };
        if !self.container {
            return GenerateAction::EnsureContainer;
        }
        match &self.status {
            None => {
                return GenerateAction::InspectTree;
            },
            Some(status) => {
                if !status.is_clean() {
                    return GenerateAction::Fail(
                        validation(
                            "Commit or discard working tree changes before generating a PR description",
                        ),
                    );
                }
            },
        }
        match &self.head {
            None => GenerateAction::ReadHead,
            Some(head) => self.ask(workspace_repo, repo, head),
        }
    }
}

/// The agent is asked only about committed changes, and whatever is
/// configured, its prompt ends by forbidding it to change anything.
pub proof fn law_agent_is_told_to_change_nothing(run: GenerateRun)
    requires
        generate_step(run) is StartAgent,
    ensures
        run.status matches Some(status) && is_clean_tree(status),
        finishes_with(generate_step(run)->prompt, PROMPT_END@),
{
    let prompt = generate_step(run)->prompt;
    let end = PROMPT_END@;
    assert(prompt.subrange(prompt.len() - end.len(), prompt.len() as int) =~= end);
}

/// Whether a step asks for something that is known already.
pub open spec fn is_known(run: GenerateRun, step: GenerateStep) -> bool {
    match step {
        GenerateStep::FindWorkspaceRepo { .. } => run.workspace_repo !is Unknown,
        GenerateStep::FindRepo { .. } => run.repo !is Unknown,
        GenerateStep::EnsureContainer => run.container,
        GenerateStep::InspectTree => run.status is Some,
        GenerateStep::ReadHead => run.head is Some,
        GenerateStep::ReadPrompt => run.configured is Some,
        GenerateStep::FindSession => run.session !is Unknown,
        GenerateStep::FindProfile { .. } => run.profile !is Unknown,
        GenerateStep::FindAgentSession { .. } => run.agent_session is Some,
        GenerateStep::StartAgent { .. } => run.started is Some,
        GenerateStep::Reply { .. } => false,
        GenerateStep::Fail(_) => false,
    }
}

/// Nothing is done or looked up twice: a run asks for nothing that it knows. In
/// particular the agent is started once at most.
pub proof fn law_generate_asks_nothing_twice(run: GenerateRun)
    ensures
        !is_known(run, generate_step(run)),
{
}

/// The agent is told the target branch and the commit, after the prompt that is
/// configured and before what it must not do. The target branch is the one that
/// is asked for, else that of the workspace. A configured prompt that speaks of a
/// pull request which would have to exist already gives way to the default.
pub proof fn law_agent_is_asked_about_the_target(run: GenerateRun)
    ensures
        generate_step(run) matches GenerateStep::StartAgent {
            session_id,
            prompt,
            follow_up,
            working_dir,
        } ==> (run.workspace_repo matches Lookup::Found(workspace_repo) && run.head matches Some(
            head,
        ) && run.configured matches Some(configured) && {
            let target = match run.request.target_branch {
                Some(branch) => branch@,
                None => workspace_repo.target_branch@,
            };
            let rest = "\n\nTarget branch: "@ + target + "\nSource HEAD: "@ + head@ + PROMPT_END@;
            &&& configured is None ==> prompt == DEFAULT_PR_DESCRIPTION_PROMPT@ + rest
            &&& configured matches Some(own) ==> {
                let about_a_pr = holds_text(own@, "{pr_number}"@) || holds_text(own@, "{pr_url}"@)
                    || holds_text(own@, " pr edit"@);
                &&& about_a_pr ==> prompt == DEFAULT_PR_DESCRIPTION_PROMPT@ + rest
                &&& !about_a_pr ==> prompt == own@ + rest
            }
            &&& run.session == Lookup::Found(session_id)
            &&& run.agent_session matches Some(agent_session) && match agent_session {
                Some(id) => follow_up == Some(id@),
                None => follow_up is None,
            }
            &&& run.repo matches Lookup::Found(repo) && working_dir == repo.name@
        }),
{
    if let GenerateStep::StartAgent { prompt, .. } = generate_step(run) {
        let target = match run.request.target_branch {
            Some(branch) => branch@,
            None => run.workspace_repo->Found_0.target_branch@,
        };
        let head = run.head->0@;
        let template = prompt_template(run.configured->0);
        assert(template + "\n\nTarget branch: "@ + target + "\nSource HEAD: "@ + head + PROMPT_END@
            =~= template + ("\n\nTarget branch: "@ + target + "\nSource HEAD: "@ + head
            + PROMPT_END@));
    }
}

/// Whether the repository and its container are there, nothing is left
/// uncommitted, and the commit is known.
pub open spec fn source_is_known(run: GenerateRun) -> bool {
    run.workspace_repo is Found && run.repo is Found && run.container && (
    run.status matches Some(status) && status.uncommitted_tracked == 0 && status.untracked == 0)
        && run.head is Some
}

/// A run goes on as long as nothing stops it: it asks for what it needs next,
/// starts the agent, and replies with the process that was started and the commit
/// that it writes about.
pub proof fn law_generate_goes_on(run: GenerateRun)
    ensures
        run.workspace_repo is Unknown ==> generate_step(run) == (GenerateStep::FindWorkspaceRepo {
            repo_id: run.request.repo_id,
        }),
        run.workspace_repo matches Lookup::Found(workspace_repo) ==> (run.repo is Unknown
            ==> generate_step(run) == GenerateStep::FindRepo { repo_id: workspace_repo.repo_id }),
        run.workspace_repo is Found && run.repo is Found ==> {
            &&& !run.container ==> generate_step(run) is EnsureContainer
            &&& run.container && run.status is None ==> generate_step(run) is InspectTree
            &&& run.container && (run.status matches Some(status) && status.uncommitted_tracked == 0
                && status.untracked == 0) && run.head is None ==> generate_step(run) is ReadHead
        },
        source_is_known(run) ==> {
            &&& run.configured is None ==> generate_step(run) is ReadPrompt
            &&& run.configured is Some && run.session is Unknown ==> generate_step(run)
                is FindSession
            &&& run.configured is Some ==> (run.session matches Lookup::Found(id) ==> {
                &&& run.profile is Unknown ==> generate_step(run) == GenerateStep::FindProfile {
                    session_id: id,
                }
                &&& run.profile is Found && run.agent_session is None ==> generate_step(run)
                    == GenerateStep::FindAgentSession { session_id: id }
                &&& run.profile is Found && run.agent_session is Some && run.started is None
                    ==> generate_step(run) is StartAgent
                &&& run.profile is Found && run.agent_session is Some ==> (
                run.started matches Some(process) ==> (run.head matches Some(head) && generate_step(
                    run,
                ) == GenerateStep::Reply {
                    execution_process_id: process,
                    source_head_sha: head@,
                }))
            })
        },
{
}

/// What keeps the agent from being asked is reported: that the repository is
/// missing, that something is not committed, and that there is no session or no
/// profile to ask it in.
pub proof fn law_generate_failures_are_reported(run: GenerateRun)
    ensures
        run.workspace_repo is Missing || (run.workspace_repo is Found && run.repo is Missing)
            ==> generate_step(run) == GenerateStep::Fail(ApiFailure::RepoNotFound),
        run.workspace_repo is Found && run.repo is Found && run.container && (
        run.status matches Some(status) && (status.uncommitted_tracked > 0 || status.untracked > 0))
            ==> generate_step(run) == GenerateStep::Fail(
            ApiFailure::Validation(
                "Commit or discard working tree changes before generating a PR description"@,
            ),
        ),
        source_is_known(run) && run.configured is Some ==> {
            &&& run.session is Missing ==> generate_step(run) == GenerateStep::Fail(
                ApiFailure::Validation(
                    "No coding agent session is available to generate the PR description"@,
                ),
            )
            &&& run.session is Found && run.profile is Missing ==> generate_step(run)
                == GenerateStep::Fail(
                ApiFailure::Validation(
                    "No coding agent profile is available to generate the PR description"@,
                ),
            )
        },
{
}

// ---------------------------------------------------------------------------
// Reading the answer
// ---------------------------------------------------------------------------

/// A request for the description that the agent wrote.
#[derive(Clone, Copy, Debug, PartialEq, Eq, Structural)]
pub struct GetPrDescriptionQuery {
    pub execution_process_id: u128,
    pub repo_id: u128,
}

/// How far the agent has come with a description.
#[derive(Debug, PartialEq, Eq)]
pub enum PrDescriptionStatus {
    Running,
    Failed { message: String },
    Completed { title: String, body: String, source_head_sha: String },
}

/// Model of [`PrDescriptionStatus`].
pub enum DescriptionView {
    Running,
    Failed { message: Seq<char> },
    Completed { title: Seq<char>, body: Seq<char>, source_head_sha: Seq<char> },
}

impl View for PrDescriptionStatus {
    type V = DescriptionView;

    open spec fn view(&self) -> DescriptionView {
        match self {
            PrDescriptionStatus::Running => DescriptionView::Running,
            PrDescriptionStatus::Failed { message } => DescriptionView::Failed {
                message: message@,
            },
            PrDescriptionStatus::Completed { title, body, source_head_sha } =>
                DescriptionView::Completed {
                title: title@,
                body: body@,
                source_head_sha: source_head_sha@,
            },
        }
    }
}

/// The process in which an agent writes.
#[derive(Clone, Copy, Debug, PartialEq, Eq, Structural)]
pub struct AgentProcess {
    pub session_id: u128,
    pub status: ExecutionProcessStatus,
    pub affects_task_status: bool,
}

/// The state of a repository around a process.
#[derive(Debug, PartialEq, Eq)]
pub struct RepoState {
    pub repo_id: u128,
    pub before_head_commit: Option<String>,
}

/// The first state of a repository.
pub open spec fn state_of(states: Seq<RepoState>, repo_id: u128) -> Option<RepoState>
    decreases states.len(),
{
    if states.len() == 0 {
        None
    } else {
        match state_of(states.drop_last(), repo_id) {
            Some(state) => Some(state),
            None => if states.last().repo_id == repo_id {
                Some(states.last())
            } else {
                None
            },
        }
    }
}

/// The commit that a repository stood on before a process.
pub open spec fn head_before(states: Seq<RepoState>, repo_id: u128) -> Option<Seq<char>> {
    match state_of(states, repo_id) {
        Some(state) => opt_view(state.before_head_commit),
        None => None,
    }
}

fn find_head(states: &Vec<RepoState>, repo_id: u128) -> (head: Option<String>)
    ensures
        opt_view(head) == head_before(states@, repo_id),
{
    let mut i: usize = 0;
    while i < states.len()
        invariant
            i <= states@.len(),
            state_of(states@.take(i as int), repo_id) is None,
        decreases states@.len() - i,
    {
        proof {
            let seen = states@.take(i + 1);
            assert(seen.drop_last() =~= states@.take(i as int));
            assert(seen.last() == states@[i as int]);
            lemma_state_stays(states@, i + 1, repo_id);
        }
        if states[i].repo_id == repo_id {
            return copy_text(&states[i].before_head_commit);
        }
        i = i + 1;
    }
    assert(states@.take(states@.len() as int) =~= states@);
    None
}

proof fn lemma_state_stays(states: Seq<RepoState>, seen: int, repo_id: u128)
    requires
        0 <= seen <= states.len(),
    ensures
        state_of(states.take(seen), repo_id) is Some ==> state_of(states, repo_id) == state_of(
            states.take(seen),
            repo_id,
        ),
    decreases states.len(),
{
    if seen == states.len() {
        assert(states.take(seen) =~= states);
    } else {
        assert(states.drop_last().take(seen) =~= states.take(seen));
        lemma_state_stays(states.drop_last(), seen, repo_id);
    }
}

/// A run that reads a description: the query, the workspace, and what is known
/// so far.
#[derive(Debug, PartialEq, Eq)]
pub struct DescriptionRun {
    pub query: GetPrDescriptionQuery,
    pub workspace_id: u128,
    pub process: Lookup<AgentProcess>,
    /// The workspace of the session that the process belongs to.
    pub session_workspace: Lookup<u128>,
    /// What the agent said, where it has ended its turn.
    pub summary: Lookup<Option<String>>,
    /// What decoding the JSON of the answer gave.
    pub decoded: Option<Result<GeneratedPrDescription, String>>,
    pub workspace_repo: Lookup<WorkspaceRepo>,
    pub repo: Lookup<Repo>,
    /// Whether the workspace has its container.
    pub container: bool,
    pub status: Option<WorktreeStatus>,
    pub states: Option<Vec<RepoState>>,
}

/// What a run does or looks up next.
#[allow(inconsistent_fields)]
#[derive(Debug, PartialEq, Eq)]
pub enum DescriptionAction {
    FindProcess { process_id: u128 },
    FindSession { session_id: u128 },
    FindSummary { process_id: u128 },
    Decode { json: String },
    FindWorkspaceRepo { repo_id: u128 },
    FindRepo { repo_id: u128 },
    EnsureContainer,
    InspectTree,
    FindRepoStates { process_id: u128 },
    Reply(PrDescriptionStatus),
    Fail(ApiError),
}

/// Model of [`DescriptionAction`].
#[allow(inconsistent_fields)]
pub enum DescriptionStep {
    FindProcess { process_id: u128 },
    FindSession { session_id: u128 },
    FindSummary { process_id: u128 },
    Decode { json: Seq<char> },
    FindWorkspaceRepo { repo_id: u128 },
    FindRepo { repo_id: u128 },
    EnsureContainer,
    InspectTree,
    FindRepoStates { process_id: u128 },
    Reply(DescriptionView),
    Fail(ApiFailure),
}

impl View for DescriptionAction {
    type V = DescriptionStep;

    open spec fn view(&self) -> DescriptionStep {
        match self {
            DescriptionAction::FindProcess { process_id } => DescriptionStep::FindProcess {
                process_id: *process_id,
            },
            DescriptionAction::FindSession { session_id } => DescriptionStep::FindSession {
                session_id: *session_id,
            },
            DescriptionAction::FindSummary { process_id } => DescriptionStep::FindSummary {
                process_id: *process_id,
            },
            DescriptionAction::Decode { json } => DescriptionStep::Decode { json: json@ },
            DescriptionAction::FindWorkspaceRepo { repo_id } =>
                DescriptionStep::FindWorkspaceRepo { repo_id: *repo_id },
            DescriptionAction::FindRepo { repo_id } => DescriptionStep::FindRepo {
                repo_id: *repo_id,
            },
            DescriptionAction::EnsureContainer => DescriptionStep::EnsureContainer,
            DescriptionAction::InspectTree => DescriptionStep::InspectTree,
            DescriptionAction::FindRepoStates { process_id } => DescriptionStep::FindRepoStates {
                process_id: *process_id,
            },
            DescriptionAction::Reply(status) => DescriptionStep::Reply(status@),
            DescriptionAction::Fail(error) => DescriptionStep::Fail(error@),
        }
    }
}

/// What a run does once the description is known to be in order.
pub open spec fn source_step(run: DescriptionRun, description: GeneratedPrDescription) ->
    DescriptionStep {
    match run.workspace_repo {
        Lookup::Unknown => DescriptionStep::FindWorkspaceRepo { repo_id: run.query.repo_id },
        Lookup::Missing => DescriptionStep::Fail(ApiFailure::RepoNotFound),
        Lookup::Found(workspace_repo) => match run.repo {
            Lookup::Unknown => DescriptionStep::FindRepo { repo_id: workspace_repo.repo_id },
            Lookup::Missing => DescriptionStep::Fail(ApiFailure::RepoNotFound),
            Lookup::Found(_) => if !run.container {
                DescriptionStep::EnsureContainer
            } else {
                match run.status {
                    None => DescriptionStep::InspectTree,
                    Some(status) => if !is_clean_tree(status) {
                        DescriptionStep::Reply(
                            DescriptionView::Failed {
                                message:
                                    "The working tree changed while the PR description was generated"@,
                            },
                        )
                    } else {
                        match run.states {
                            None => DescriptionStep::FindRepoStates {
                                process_id: run.query.execution_process_id,
                            },
                            Some(states) => match head_before(states@, run.query.repo_id) {
                                None => DescriptionStep::Fail(
                                    invalid(
                                        "Source HEAD for PR description generation is unavailable"@,
                                    ),
                                ),
                                Some(source_head_sha) => DescriptionStep::Reply(
                                    DescriptionView::Completed {
                                        title: description.title@,
                                        body: description.body@,
                                        source_head_sha,
                                    },
                                ),
                            },
                        }
                    },
                }
            },
        },
    }
}

/// What a run does once the agent is done.
pub open spec fn answer_step(run: DescriptionRun) -> DescriptionStep {
    match run.summary {
        Lookup::Unknown => DescriptionStep::FindSummary {
            process_id: run.query.execution_process_id,
        },
        Lookup::Missing => DescriptionStep::Fail(
            invalid("PR description generation result not found"@),
        ),
        Lookup::Found(None) => DescriptionStep::Reply(DescriptionView::Running),
        Lookup::Found(Some(summary)) => match answer_json(summary@) {
            Err(message) => DescriptionStep::Fail(invalid(message)),
            Ok(json) => match run.decoded {
                None => DescriptionStep::Decode { json },
                Some(decoded) => match checked_description(decoded) {
                    Err(message) => DescriptionStep::Fail(invalid(message)),
                    Ok(description) => source_step(run, description),
                },
            },
        },
    }
}

/// What a run does or looks up next.
pub open spec fn description_step(run: DescriptionRun) -> DescriptionStep {
    match run.process {
        Lookup::Unknown => DescriptionStep::FindProcess {
            process_id: run.query.execution_process_id,
        },
        Lookup::Missing => DescriptionStep::Fail(
            invalid("PR description generation process not found"@),
        ),
        Lookup::Found(process) => match run.session_workspace {
            Lookup::Unknown => DescriptionStep::FindSession { session_id: process.session_id },
            Lookup::Missing => DescriptionStep::Fail(
                invalid("PR description generation session not found"@),
            ),
            Lookup::Found(workspace_id) => if workspace_id != run.workspace_id
                || process.affects_task_status {
                DescriptionStep::Fail(
                    invalid("Execution process is not a PR description generation process"@),
                )
            } else {
                match process.status {
                    ExecutionProcessStatus::Running => DescriptionStep::Reply(
                        DescriptionView::Running,
                    ),
                    ExecutionProcessStatus::Failed => DescriptionStep::Reply(
                        DescriptionView::Failed {
                            message: "AI agent failed to generate the PR description"@,
                        },
                    ),
                    ExecutionProcessStatus::Killed => DescriptionStep::Reply(
                        DescriptionView::Failed {
                            message: "AI agent failed to generate the PR description"@,
                        },
                    ),
                    ExecutionProcessStatus::Completed => answer_step(run),
                }
            },
        },
    }
}

impl DescriptionRun {
    /// A run of which nothing is known yet.
    pub fn new(query: GetPrDescriptionQuery, workspace_id: u128) -> (run: Self)
        ensures
            run == (DescriptionRun {
                query,
                workspace_id,
                process: Lookup::Unknown,
                session_workspace: Lookup::Unknown,
                summary: Lookup::Unknown,
                decoded: None,
                workspace_repo: Lookup::Unknown,
                repo: Lookup::Unknown,
                container: false,
                status: None,
                states: None,
            }),
    {
        DescriptionRun {
            query,
            workspace_id,
            process: Lookup::Unknown,
            session_workspace: Lookup::Unknown,
            summary: Lookup::Unknown,
            decoded: None,
            workspace_repo: Lookup::Unknown,
            repo: Lookup::Unknown,
            container: false,
            status: None,
            states: None,
        }
    }

    fn next_with_source(&self, description: &GeneratedPrDescription) -> (action: DescriptionAction)
        ensures
            action@ == source_step(*self, *description),
    {
        let workspace_repo = match &self.workspace_repo {
            Lookup::Unknown => {
                return DescriptionAction::FindWorkspaceRepo { repo_id: self.query.repo_id };
            },
            Lookup::Missing => {
                return DescriptionAction::Fail(ApiError::RepoNotFound);
            },
            Lookup::Found(workspace_repo) => workspace_repo,
        };
        match &self.repo {
            Lookup::Unknown => {
                return DescriptionAction::FindRepo { repo_id: workspace_repo.repo_id };
            },
            Lookup::Missing => {
                return DescriptionAction::Fail(ApiError::RepoNotFound);
            },
            Lookup::Found(_) => {},
        }
        if !self.container {
            return DescriptionAction::EnsureContainer;
        }
        match &self.status {
            None => {
                return DescriptionAction::InspectTree;
            },
            Some(status) => {
                if !status.is_clean() {
                    return DescriptionAction::Reply(
                        PrDescriptionStatus::Failed {
                            message:
                                "The working tree changed while the PR description was generated".to_owned(),
                        },
                    );
                }
            },
        }
        match &self.states {
            None => DescriptionAction::FindRepoStates {
                process_id: self.query.execution_process_id,
            },
            Some(states) => match find_head(states, self.query.repo_id) {
                None => DescriptionAction::Fail(
                    validation("Source HEAD for PR description generation is unavailable"),
                ),
                Some(source_head_sha) => DescriptionAction::Reply(
                    PrDescriptionStatus::Completed {
                        title: description.title.clone(),
                        body: description.body.clone(),
                        source_head_sha,
                    },
                ),
            },
        }
    }

    fn next_with_answer(&self) -> (action: DescriptionAction)
        ensures
            action@ == answer_step(*self),
    {
        let summary = match &self.summary {
            Lookup::Unknown => {
                return DescriptionAction::FindSummary {
                    process_id: self.query.execution_process_id,
                };
            },
            Lookup::Missing => {
                return DescriptionAction::Fail(
                    validation("PR description generation result not found"),
                );
            },
            Lookup::Found(None) => {
                return DescriptionAction::Reply(PrDescriptionStatus::Running);
            },
            Lookup::Found(Some(summary)) => summary,
        };
        let json = match description_json(summary) {
            Err(message) => {
                return DescriptionAction::Fail(ApiError::Validation(message));
            },
            Ok(json) => json,
        };
        match &self.decoded {
            None => DescriptionAction::Decode { json },
            Some(Err(message)) => DescriptionAction::Fail(
                ApiError::Validation(
                    concat2("AI response is not valid PR description JSON: ", message),
                ),
            ),
            Some(Ok(description)) => match find_fault(description) {
                Some(fault) => DescriptionAction::Fail(validation(fault)),
                None => self.next_with_source(description),
            },
        }
    }

    /// What this run does or looks up next.
    pub fn next(&self) -> (action: DescriptionAction)
        ensures
            action@ == description_step(*self),
    {
        let process = match &self.process {
            Lookup::Unknown => {
                return DescriptionAction::FindProcess {
                    process_id: self.query.execution_process_id,
                };
            },
            Lookup::Missing => {
                return DescriptionAction::Fail(
                    validation("PR description generation process not found"),
                );
            },
            Lookup::Found(process) => *process,
        };
        match &self.session_workspace {
            Lookup::Unknown => {
                return DescriptionAction::FindSession { session_id: process.session_id };
            },
            Lookup::Missing => {
                return DescriptionAction::Fail(
                    validation("PR description generation session not found"),
                );
            },
            Lookup::Found(workspace_id) => {
                if *workspace_id != self.workspace_id || process.affects_task_status {
                    return DescriptionAction::Fail(
                        validation("Execution process is not a PR description generation process"),
                    );
                }
            },
        }
        match process.status {
            ExecutionProcessStatus::Running => DescriptionAction::Reply(
                PrDescriptionStatus::Running,
            ),
            ExecutionProcessStatus::Failed => DescriptionAction::Reply(agent_failed()),
            ExecutionProcessStatus::Killed => DescriptionAction::Reply(agent_failed()),
            ExecutionProcessStatus::Completed => self.next_with_answer(),
        }
    }
}

fn agent_failed() -> (status: PrDescriptionStatus)
    ensures
        status@ == (DescriptionView::Failed {
            message: "AI agent failed to generate the PR description"@,
        }),
{
    PrDescriptionStatus::Failed {
        message: "AI agent failed to generate the PR description".to_owned(),
    }
}

/// A description is handed out only where it is in order, the process was
/// started for it in this workspace, and nothing changed while it was written.
pub proof fn law_description_is_of_unchanged_source(run: DescriptionRun)
    requires
        description_step(run) matches DescriptionStep::Reply(DescriptionView::Completed { .. }),
    ensures
        run.process matches Lookup::Found(process) && !process.affects_task_status && process.status
            == ExecutionProcessStatus::Completed,
        run.session_workspace == Lookup::Found(run.workspace_id),
        run.status matches Some(status) && is_clean_tree(status),
        run.decoded matches Some(Ok(description)) && description_fault(description) is None,
{
}

/// Whether a step asks for something that is known already.
pub open spec fn is_known_of_description(run: DescriptionRun, step: DescriptionStep) -> bool {
    match step {
        DescriptionStep::FindProcess { .. } => run.process !is Unknown,
        DescriptionStep::FindSession { .. } => run.session_workspace !is Unknown,
        DescriptionStep::FindSummary { .. } => run.summary !is Unknown,
        DescriptionStep::Decode { .. } => run.decoded is Some,
        DescriptionStep::FindWorkspaceRepo { .. } => run.workspace_repo !is Unknown,
        DescriptionStep::FindRepo { .. } => run.repo !is Unknown,
        DescriptionStep::EnsureContainer => run.container,
        DescriptionStep::InspectTree => run.status is Some,
        DescriptionStep::FindRepoStates { .. } => run.states is Some,
        DescriptionStep::Reply(_) => false,
        DescriptionStep::Fail(_) => false,
    }
}

/// Nothing is looked up twice: a run asks for nothing that it knows.
pub proof fn law_description_asks_nothing_twice(run: DescriptionRun)
    ensures
        !is_known_of_description(run, description_step(run)),
{
}

/// The commit of a repository is that of the first state that is kept of it.
pub proof fn law_first_state_of_a_repository_counts(
    states: Seq<RepoState>,
    repo_id: u128,
    at: int,
)
    requires
        0 <= at < states.len(),
        states[at].repo_id == repo_id,
        forall|k: int| 0 <= k < at ==> (#[trigger] states[k]).repo_id != repo_id,
    ensures
        states[at].before_head_commit matches Some(head) ==> head_before(states, repo_id) == Some(
            head@,
        ),
        states[at].before_head_commit is None ==> head_before(states, repo_id) is None,
{
    lemma_first_state(states, repo_id, at);
}

proof fn lemma_first_state(states: Seq<RepoState>, repo_id: u128, at: int)
    requires
        0 <= at < states.len(),
        states[at].repo_id == repo_id,
        forall|k: int| 0 <= k < at ==> (#[trigger] states[k]).repo_id != repo_id,
    ensures
        state_of(states, repo_id) == Some(states[at]),
    decreases states.len(),
{
    let rest = states.drop_last();
    assert(forall|k: int| 0 <= k < rest.len() ==> #[trigger] rest[k] == states[k]);
    if at < rest.len() {
        lemma_first_state(rest, repo_id, at);
    } else {
        lemma_no_state(rest, repo_id);
    }
}

proof fn lemma_no_state(states: Seq<RepoState>, repo_id: u128)
    requires
        forall|k: int| 0 <= k < states.len() ==> (#[trigger] states[k]).repo_id != repo_id,
    ensures
        state_of(states, repo_id) is None,
    decreases states.len(),
{
    if states.len() > 0 {
        let rest = states.drop_last();
        assert(forall|k: int| 0 <= k < rest.len() ==> #[trigger] rest[k] == states[k]);
        lemma_no_state(rest, repo_id);
    }
}

/// Whether a run reads what an agent wrote that was started for a description in
/// this workspace.
pub open spec fn is_of_this_workspace(run: DescriptionRun) -> bool {
    (run.process matches Lookup::Found(process) && !process.affects_task_status)
        && run.session_workspace == Lookup::Found(run.workspace_id)
}

/// While the agent writes, the reply says so. Where it failed or was killed, the
/// reply says that. Once it has ended, its answer is looked up.
pub proof fn law_description_follows_the_agent(run: DescriptionRun, process: AgentProcess)
    requires
        is_of_this_workspace(run),
        run.process == Lookup::Found(process),
    ensures
        process.status == ExecutionProcessStatus::Running ==> description_step(run)
            == DescriptionStep::Reply(DescriptionView::Running),
        process.status == ExecutionProcessStatus::Failed || process.status
            == ExecutionProcessStatus::Killed ==> description_step(run) == DescriptionStep::Reply(
            DescriptionView::Failed {
                message: "AI agent failed to generate the PR description"@,
            },
        ),
        process.status == ExecutionProcessStatus::Completed ==> {
            &&& run.summary is Unknown ==> description_step(run) == DescriptionStep::FindSummary {
                process_id: run.query.execution_process_id,
            }
            &&& run.summary is Missing ==> description_step(run) == DescriptionStep::Fail(
                ApiFailure::Validation("PR description generation result not found"@),
            )
            &&& run.summary matches Lookup::Found(summary) ==> (summary is None
                ==> description_step(run) == DescriptionStep::Reply(DescriptionView::Running))
        },
{
}

/// A process that is of no use here is refused: one that is not there or has no
/// session, one of another workspace, and one that was started for the task.
pub proof fn law_other_processes_are_refused(run: DescriptionRun)
    ensures
        run.process is Unknown ==> description_step(run) == (DescriptionStep::FindProcess {
            process_id: run.query.execution_process_id,
        }),
        run.process is Missing ==> description_step(run) == DescriptionStep::Fail(
            ApiFailure::Validation("PR description generation process not found"@),
        ),
        run.process matches Lookup::Found(process) ==> {
            &&& run.session_workspace is Unknown ==> description_step(run)
                == DescriptionStep::FindSession { session_id: process.session_id }
            &&& run.session_workspace is Missing ==> description_step(run) == DescriptionStep::Fail(
                ApiFailure::Validation("PR description generation session not found"@),
            )
            &&& run.session_workspace matches Lookup::Found(id) ==> (id != run.workspace_id
                || process.affects_task_status ==> description_step(run) == DescriptionStep::Fail(
                ApiFailure::Validation(
                    "Execution process is not a PR description generation process"@,
                ),
            ))
        },
{
}

/// Whether the agent has answered, and what was asked for is the answer to go by.
pub open spec fn has_answered(run: DescriptionRun, summary: String) -> bool {
    is_of_this_workspace(run) && (run.process matches Lookup::Found(process) && process.status
        == ExecutionProcessStatus::Completed) && run.summary == Lookup::Found(Some(summary))
}

/// The JSON of an answer is decoded, and what is wrong with the answer is told.
/// What is in order is handed out as the agent wrote it, with the commit that the
/// repository stood on before, once nothing is found to have changed since.
pub proof fn law_answer_is_handed_out(run: DescriptionRun, summary: String)
    requires
        has_answered(run, summary),
    ensures
        answer_json(summary@) matches Err(message) ==> description_step(run)
            == DescriptionStep::Fail(ApiFailure::Validation(message)),
        answer_json(summary@) matches Ok(json) ==> {
            &&& run.decoded is None ==> description_step(run) == DescriptionStep::Decode { json }
            &&& run.decoded matches Some(decoded) ==> {
                &&& checked_description(decoded) matches Err(message) ==> description_step(run)
                    == DescriptionStep::Fail(ApiFailure::Validation(message))
                &&& checked_description(decoded) matches Ok(description) ==> {
                    &&& run.workspace_repo is Unknown ==> description_step(run)
                        == DescriptionStep::FindWorkspaceRepo { repo_id: run.query.repo_id }
                    &&& run.workspace_repo is Missing || (run.workspace_repo is Found && run.repo
                        is Missing) ==> description_step(run) == DescriptionStep::Fail(
                        ApiFailure::RepoNotFound,
                    )
                    &&& run.workspace_repo matches Lookup::Found(workspace_repo) ==> (run.repo
                        is Unknown ==> description_step(run) == DescriptionStep::FindRepo {
                        repo_id: workspace_repo.repo_id,
                    })
                    &&& run.workspace_repo is Found && run.repo is Found ==> {
                        &&& !run.container ==> description_step(run) is EnsureContainer
                        &&& run.container && run.status is None ==> description_step(run)
                            is InspectTree
                        &&& run.container ==> (run.status matches Some(status) ==> {
                            let clean = status.uncommitted_tracked == 0 && status.untracked == 0;
                            &&& !clean ==> description_step(run) == DescriptionStep::Reply(
                                DescriptionView::Failed {
                                    message:
                                        "The working tree changed while the PR description was generated"@,
                                },
                            )
                            &&& clean && run.states is None ==> description_step(run)
                                == DescriptionStep::FindRepoStates {
                                process_id: run.query.execution_process_id,
                            }
                            &&& clean ==> (run.states matches Some(states) ==> match head_before(
                                states@,
                                run.query.repo_id,
                            ) {
                                None => description_step(run) == DescriptionStep::Fail(
                                    ApiFailure::Validation(
                                        "Source HEAD for PR description generation is unavailable"@,
                                    ),
                                ),
                                Some(head) => description_step(run) == DescriptionStep::Reply(
                                    DescriptionView::Completed {
                                        title: description.title@,
                                        body: description.body@,
                                        source_head_sha: head,
                                    },
                                ),
                            })
                        })
                    }
                }
            }
        },
{
}

/// The model of [`GenerateAction`] holds what the value does, part by part.
pub proof fn law_model_of_generate_action(value: GenerateAction)
    ensures
        match value {
            GenerateAction::FindWorkspaceRepo { repo_id } =>
                value@ == (GenerateStep::FindWorkspaceRepo {
                    repo_id,
                }),
            GenerateAction::FindRepo { repo_id } => value@ == (GenerateStep::FindRepo { repo_id }),
            GenerateAction::EnsureContainer => value@ == GenerateStep::EnsureContainer,
            GenerateAction::InspectTree => value@ == GenerateStep::InspectTree,
            GenerateAction::ReadHead => value@ == GenerateStep::ReadHead,
            GenerateAction::ReadPrompt => value@ == GenerateStep::ReadPrompt,
            GenerateAction::FindSession => value@ == GenerateStep::FindSession,
            GenerateAction::FindProfile { session_id } => value@ == (GenerateStep::FindProfile {
                session_id,
            }),
            GenerateAction::FindAgentSession { session_id } =>
                value@ == (GenerateStep::FindAgentSession {
                    session_id,
                }),
            GenerateAction::StartAgent { session_id, prompt, follow_up, working_dir } =>
                value@ == (GenerateStep::StartAgent {
                    session_id,
                    prompt: prompt@,
                    follow_up: opt_view(follow_up),
                    working_dir: working_dir@,
                }),
            GenerateAction::Reply(response) => value@ == (GenerateStep::Reply {
                execution_process_id: response.execution_process_id,
                source_head_sha: response.source_head_sha@,
            }),
            GenerateAction::Fail(error) => value@ == GenerateStep::Fail(error@),
        },
{
}

/// The model of [`PrDescriptionStatus`] holds what the value does, part by part.
pub proof fn law_model_of_pr_description_status(value: PrDescriptionStatus)
    ensures
        match value {
            PrDescriptionStatus::Running => value@ == DescriptionView::Running,
            PrDescriptionStatus::Failed { message } => value@ == (DescriptionView::Failed {
                message: message@,
            }),
            PrDescriptionStatus::Completed { title, body, source_head_sha } =>
                value@ == (DescriptionView::Completed {
                    title: title@,
                    body: body@,
                    source_head_sha: source_head_sha@,
                }),
        },
{
}

/// The model of [`DescriptionAction`] holds what the value does, part by part.
pub proof fn law_model_of_description_action(value: DescriptionAction)
    ensures
        match value {
            DescriptionAction::FindProcess { process_id } =>
                value@ == (DescriptionStep::FindProcess {
                    process_id,
                }),
            DescriptionAction::FindSession { session_id } =>
                value@ == (DescriptionStep::FindSession {
                    session_id,
                }),
            DescriptionAction::FindSummary { process_id } =>
                value@ == (DescriptionStep::FindSummary {
                    process_id,
                }),
            DescriptionAction::Decode { json } => value@ == (DescriptionStep::Decode {
                json: json@,
            }),
            DescriptionAction::FindWorkspaceRepo { repo_id } =>
                value@ == (DescriptionStep::FindWorkspaceRepo {
                    repo_id,
                }),
            DescriptionAction::FindRepo { repo_id } => value@ == (DescriptionStep::FindRepo {
                repo_id,
            }),
            DescriptionAction::EnsureContainer => value@ == DescriptionStep::EnsureContainer,
            DescriptionAction::InspectTree => value@ == DescriptionStep::InspectTree,
            DescriptionAction::FindRepoStates { process_id } =>
                value@ == (DescriptionStep::FindRepoStates {
                    process_id,
                }),
            DescriptionAction::Reply(status) => value@ == DescriptionStep::Reply(status@),
            DescriptionAction::Fail(error) => value@ == DescriptionStep::Fail(error@),
        },
{
}

} // verus!
