//! Runs PI: how the process is started, how a run proceeds from its first
//! request to its end, and how the dialogs of extensions are answered.

use vstd::prelude::*;

use crate::json::{
    compact_text, field, last_field, print_compact, string_field, Json, JsonNumber, JsonView,
    NumberView,
};
use crate::pi::rpc::{
    PiRpcCommandInfo, PiRpcCommands, PiRpcContextUsage, PiRpcEvent, PiRpcExtensionUiOutcome,
    PiRpcExtensionUiResponse, PiRpcSessionState,
};
use crate::text::{
    begins_with, law_parts_of_a_text_are_found, lemma_views_push, opt_view, same, strip_prefix,
    trim_start_matches, views, without_leading, without_prefix,
};

verus! {

/// What the title of a dialog begins with where it asks for the approval of a
/// tool.
pub open spec fn envelope_prefix() -> Seq<char> {
    "vk-pi-approval:"@
}

/// PI's tool-approval policy: `Auto` executes tools directly; `Supervised`
/// routes every mutating or unknown tool through the approval UI.
#[derive(Clone, Copy, Debug, PartialEq, Eq, Structural)]
pub enum PiPermissionPolicy {
    Auto,
    Supervised,
}

impl Default for PiPermissionPolicy {
    fn default() -> (policy: Self)
        ensures
            policy == PiPermissionPolicy::Auto,
    {
        PiPermissionPolicy::Auto
    }
}

/// How PI is configured.
#[derive(Debug, PartialEq, Eq)]
pub struct Pi {
    pub model: Option<String>,
    pub thinking: Option<String>,
    pub permission_policy: Option<PiPermissionPolicy>,
    pub trust_project: Option<bool>,
    pub load_user_extensions: Option<bool>,
}

/// A command line: the program, and its parameters.
#[derive(Debug, PartialEq, Eq)]
pub struct CommandBuilder {
    pub base: String,
    pub params: Option<Vec<String>>,
}

/// The parameters of a command line.
pub open spec fn params_of(builder: CommandBuilder) -> Seq<Seq<char>> {
    match builder.params {
        Some(params) => views(params@),
        None => Seq::empty(),
    }
}

impl CommandBuilder {
    /// A command line without parameters.
    pub fn new(base: &str) -> (builder: Self)
        ensures
            builder.base@ == base@,
            params_of(builder) == Seq::<Seq<char>>::empty(),
    {
        CommandBuilder { base: base.to_owned(), params: None }
    }

    /// Adds a parameter.
    pub fn extend_param(self, param: &str) -> (builder: Self)
        ensures
            builder.base == self.base,
            params_of(builder) == params_of(self).push(param@),
    {
        let mut params = match self.params {
            Some(params) => params,
            None => {
                let none: Vec<String> = Vec::new();
                assert(views(none@) =~= Seq::empty());
                none
            },
        };
        let added = param.to_owned();
        proof {
            lemma_views_push(params@, added);
        }
        params.push(added);
        CommandBuilder { base: self.base, params: Some(params) }
    }
}

/// Whether PI runs supervised.
pub open spec fn supervised(pi: Pi) -> bool {
    pi.permission_policy == Some(PiPermissionPolicy::Supervised)
}

/// Whether the user's own extensions are loaded: as configured, and otherwise
/// unless PI runs supervised.
pub open spec fn loads_extensions(pi: Pi) -> bool {
    match pi.load_user_extensions {
        Some(load) => load,
        None => !supervised(pi),
    }
}

/// A parameter with its value, where there is one.
pub open spec fn option_params(name: Seq<char>, value: Option<Seq<char>>) -> Seq<Seq<char>> {
    match value {
        Some(value) => seq![name, value],
        None => Seq::empty(),
    }
}

/// The parameters that PI is started with.
pub open spec fn start_params(pi: Pi) -> Seq<Seq<char>> {
    seq!["--mode"@, "rpc"@] + seq![
        if pi.trust_project == Some(true) {
            "--approve"@
        } else {
            "--no-approve"@
        },
    ] + option_params("--model"@, opt_view(pi.model)) + option_params(
        "--thinking"@,
        opt_view(pi.thinking),
    ) + if loads_extensions(pi) {
        Seq::<Seq<char>>::empty()
    } else {
        seq!["--no-extensions"@]
    }
}

/// The parameters that depend on what is launched: the session to resume, and
/// the permission bridge.
pub open spec fn launch_params(session: Option<Seq<char>>, bridge: Option<Seq<char>>) -> Seq<
    Seq<char>,
> {
    option_params("--session"@, session) + option_params("--extension"@, bridge)
}

fn extend_option(builder: CommandBuilder, name: &str, value: &Option<String>) -> (extended:
    CommandBuilder)
    ensures
        extended.base == builder.base,
        params_of(extended) == params_of(builder) + option_params(name@, opt_view(*value)),
{
    match value {
        Some(value) => {
            let extended = builder.extend_param(name).extend_param(value);
            assert(params_of(extended) =~= params_of(builder) + seq![name@, value@]);
            extended
        },
        None => {
            assert(params_of(builder) + Seq::empty() =~= params_of(builder));
            builder
        },
    }
}

impl Pi {
    /// The command line that PI is started with.
    pub fn build_command_builder(&self) -> (builder: CommandBuilder)
        ensures
            builder.base@ == "pi"@,
            params_of(builder) == start_params(*self),
    {
        let builder = CommandBuilder::new("pi").extend_param("--mode").extend_param("rpc");
        assert(params_of(builder) =~= seq!["--mode"@, "rpc"@]);
        let trusted = match self.trust_project {
            Some(true) => true,
            _ => false,
        };
        let ghost first = params_of(builder);
        let builder = if trusted {
            builder.extend_param("--approve")
        } else {
            builder.extend_param("--no-approve")
        };
        assert(params_of(builder) =~= first + seq![
            if trusted {
                "--approve"@
            } else {
                "--no-approve"@
            },
        ]);
        let builder = extend_option(builder, "--model", &self.model);
        let builder = extend_option(builder, "--thinking", &self.thinking);
        let load = match self.load_user_extensions {
            Some(load) => load,
            None => !self.is_supervised(),
        };
        let ghost configured = params_of(builder);
        if load {
            assert(configured + Seq::empty() =~= configured);
            builder
        } else {
            let builder = builder.extend_param("--no-extensions");
            assert(params_of(builder) =~= configured + seq!["--no-extensions"@]);
            builder
        }
    }

    /// The command line with what depends on the launch: the session to
    /// resume, and the permission bridge, which only a supervised run has.
    pub fn with_launch_params(
        &self,
        builder: CommandBuilder,
        resume_session: &Option<String>,
        bridge: &Option<String>,
    ) -> (extended: CommandBuilder)
        ensures
            extended.base == builder.base,
            params_of(extended) == params_of(builder) + launch_params(
                opt_view(*resume_session),
                if supervised(*self) {
                    opt_view(*bridge)
                } else {
                    None
                },
            ),
    {
        let ghost before = params_of(builder);
        let resumed = extend_option(builder, "--session", resume_session);
        let no_bridge: Option<String> = None;
        let extended = if self.is_supervised() {
            extend_option(resumed, "--extension", bridge)
        } else {
            extend_option(resumed, "--extension", &no_bridge)
        };
        proof {
            let session = option_params("--session"@, opt_view(*resume_session));
            let extension = option_params(
                "--extension"@,
                if supervised(*self) {
                    opt_view(*bridge)
                } else {
                    None
                },
            );
            assert(before + session + extension =~= before + (session + extension));
        }
        extended
    }

    /// The policy in force.
    pub fn permission_policy(&self) -> (policy: PiPermissionPolicy)
        ensures
            policy == match self.permission_policy {
                Some(policy) => policy,
                None => PiPermissionPolicy::Auto,
            },
    {
        match self.permission_policy {
            Some(policy) => policy,
            None => PiPermissionPolicy::Auto,
        }
    }

    /// Whether PI runs supervised.
    pub fn is_supervised(&self) -> (supervises: bool)
        ensures
            supervises == supervised(*self),
    {
        match self.permission_policy() {
            PiPermissionPolicy::Supervised => true,
            PiPermissionPolicy::Auto => false,
        }
    }

    /// The policy as the process sees it in its environment.
    pub fn policy_variable(&self) -> (value: &'static str)
        ensures
            value@ == if supervised(*self) {
                "SUPERVISED"@
            } else {
                "AUTO"@
            },
    {
        if self.is_supervised() {
            "SUPERVISED"
        } else {
            "AUTO"
        }
    }
}

/// A supervised run is safe unless configured otherwise: it neither trusts the
/// project nor loads the user's own extensions.
pub proof fn law_supervised_defaults_are_safe(pi: Pi)
    requires
        supervised(pi),
        pi.trust_project != Some(true),
        pi.load_user_extensions != Some(true),
    ensures
        start_params(pi).contains("--no-approve"@),
        start_params(pi).last() == "--no-extensions"@,
{
    assert(start_params(pi)[2] == "--no-approve"@);
}

// ---------------------------------------------------------------------------
// Synthetic log frames
// ---------------------------------------------------------------------------

/// The document that tells the log which session runs.
pub open spec fn session_start_document(session_id: Seq<char>) -> JsonView {
    JsonView::Object(
        seq![
            ("type"@, JsonView::Text("vk_pi_session_start"@)),
            ("sessionId"@, JsonView::Text(session_id)),
        ],
    )
}

/// A count, or null.
pub open spec fn count_document(count: Option<u32>) -> JsonView {
    match count {
        Some(count) => JsonView::Number(NumberView::Int(count as int)),
        None => JsonView::Null,
    }
}

/// The document that tells the log how many tokens were used.
pub open spec fn token_usage_document(usage: PiRpcContextUsage) -> JsonView {
    JsonView::Object(
        seq![
            ("type"@, JsonView::Text("vk_pi_token_usage"@)),
            ("tokens"@, count_document(usage.tokens)),
            ("contextWindow"@, count_document(usage.context_window)),
        ],
    )
}

/// The frame that tells the log which session runs.
pub fn session_start_frame(session_id: &str) -> (frame: String)
    ensures
        frame@ == compact_text(session_start_document(session_id@)),
{
    let mut fields: Vec<(String, Json)> = Vec::new();
    fields.push(("type".to_owned(), Json::Text("vk_pi_session_start".to_owned())));
    fields.push(("sessionId".to_owned(), Json::Text(session_id.to_owned())));
    assert(fields@[0].1@ == JsonView::Text("vk_pi_session_start"@));
    assert(fields@[1].1@ == JsonView::Text(session_id@));
    let document = Json::Object(fields);
    assert(document@->Object_0 =~= session_start_document(session_id@)->Object_0);
    print_compact(&document)
}

fn count_json(count: Option<u32>) -> (value: Json)
    ensures
        value@ == count_document(count),
{
    match count {
        Some(count) => Json::Number(JsonNumber::UInt(count as u64)),
        None => Json::Null,
    }
}

/// The frame that tells the log how many tokens were used.
pub fn token_usage_frame(usage: &PiRpcContextUsage) -> (frame: String)
    ensures
        frame@ == compact_text(token_usage_document(*usage)),
{
    let mut fields: Vec<(String, Json)> = Vec::new();
    fields.push(("type".to_owned(), Json::Text("vk_pi_token_usage".to_owned())));
    fields.push(("tokens".to_owned(), count_json(usage.tokens)));
    fields.push(("contextWindow".to_owned(), count_json(usage.context_window)));
    assert(fields@[0].1@ == JsonView::Text("vk_pi_token_usage"@));
    assert(fields@[1].1@ == count_document(usage.tokens));
    assert(fields@[2].1@ == count_document(usage.context_window));
    let document = Json::Object(fields);
    assert(document@->Object_0 =~= token_usage_document(*usage)->Object_0);
    print_compact(&document)
}

// ---------------------------------------------------------------------------
// A run
// ---------------------------------------------------------------------------

/// Where a run stands.
#[derive(Clone, Copy, Debug, PartialEq, Eq, Structural)]
pub enum RunPhase {
    /// The session state was asked for.
    Starting,
    /// The prompt was sent.
    Prompting,
    /// Events are awaited.
    Running,
    /// The events ended; the session state was asked for again.
    Checking,
    /// The statistics were asked for.
    Reporting,
    /// The run is over.
    Over,
}

/// What happens in a run.
#[derive(Debug, PartialEq, Eq)]
pub enum RunEvent {
    /// The session state, or why it cannot be had.
    State(Result<PiRpcSessionState, String>),
    /// The prompt was accepted, or not.
    Prompted(Result<(), String>),
    /// PI reported something.
    Event(PiRpcEvent),
    /// PI reports no more.
    EventsClosed,
    /// The token usage in the statistics, where they can be had and hold it.
    Stats(Option<PiRpcContextUsage>),
}

/// What a run does next.
#[allow(inconsistent_fields)]
#[derive(Debug, PartialEq, Eq)]
pub enum RunAction {
    /// Logs that the session started, and sends the prompt.
    SendPrompt { log_frame: String },
    /// Waits for the next event.
    AwaitEvent,
    /// Answers a dialog of an extension, then waits for the next event.
    AnswerDialog { id: String, extra: Json },
    /// Asks for the session state.
    RequestState,
    /// Asks for the statistics.
    RequestStats,
    /// Ends well, after logging the token usage where it is known.
    Succeed { log_frame: Option<String> },
    /// Ends with an error.
    Fail { message: String },
}

/// Model of [`RunAction`].
#[allow(inconsistent_fields)]
pub enum RunActionView {
    SendPrompt { log_frame: Seq<char> },
    AwaitEvent,
    AnswerDialog { id: Seq<char>, extra: JsonView },
    RequestState,
    RequestStats,
    Succeed { log_frame: Option<Seq<char>> },
    Fail { message: Seq<char> },
}

impl View for RunAction {
    type V = RunActionView;

    open spec fn view(&self) -> RunActionView {
        match self {
            RunAction::SendPrompt { log_frame } => RunActionView::SendPrompt {
                log_frame: log_frame@,
            },
            RunAction::AwaitEvent => RunActionView::AwaitEvent,
            RunAction::AnswerDialog { id, extra } => RunActionView::AnswerDialog {
                id: id@,
                extra: extra@,
            },
            RunAction::RequestState => RunActionView::RequestState,
            RunAction::RequestStats => RunActionView::RequestStats,
            RunAction::Succeed { log_frame } => RunActionView::Succeed {
                log_frame: opt_view(*log_frame),
            },
            RunAction::Fail { message } => RunActionView::Fail { message: message@ },
        }
    }
}

/// Whether an event can happen in a phase.
pub open spec fn fits(phase: RunPhase, event: RunEvent) -> bool {
    match phase {
        RunPhase::Starting => event is State,
        RunPhase::Prompting => event is Prompted,
        RunPhase::Running => event is Event || event is EventsClosed,
        RunPhase::Checking => event is State,
        RunPhase::Reporting => event is Stats,
        RunPhase::Over => false,
    }
}

/// Whether an event shows that the run has settled.
pub open spec fn is_settled(event: RunEvent) -> bool {
    event == RunEvent::Event(PiRpcEvent::AgentSettled)
}

/// Whether an event shows an idle session.
pub open spec fn is_idle_report(event: RunEvent) -> bool {
    event matches RunEvent::State(Ok(state)) && !state.is_streaming && !state.is_compacting
}

/// What an event in a phase leads to.
pub open spec fn run_step(phase: RunPhase, event: RunEvent) -> (RunPhase, RunActionView) {
    let failed = |message: Seq<char>| (RunPhase::Over, RunActionView::Fail { message });
    match event {
        RunEvent::State(Err(message)) => failed(message@),
        RunEvent::State(Ok(state)) => if phase == RunPhase::Checking {
            if state.is_streaming || state.is_compacting {
                failed("Pi stdout closed before the run settled"@)
            } else {
                (RunPhase::Reporting, RunActionView::RequestStats)
            }
        } else {
            match state.session_id {
                Some(session_id) => (
                    RunPhase::Prompting,
                    RunActionView::SendPrompt {
                        log_frame: compact_text(session_start_document(session_id@)),
                    },
                ),
                None => failed("Pi RPC did not report a session ID"@),
            }
        },
        RunEvent::Prompted(Err(message)) => failed(message@),
        RunEvent::Prompted(Ok(_)) => (RunPhase::Running, RunActionView::AwaitEvent),
        RunEvent::Event(PiRpcEvent::AgentSettled) => (
            RunPhase::Reporting,
            RunActionView::RequestStats,
        ),
        RunEvent::Event(PiRpcEvent::AutoRetryEnd { success: Some(false), .. }) => failed(
            "Pi automatic retry failed"@,
        ),
        RunEvent::Event(PiRpcEvent::ExtensionUiRequest { id, extra, .. }) => (
            RunPhase::Running,
            RunActionView::AnswerDialog { id: id@, extra: extra@ },
        ),
        RunEvent::Event(_) => (RunPhase::Running, RunActionView::AwaitEvent),
        RunEvent::EventsClosed => (RunPhase::Checking, RunActionView::RequestState),
        RunEvent::Stats(usage) => (
            RunPhase::Over,
            RunActionView::Succeed {
                log_frame: match usage {
                    Some(usage) => Some(compact_text(token_usage_document(usage))),
                    None => None,
                },
            },
        ),
    }
}

/// Whether an event can happen in a phase.
pub fn expects(phase: RunPhase, event: &RunEvent) -> (expected: bool)
    ensures
        expected == fits(phase, *event),
{
    match (phase, event) {
        (RunPhase::Starting, RunEvent::State(_)) => true,
        (RunPhase::Prompting, RunEvent::Prompted(_)) => true,
        (RunPhase::Running, RunEvent::Event(_)) => true,
        (RunPhase::Running, RunEvent::EventsClosed) => true,
        (RunPhase::Checking, RunEvent::State(_)) => true,
        (RunPhase::Reporting, RunEvent::Stats(_)) => true,
        _ => false,
    }
}

/// Takes a run one event further. A run starts in [`RunPhase::Starting`] by
/// asking for the session state.
pub fn advance(phase: RunPhase, event: RunEvent) -> (step: (RunPhase, RunAction))
    requires
        fits(phase, event),
    ensures
        (step.0, step.1@) == run_step(phase, event),
{
    match event {
        RunEvent::State(Err(message)) => (RunPhase::Over, RunAction::Fail { message }),
        RunEvent::State(Ok(state)) => {
            if phase == RunPhase::Checking {
                if state.is_streaming || state.is_compacting {
                    (
                        RunPhase::Over,
                        RunAction::Fail {
                            message: "Pi stdout closed before the run settled".to_owned(),
                        },
                    )
                } else {
                    (RunPhase::Reporting, RunAction::RequestStats)
                }
            } else {
                match state.session_id {
                    Some(session_id) => (
                        RunPhase::Prompting,
                        RunAction::SendPrompt { log_frame: session_start_frame(&session_id) },
                    ),
                    None => (
                        RunPhase::Over,
                        RunAction::Fail {
                            message: "Pi RPC did not report a session ID".to_owned(),
                        },
                    ),
                }
            }
        },
        RunEvent::Prompted(Err(message)) => (RunPhase::Over, RunAction::Fail { message }),
        RunEvent::Prompted(Ok(_)) => (RunPhase::Running, RunAction::AwaitEvent),
        RunEvent::Event(PiRpcEvent::AgentSettled) => (RunPhase::Reporting, RunAction::RequestStats),
        RunEvent::Event(PiRpcEvent::AutoRetryEnd { success: Some(false), .. }) => (
            RunPhase::Over,
            RunAction::Fail { message: "Pi automatic retry failed".to_owned() },
        ),
        RunEvent::Event(PiRpcEvent::ExtensionUiRequest { id, extra, .. }) => (
            RunPhase::Running,
            RunAction::AnswerDialog { id, extra },
        ),
        RunEvent::Event(_) => (RunPhase::Running, RunAction::AwaitEvent),
        RunEvent::EventsClosed => (RunPhase::Checking, RunAction::RequestState),
        RunEvent::Stats(usage) => (
            RunPhase::Over,
            RunAction::Succeed {
                log_frame: match usage {
                    Some(usage) => Some(token_usage_frame(&usage)),
                    None => None,
                },
            },
        ),
    }
}

/// The phase after a sequence of events.
pub open spec fn phase_after(events: Seq<RunEvent>) -> RunPhase
    decreases events.len(),
{
    if events.len() == 0 {
        RunPhase::Starting
    } else {
        run_step(phase_after(events.drop_last()), events.last()).0
    }
}

/// Whether each event of a sequence can happen where it does.
pub open spec fn is_run(events: Seq<RunEvent>) -> bool
    decreases events.len(),
{
    events.len() == 0 || (is_run(events.drop_last()) && fits(
        phase_after(events.drop_last()),
        events.last(),
    ))
}

/// Whether an event shows that the prompt was accepted.
pub open spec fn is_prompted(event: RunEvent) -> bool {
    event matches RunEvent::Prompted(Ok(_))
}

proof fn lemma_run_history(events: Seq<RunEvent>)
    requires
        is_run(events),
    ensures
        phase_after(events) is Running || phase_after(events) is Checking || phase_after(
            events,
        ) is Reporting ==> exists|i: int|
            0 <= i < events.len() && is_prompted(#[trigger] events[i]),
        phase_after(events) is Reporting ==> exists|i: int|
            0 <= i < events.len() && (is_settled(#[trigger] events[i]) || (is_idle_report(
                events[i],
            ) && i > 0)),
    decreases events.len(),
{
    if events.len() > 0 {
        let before = events.drop_last();
        lemma_run_history(before);
        let last = events.len() - 1;
        let phase = phase_after(before);
        if phase is Running || phase is Checking || phase is Reporting {
            let i = choose|i: int| 0 <= i < before.len() && is_prompted(#[trigger] before[i]);
            assert(is_prompted(events[i]));
        } else if phase is Prompting {
            assert(is_prompted(events[last]) || phase_after(events) is Over);
        }
        if phase_after(events) is Reporting {
            assert(is_settled(events[last]) || is_idle_report(events[last]));
            if phase is Checking {
                assert(before.len() > 0);
            }
        }
    }
}

/// A run ends well only after its prompt was accepted, and after PI either
/// reported that it settled or, its output having ended, proved idle.
pub proof fn law_success_means_settled_or_idle(events: Seq<RunEvent>, last: RunEvent)
    requires
        is_run(events.push(last)),
        run_step(phase_after(events), last).1 is Succeed,
    ensures
        exists|i: int| 0 <= i < events.len() && is_prompted(#[trigger] events[i]),
        exists|i: int|
            0 <= i < events.len() && (is_settled(#[trigger] events[i]) || is_idle_report(
                events[i],
            )),
{
    assert(events.push(last).drop_last() =~= events);
    assert(events.push(last).last() == last);
    lemma_run_history(events);
    let i = choose|i: int|
        0 <= i < events.len() && (is_settled(#[trigger] events[i]) || (is_idle_report(events[i])
            && i > 0));
    assert(is_settled(events[i]) || is_idle_report(events[i]));
}

/// How a run ends for the one who started it: a cancelled run has not failed.
#[derive(Clone, Copy, Debug, PartialEq, Eq, Structural)]
pub enum ExecutorExitResult {
    Success,
    Failure,
}

/// How a run ends: well, or cancelled, or failed.
pub fn exit_result(failed: bool, cancelled: bool) -> (exit: ExecutorExitResult)
    ensures
        exit == if failed && !cancelled {
            ExecutorExitResult::Failure
        } else {
            ExecutorExitResult::Success
        },
{
    if failed && !cancelled {
        ExecutorExitResult::Failure
    } else {
        ExecutorExitResult::Success
    }
}

// ---------------------------------------------------------------------------
// Dialogs
// ---------------------------------------------------------------------------

/// The envelope in the title of a dialog that asks for the approval of a tool.
pub open spec fn envelope_in(extra: JsonView) -> Option<Seq<char>> {
    match string_field(extra, "title"@) {
        Some(title) => without_prefix(title, envelope_prefix()),
        None => None,
    }
}

/// The envelope in the title of a dialog, where it asks for the approval of a
/// tool.
pub fn approval_envelope(extra: &Json) -> (envelope: Option<String>)
    ensures
        opt_view(envelope) == envelope_in(extra@),
{
    match extra.str_field("title") {
        Some(title) => strip_prefix(title, "vk-pi-approval:"),
        None => None,
    }
}

/// What a tool wants to do.
#[derive(Debug, PartialEq, Eq)]
pub struct ToolApprovalEnvelope {
    pub tool_call_id: Option<String>,
    pub tool_name: String,
    pub summary: Option<String>,
}

/// What the approval service is asked.
#[derive(Debug, PartialEq, Eq)]
pub struct ApprovalRequest {
    pub tool_name: String,
    pub tool_input: Json,
    pub tool_call_id: String,
}

/// What the approval service is asked about an envelope: the tool, its summary
/// or null, and the id of the call or nothing.
pub fn approval_request(envelope: ToolApprovalEnvelope) -> (request: ApprovalRequest)
    ensures
        request.tool_name == envelope.tool_name,
        request.tool_input@ == match envelope.summary {
            Some(summary) => JsonView::Text(summary@),
            None => JsonView::Null,
        },
        request.tool_call_id@ == match envelope.tool_call_id {
            Some(id) => id@,
            None => Seq::empty(),
        },
{
    ApprovalRequest {
        tool_name: envelope.tool_name,
        tool_input: match envelope.summary {
            Some(summary) => Json::Text(summary),
            None => Json::Null,
        },
        tool_call_id: match envelope.tool_call_id {
            Some(id) => id,
            None => String::new(),
        },
    }
}

/// How a dialog came out.
#[derive(Clone, Copy, Debug, PartialEq, Eq, Structural)]
pub enum DialogOutcome {
    /// It asks for no approval.
    ThirdParty,
    /// Its envelope is malformed.
    MalformedEnvelope,
    /// There is no approval service.
    NoService,
    /// The approval service failed.
    ServiceFailed,
    /// The approval service answered.
    Answered { approved: bool },
}

/// What the title of a dialog holds.
#[derive(Clone, Copy, Debug, PartialEq, Eq, Structural)]
pub enum EnvelopeState {
    /// No envelope: the dialog asks for no approval.
    Absent,
    /// An envelope that cannot be decoded.
    Malformed,
    /// An envelope that says what a tool wants to do.
    Decoded,
}

/// How a dialog comes out, given what its title holds, whether there is an
/// approval service, and what that answered; nothing where it failed.
pub fn dialog_outcome(envelope: EnvelopeState, has_service: bool, answer: Option<bool>) -> (outcome:
    DialogOutcome)
    ensures
        outcome == match envelope {
            EnvelopeState::Absent => DialogOutcome::ThirdParty,
            EnvelopeState::Malformed => DialogOutcome::MalformedEnvelope,
            EnvelopeState::Decoded => if !has_service {
                DialogOutcome::NoService
            } else {
                match answer {
                    Some(approved) => DialogOutcome::Answered { approved },
                    None => DialogOutcome::ServiceFailed,
                }
            },
        },
{
    match envelope {
        EnvelopeState::Absent => DialogOutcome::ThirdParty,
        EnvelopeState::Malformed => DialogOutcome::MalformedEnvelope,
        EnvelopeState::Decoded => if !has_service {
            DialogOutcome::NoService
        } else {
            match answer {
                Some(approved) => DialogOutcome::Answered { approved },
                None => DialogOutcome::ServiceFailed,
            }
        },
    }
}

/// The answer to a dialog. Anything but an approval is a refusal, and dialogs
/// that ask for no approval are closed so that the run cannot hang.
pub fn dialog_response(id: String, outcome: DialogOutcome) -> (response: PiRpcExtensionUiResponse)
    ensures
        response.id == id,
        response.outcome == match outcome {
            DialogOutcome::ThirdParty => PiRpcExtensionUiOutcome::Cancelled { cancelled: true },
            _ => PiRpcExtensionUiOutcome::Confirmed {
                confirmed: outcome == (DialogOutcome::Answered { approved: true }),
            },
        },
{
    match outcome {
        DialogOutcome::ThirdParty => PiRpcExtensionUiResponse::cancelled(id),
        DialogOutcome::Answered { approved } => PiRpcExtensionUiResponse::confirmed(id, approved),
        _ => PiRpcExtensionUiResponse::confirmed(id, false),
    }
}

// ---------------------------------------------------------------------------
// Slash commands
// ---------------------------------------------------------------------------

/// A slash command, as the board shows it.
#[derive(Debug, PartialEq, Eq)]
pub struct SlashCommandDescription {
    pub name: String,
    pub description: Option<String>,
}

/// Model of [`SlashCommandDescription`].
pub struct SlashCommandView {
    pub name: Seq<char>,
    pub description: Option<Seq<char>>,
}

impl View for SlashCommandDescription {
    type V = SlashCommandView;

    open spec fn view(&self) -> SlashCommandView {
        SlashCommandView { name: self.name@, description: opt_view(self.description) }
    }
}

/// The models of slash commands.
pub open spec fn command_views(commands: Seq<SlashCommandDescription>) -> Seq<SlashCommandView> {
    commands.map_values(|command: SlashCommandDescription| command@)
}

/// The commands that PI reported, their names without leading slashes.
pub open spec fn reported_commands(commands: Seq<PiRpcCommandInfo>) -> Seq<SlashCommandView> {
    commands.map_values(
        |command: PiRpcCommandInfo|
            SlashCommandView {
                name: without_leading(command.name@, '/'),
                description: opt_view(command.description),
            },
    )
}

/// The command that PI always has.
pub open spec fn compact_command() -> SlashCommandView {
    SlashCommandView {
        name: "compact"@,
        description: Some("Summarize conversation to prevent hitting the context limit"@),
    }
}

/// Whether a command is among others, by name.
pub open spec fn has_command(commands: Seq<SlashCommandView>, name: Seq<char>) -> bool {
    exists|i: int| 0 <= i < commands.len() && (#[trigger] commands[i]).name == name
}

/// The commands that are offered: those that PI reported, and before them the
/// compact command where PI did not report it.
pub open spec fn offered_commands(commands: Seq<PiRpcCommandInfo>) -> Seq<SlashCommandView> {
    let reported = reported_commands(commands);
    if has_command(reported, "compact"@) {
        reported
    } else {
        seq![compact_command()] + reported
    }
}

/// The commands that are offered; none where PI could not be asked.
pub fn slash_commands(reported: Option<PiRpcCommands>) -> (offered: Vec<SlashCommandDescription>)
    ensures
        command_views(offered@) == match reported {
            Some(reported) => offered_commands(reported.commands@),
            None => Seq::empty(),
        },
{
    let commands = match reported {
        Some(reported) => reported.commands,
        None => {
            let none: Vec<SlashCommandDescription> = Vec::new();
            assert(command_views(none@) =~= Seq::empty());
            return none;
        },
    };
    let ghost all = reported_commands(commands@);
    let mut offered: Vec<SlashCommandDescription> = Vec::new();
    let mut has_compact = false;
    for command in it: commands
        invariant
            it.seq() == commands@,
            all == reported_commands(commands@),
            offered@.len() == it.index(),
            forall|k: int| 0 <= k < it.index() ==> (#[trigger] offered@[k])@ == all[k],
            has_compact == exists|k: int|
                0 <= k < it.index() && (#[trigger] all[k]).name == "compact"@,
    {
        let name = trim_start_matches(&command.name, '/');
        let is_compact = same(&name, "compact");
        assert(all[it.index() as int].name == name@);
        if is_compact {
            has_compact = true;
        }
        offered.push(SlashCommandDescription { name, description: command.description });
    }
    assert(command_views(offered@) =~= all);
    if !has_compact {
        let ghost before = offered@;
        let compact = SlashCommandDescription {
            name: "compact".to_owned(),
            description: Some(
                "Summarize conversation to prevent hitting the context limit".to_owned(),
            ),
        };
        offered.insert(0, compact);
        assert(command_views(offered@) =~= seq![compact@] + command_views(before));
    }
    offered
}

/// The compact command is offered whatever PI reports.
pub proof fn law_compact_is_offered(commands: Seq<PiRpcCommandInfo>)
    ensures
        has_command(offered_commands(commands), "compact"@),
{
    let reported = reported_commands(commands);
    if !has_command(reported, "compact"@) {
        assert(offered_commands(commands)[0] == compact_command());
    }
}

// ---------------------------------------------------------------------------
// Laws of runs
// ---------------------------------------------------------------------------

/// PI speaks RPC. It trusts the project exactly where that is configured, and is
/// given the model and the level of thinking that are. The user's own extensions
/// are left out where that is configured, and where nothing is while PI runs
/// supervised.
pub proof fn law_pi_is_started_as_configured(pi: Pi)
    ensures
        ({
            let params = start_params(pi);
            let after_model: int = if pi.model is Some { 5 } else { 3 };
            let after_thinking: int = after_model + if pi.thinking is Some { 2int } else { 0 };
            let loads = pi.load_user_extensions == Some(true) || (pi.load_user_extensions is None
                && pi.permission_policy != Some(PiPermissionPolicy::Supervised));
            &&& params[0] == "--mode"@ && params[1] == "rpc"@
            &&& pi.trust_project == Some(true) ==> params[2] == "--approve"@
            &&& pi.trust_project != Some(true) ==> params[2] == "--no-approve"@
            &&& pi.model matches Some(model) ==> params[3] == "--model"@ && params[4] == model@
            &&& pi.thinking matches Some(thinking) ==> params[after_model] == "--thinking"@
                && params[after_model + 1] == thinking@
            &&& loads ==> params.len() == after_thinking
            &&& !loads ==> params.len() == after_thinking + 1 && params[after_thinking]
                == "--no-extensions"@
        }),
{
}

/// A launch resumes the session that is named, and loads the bridge that is
/// given.
pub proof fn law_launch_names_session_and_bridge(session: Seq<char>, bridge: Seq<char>)
    ensures
        launch_params(None, None) == Seq::<Seq<char>>::empty(),
        launch_params(Some(session), None) == seq!["--session"@, session],
        launch_params(None, Some(bridge)) == seq!["--extension"@, bridge],
        launch_params(Some(session), Some(bridge)) == seq![
            "--session"@,
            session,
            "--extension"@,
            bridge,
        ],
{
    assert(launch_params(None, None) =~= Seq::empty());
    assert(launch_params(Some(session), None) =~= seq!["--session"@, session]);
    assert(launch_params(None, Some(bridge)) =~= seq!["--extension"@, bridge]);
    assert(launch_params(Some(session), Some(bridge)) =~= seq![
        "--session"@,
        session,
        "--extension"@,
        bridge,
    ]);
}

/// The frames that a run writes into the log say what they are, and hold the
/// session, or the tokens used and the size of the window, as far as those are
/// known.
pub proof fn law_log_frames_hold_session_and_usage(session_id: Seq<char>, usage: PiRpcContextUsage)
    ensures
        field(session_start_document(session_id), "type"@) == Some(
            JsonView::Text("vk_pi_session_start"@),
        ),
        field(session_start_document(session_id), "sessionId"@) == Some(JsonView::Text(session_id)),
        field(token_usage_document(usage), "type"@) == Some(JsonView::Text("vk_pi_token_usage"@)),
        usage.tokens matches Some(tokens) ==> field(token_usage_document(usage), "tokens"@) == Some(
            JsonView::Number(NumberView::Int(tokens as int)),
        ),
        usage.tokens is None ==> field(token_usage_document(usage), "tokens"@) == Some(
            JsonView::Null,
        ),
        usage.context_window matches Some(window) ==> field(
            token_usage_document(usage),
            "contextWindow"@,
        ) == Some(JsonView::Number(NumberView::Int(window as int))),
        usage.context_window is None ==> field(token_usage_document(usage), "contextWindow"@)
            == Some(JsonView::Null),
{
    reveal_strlit("type");
    reveal_strlit("sessionId");
    reveal_strlit("tokens");
    reveal_strlit("contextWindow");
    reveal_with_fuel(last_field, 4);
    assert("type"@.len() == 4 && "sessionId"@.len() == 9 && "tokens"@.len() == 6
        && "contextWindow"@.len() == 13);
    let session = session_start_document(session_id)->Object_0;
    assert(session.drop_last()[0].0 == "type"@);
    let tokens = token_usage_document(usage)->Object_0;
    assert(tokens.drop_last()[1].0 == "tokens"@);
    assert(tokens.drop_last().drop_last()[0].0 == "type"@);
}

/// A run begins with the session that PI reports: the log is told of it and the
/// prompt is sent. Where PI reports none, or cannot be asked, the run fails.
pub proof fn law_run_starts_with_its_session(state: PiRpcSessionState, message: String)
    ensures
        state.session_id matches Some(id) ==> run_step(
            RunPhase::Starting,
            RunEvent::State(Ok(state)),
        ) == (
            RunPhase::Prompting,
            RunActionView::SendPrompt { log_frame: compact_text(session_start_document(id@)) },
        ),
        state.session_id is None ==> run_step(RunPhase::Starting, RunEvent::State(Ok(state))) == (
            RunPhase::Over,
            RunActionView::Fail { message: "Pi RPC did not report a session ID"@ },
        ),
        run_step(RunPhase::Starting, RunEvent::State(Err(message))) == (
            RunPhase::Over,
            RunActionView::Fail { message: message@ },
        ),
        run_step(RunPhase::Prompting, RunEvent::Prompted(Ok(()))) == (
            RunPhase::Running,
            RunActionView::AwaitEvent,
        ),
        run_step(RunPhase::Prompting, RunEvent::Prompted(Err(message))) == (
            RunPhase::Over,
            RunActionView::Fail { message: message@ },
        ),
{
}

/// While a run goes on, a dialog is answered, a retry that failed ends it, and
/// the report that PI has settled leads to the statistics. Whatever else PI
/// reports, the next event is awaited.
pub proof fn law_run_follows_its_events(event: PiRpcEvent)
    ensures
        ({
            let step = run_step(RunPhase::Running, RunEvent::Event(event));
            match event {
                PiRpcEvent::AgentSettled => step == (
                    RunPhase::Reporting,
                    RunActionView::RequestStats,
                ),
                PiRpcEvent::ExtensionUiRequest { id, extra, .. } => step == (
                    RunPhase::Running,
                    RunActionView::AnswerDialog { id: id@, extra: extra@ },
                ),
                PiRpcEvent::AutoRetryEnd { success, .. } => step == if success == Some(false) {
                    (
                        RunPhase::Over,
                        RunActionView::Fail { message: "Pi automatic retry failed"@ },
                    )
                } else {
                    (RunPhase::Running, RunActionView::AwaitEvent)
                },
                _ => step == (RunPhase::Running, RunActionView::AwaitEvent),
            }
        }),
        run_step(RunPhase::Running, RunEvent::EventsClosed) == (
            RunPhase::Checking,
            RunActionView::RequestState,
        ),
{
}

/// Where the events ended before PI settled, its state decides: a run whose
/// session neither streams nor compacts is reported, any other failed. A run that
/// is reported has ended well, and the log is told of the tokens where they are
/// known.
pub proof fn law_run_ends_with_its_report(
    state: PiRpcSessionState,
    message: String,
    usage: PiRpcContextUsage,
)
    ensures
        !state.is_streaming && !state.is_compacting ==> run_step(
            RunPhase::Checking,
            RunEvent::State(Ok(state)),
        ) == (RunPhase::Reporting, RunActionView::RequestStats),
        state.is_streaming || state.is_compacting ==> run_step(
            RunPhase::Checking,
            RunEvent::State(Ok(state)),
        ) == (
            RunPhase::Over,
            RunActionView::Fail { message: "Pi stdout closed before the run settled"@ },
        ),
        run_step(RunPhase::Checking, RunEvent::State(Err(message))) == (
            RunPhase::Over,
            RunActionView::Fail { message: message@ },
        ),
        run_step(RunPhase::Reporting, RunEvent::Stats(Some(usage))) == (
            RunPhase::Over,
            RunActionView::Succeed { log_frame: Some(compact_text(token_usage_document(usage))) },
        ),
        run_step(RunPhase::Reporting, RunEvent::Stats(None)) == (
            RunPhase::Over,
            RunActionView::Succeed { log_frame: None },
        ),
{
}

/// Each phase of a run waits for what was asked for, and for nothing else.
pub proof fn law_phases_wait_for_what_was_asked(event: RunEvent)
    ensures
        fits(RunPhase::Starting, event) <==> event is State,
        fits(RunPhase::Prompting, event) <==> event is Prompted,
        fits(RunPhase::Running, event) <==> event is Event || event is EventsClosed,
        fits(RunPhase::Checking, event) <==> event is State,
        fits(RunPhase::Reporting, event) <==> event is Stats,
        !fits(RunPhase::Over, event),
{
}

/// A dialog asks for the approval of a tool exactly where its title begins with
/// the mark of one; the envelope is what follows it.
pub proof fn law_approvals_are_marked(extra: JsonView, envelope: Seq<char>)
    ensures
        string_field(extra, "title"@) == Some("vk-pi-approval:"@ + envelope) ==> envelope_in(extra)
            == Some(envelope),
        string_field(extra, "title"@) is None ==> envelope_in(extra) is None,
        string_field(extra, "title"@) matches Some(title) ==> (!begins_with(
            title,
            "vk-pi-approval:"@,
        ) ==> envelope_in(extra) is None),
{
    law_parts_of_a_text_are_found(Seq::empty(), "vk-pi-approval:"@, envelope);
}

/// Every command that PI reports is offered, in its order, under its name
/// without leading slashes and with its description. The compact command stands
/// before them where PI does not report it.
pub proof fn law_reported_commands_are_offered(commands: Seq<PiRpcCommandInfo>, at: int)
    requires
        0 <= at < commands.len(),
    ensures
        ({
            let offered = offered_commands(commands);
            let reported = exists|i: int|
                0 <= i < commands.len() && without_leading((#[trigger] commands[i]).name@, '/')
                    == "compact"@;
            let shift: int = if reported { 0 } else { 1 };
            &&& offered.len() == commands.len() + shift
            &&& offered[at + shift].name == without_leading(commands[at].name@, '/')
            &&& commands[at].description matches Some(text) ==> offered[at + shift].description
                == Some(text@)
            &&& commands[at].description is None ==> offered[at + shift].description is None
            &&& !reported ==> offered[0] == (SlashCommandView {
                name: "compact"@,
                description: Some("Summarize conversation to prevent hitting the context limit"@),
            })
        }),
{
    let reported = reported_commands(commands);
    assert forall|i: int| 0 <= i < commands.len() implies (#[trigger] reported[i]).name
        == without_leading(commands[i].name@, '/') by {}
    if exists|i: int|
        0 <= i < commands.len() && without_leading((#[trigger] commands[i]).name@, '/')
            == "compact"@ {
        let i = choose|i: int|
            0 <= i < commands.len() && without_leading((#[trigger] commands[i]).name@, '/')
                == "compact"@;
        assert(reported[i].name == "compact"@);
        assert(has_command(reported, "compact"@));
    } else {
        assert(!has_command(reported, "compact"@)) by {
            if has_command(reported, "compact"@) {
                let i = choose|i: int|
                    0 <= i < reported.len() && (#[trigger] reported[i]).name == "compact"@;
                assert(without_leading(commands[i].name@, '/') == "compact"@);
            }
        }
    }
}

/// The model of [`RunAction`] holds what the value does, part by part.
pub proof fn law_model_of_run_action(value: RunAction)
    ensures
        match value {
            RunAction::SendPrompt { log_frame } => value@ == (RunActionView::SendPrompt {
                log_frame: log_frame@,
            }),
            RunAction::AwaitEvent => value@ == RunActionView::AwaitEvent,
            RunAction::AnswerDialog { id, extra } => value@ == (RunActionView::AnswerDialog {
                id: id@,
                extra: extra@,
            }),
            RunAction::RequestState => value@ == RunActionView::RequestState,
            RunAction::RequestStats => value@ == RunActionView::RequestStats,
            RunAction::Succeed { log_frame } => value@ == (RunActionView::Succeed {
                log_frame: opt_view(log_frame),
            }),
            RunAction::Fail { message } => value@ == (RunActionView::Fail { message: message@ }),
        },
{
}

/// The model of [`SlashCommandDescription`] holds what the value does, part by part.
pub proof fn law_model_of_slash_command_description(value: SlashCommandDescription)
    ensures
        value@.name == value.name@,
        value@.description == opt_view(value.description),
{
}

} // verus!
