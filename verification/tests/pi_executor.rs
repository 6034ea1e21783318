//! How PI is started, driven and answered.

use kanban_core::json::{Json, JsonNumber};
use kanban_core::pi::executor::{
    advance, approval_envelope, approval_request, dialog_outcome, dialog_response, exit_result,
    expects, session_start_frame, slash_commands, token_usage_frame, CommandBuilder, DialogOutcome,
    EnvelopeState, ExecutorExitResult, Pi, PiPermissionPolicy, RunAction, RunEvent, RunPhase,
    ToolApprovalEnvelope,
};
use kanban_core::pi::rpc::{
    PiRpcCommandInfo, PiRpcCommands, PiRpcContextUsage, PiRpcEvent, PiRpcExtensionUiOutcome,
    PiRpcSessionState,
};
use serde_json::Value;

fn pi_with_policy(policy: PiPermissionPolicy) -> Pi {
    Pi {
        model: None,
        thinking: None,
        permission_policy: Some(policy),
        trust_project: None,
        load_user_extensions: None,
    }
}

#[test]
fn command_builder_uses_safe_defaults() {
    let builder = pi_with_policy(PiPermissionPolicy::Supervised).build_command_builder();
    let args = builder.params.unwrap_or_default();
    assert!(args.windows(2).any(|pair| pair == ["--mode", "rpc"]));
    assert!(args.contains(&"--no-approve".to_string()));
    assert!(args.contains(&"--no-extensions".to_string()));
}

#[test]
fn auto_mode_loads_user_extensions_by_default() {
    let builder = pi_with_policy(PiPermissionPolicy::Auto).build_command_builder();
    let params = builder.params.unwrap_or_default();
    assert!(!params.contains(&"--no-extensions".to_string()));
}

#[test]
fn options_are_passed_on() {
    let pi = Pi {
        model: Some("m".into()),
        thinking: Some("high".into()),
        permission_policy: None,
        trust_project: Some(true),
        load_user_extensions: Some(false),
    };
    assert_eq!(pi.permission_policy(), PiPermissionPolicy::Auto);
    assert!(!pi.is_supervised());
    assert_eq!(pi.policy_variable(), "AUTO");
    assert_eq!(
        pi_with_policy(PiPermissionPolicy::Supervised).policy_variable(),
        "SUPERVISED"
    );
    let builder: CommandBuilder = pi.build_command_builder();
    assert_eq!(builder.base, "pi");
    assert_eq!(
        builder.params.unwrap(),
        vec![
            "--mode", "rpc", "--approve", "--model", "m", "--thinking", "high", "--no-extensions"
        ]
    );
    assert_eq!(PiPermissionPolicy::default(), PiPermissionPolicy::Auto);
}

fn state(session_id: Option<&str>, streaming: bool) -> PiRpcSessionState {
    PiRpcSessionState {
        model: None,
        is_streaming: streaming,
        is_compacting: false,
        session_id: session_id.map(str::to_string),
        session_name: None,
        message_count: None,
    }
}

#[test]
fn runs_settle_and_report() {
    let (phase, action) = advance(RunPhase::Starting, RunEvent::State(Ok(state(Some("s-1"), false))));
    assert_eq!(phase, RunPhase::Prompting);
    match action {
        RunAction::SendPrompt { log_frame } => {
            let frame: Value = serde_json::from_str(&log_frame).unwrap();
            assert_eq!(frame["type"], "vk_pi_session_start");
            assert_eq!(frame["sessionId"], "s-1");
        }
        other => panic!("unexpected action: {other:?}"),
    }
    let (phase, action) = advance(RunPhase::Prompting, RunEvent::Prompted(Ok(())));
    assert_eq!((phase, action), (RunPhase::Running, RunAction::AwaitEvent));
    let (phase, action) = advance(RunPhase::Running, RunEvent::Event(PiRpcEvent::AgentStart));
    assert_eq!((phase, action), (RunPhase::Running, RunAction::AwaitEvent));
    let (phase, action) = advance(RunPhase::Running, RunEvent::Event(PiRpcEvent::AgentSettled));
    assert_eq!((phase, action), (RunPhase::Reporting, RunAction::RequestStats));
    let usage = PiRpcContextUsage { tokens: Some(5), context_window: None };
    let (phase, action) = advance(RunPhase::Reporting, RunEvent::Stats(Some(usage)));
    assert_eq!(phase, RunPhase::Over);
    match action {
        RunAction::Succeed { log_frame: Some(frame) } => {
            let frame: Value = serde_json::from_str(&frame).unwrap();
            assert_eq!(frame["tokens"], 5);
            assert_eq!(frame["contextWindow"], Value::Null);
        }
        other => panic!("unexpected action: {other:?}"),
    }
}

#[test]
fn runs_fail_where_nothing_settles() {
    let fail = |message: &str| (RunPhase::Over, RunAction::Fail { message: message.into() });
    assert_eq!(
        advance(RunPhase::Starting, RunEvent::State(Ok(state(None, false)))),
        fail("Pi RPC did not report a session ID")
    );
    assert_eq!(
        advance(RunPhase::Starting, RunEvent::State(Err("gone".into()))),
        fail("gone")
    );
    assert_eq!(
        advance(RunPhase::Running, RunEvent::EventsClosed),
        (RunPhase::Checking, RunAction::RequestState)
    );
    assert_eq!(
        advance(RunPhase::Checking, RunEvent::State(Ok(state(None, true)))),
        fail("Pi stdout closed before the run settled")
    );
    assert_eq!(
        advance(RunPhase::Checking, RunEvent::State(Ok(state(None, false)))),
        (RunPhase::Reporting, RunAction::RequestStats)
    );
    assert_eq!(
        advance(
            RunPhase::Running,
            RunEvent::Event(PiRpcEvent::AutoRetryEnd { success: Some(false), extra: Json::Null })
        ),
        fail("Pi automatic retry failed")
    );
    assert!(!expects(RunPhase::Over, &RunEvent::EventsClosed));
    assert!(expects(RunPhase::Checking, &RunEvent::State(Err("x".into()))));
    assert_eq!(exit_result(true, true), ExecutorExitResult::Success);
    assert_eq!(exit_result(true, false), ExecutorExitResult::Failure);
    assert_eq!(exit_result(false, false), ExecutorExitResult::Success);
}

#[test]
fn approvals_fail_closed() {
    let extra = Json::Object(vec![(
        "title".into(),
        Json::Text("vk-pi-approval:{\"toolName\":\"bash\"}".into()),
    )]);
    assert_eq!(
        approval_envelope(&extra).as_deref(),
        Some("{\"toolName\":\"bash\"}")
    );
    assert_eq!(approval_envelope(&Json::Null), None);
    let request = approval_request(ToolApprovalEnvelope {
        tool_call_id: None,
        tool_name: "bash".into(),
        summary: Some("ls".into()),
    });
    assert_eq!(request.tool_input, Json::Text("ls".into()));
    assert_eq!(request.tool_call_id, "");

    let outcome = |outcome: DialogOutcome| dialog_response("d".into(), outcome).outcome;
    assert_eq!(
        outcome(DialogOutcome::ThirdParty),
        PiRpcExtensionUiOutcome::Cancelled { cancelled: true }
    );
    for refused in [
        DialogOutcome::MalformedEnvelope,
        DialogOutcome::NoService,
        DialogOutcome::ServiceFailed,
        DialogOutcome::Answered { approved: false },
    ] {
        assert_eq!(
            outcome(refused),
            PiRpcExtensionUiOutcome::Confirmed { confirmed: false }
        );
    }
    assert_eq!(
        outcome(DialogOutcome::Answered { approved: true }),
        PiRpcExtensionUiOutcome::Confirmed { confirmed: true }
    );
}

#[test]
fn dialogs_come_out_by_envelope_service_and_answer() {
    for (envelope, service, answer, expected) in [
        (EnvelopeState::Absent, true, Some(true), DialogOutcome::ThirdParty),
        (EnvelopeState::Malformed, true, Some(true), DialogOutcome::MalformedEnvelope),
        (EnvelopeState::Decoded, false, Some(true), DialogOutcome::NoService),
        (EnvelopeState::Decoded, true, None, DialogOutcome::ServiceFailed),
        (EnvelopeState::Decoded, true, Some(false), DialogOutcome::Answered { approved: false }),
        (EnvelopeState::Decoded, true, Some(true), DialogOutcome::Answered { approved: true }),
    ] {
        assert_eq!(dialog_outcome(envelope, service, answer), expected);
    }
}

fn command(name: &str) -> PiRpcCommandInfo {
    PiRpcCommandInfo { name: name.into(), description: None, source: None }
}

#[test]
fn compact_is_always_offered() {
    let names = |commands: Vec<PiRpcCommandInfo>| -> Vec<String> {
        slash_commands(Some(PiRpcCommands { commands }))
            .into_iter()
            .map(|command| command.name)
            .collect()
    };
    assert_eq!(names(vec![command("/help")]), vec!["compact", "help"]);
    assert_eq!(names(vec![command("//compact"), command("x")]), vec!["compact", "x"]);
    assert!(slash_commands(None).is_empty());
}

#[test]
fn frames_are_json_on_one_line() {
    let frame = session_start_frame("a\"b\n");
    assert!(!frame.contains('\n'));
    let value: Value = serde_json::from_str(&frame).unwrap();
    assert_eq!(value["sessionId"], "a\"b\n");
    let usage = token_usage_frame(&PiRpcContextUsage { tokens: None, context_window: Some(9) });
    let value: Value = serde_json::from_str(&usage).unwrap();
    assert_eq!(value["type"], "vk_pi_token_usage");
    assert_eq!(value["contextWindow"], 9);
    assert_eq!(Json::Number(JsonNumber::UInt(u64::MAX)).as_i64(), None);
}

#[test]
fn launches_name_session_and_bridge() {
    let pi = pi_with_policy(PiPermissionPolicy::Supervised);
    let builder = pi.with_launch_params(
        pi.build_command_builder(),
        &Some("s-1".to_string()),
        &Some("/tmp/bridge.mjs".to_string()),
    );
    let params = builder.params.unwrap();
    assert!(params.windows(2).any(|pair| pair == ["--session", "s-1"]));
    assert!(params.windows(2).any(|pair| pair == ["--extension", "/tmp/bridge.mjs"]));

    let auto = pi_with_policy(PiPermissionPolicy::Auto);
    let builder = auto.with_launch_params(
        auto.build_command_builder(),
        &None,
        &Some("/tmp/bridge.mjs".to_string()),
    );
    assert!(!builder.params.unwrap().contains(&"--extension".to_string()));
}
