//! Conversations of whole sessions.

use kanban_core::entries::{
    ActionType, BaseCodingAgent, CommandExitStatus, NormalizedEntry, NormalizedEntryType,
    ToolStatus,
};
use kanban_core::history::{
    FileFingerprint, NativeHistoryError, NativeSessionHistory, TailPolicy,
};
use kanban_core::native_history::{
    agent_session, assemble, build_script_entries, database_error, may_keep, merge_blocks,
    plan_conversation, raw_logs_process, retry_pause, script_request, CacheKey, DatabaseRead, ExecutionProcess,
    ExecutionProcessRunReason, ExecutionProcessStatus, ExecutorActionType, LogMsg, NativeHistoryCache, NativePart, ScriptContext, ScriptContextKind,
    MAX_CACHE_ENTRIES,
};
use kanban_core::sorting::Timestamp;

fn entry(content: &str) -> NormalizedEntry {
    NormalizedEntry {
        timestamp: None,
        entry_type: NormalizedEntryType::SystemMessage,
        content: content.to_string(),
        metadata: None,
    }
}

fn at(text: &str) -> Timestamp {
    let moment = chrono::DateTime::parse_from_rfc3339(text).unwrap();
    Timestamp {
        seconds: moment.timestamp(),
        nanos: moment.timestamp_subsec_nanos(),
    }
}

/// One block per source, sorted by when its process was created, without
/// interleaving.
#[test]
fn native_history_merge_blocks_orders_by_time_and_preserves_content() {
    let t0 = at("2026-08-12T01:00:00Z");
    let t1 = at("2026-08-12T01:05:00Z");
    let t2 = at("2026-08-12T01:10:00Z");

    let merged = merge_blocks(vec![
        (t2, vec![entry("cleanup")]),
        (t1, vec![entry("native-1"), entry("native-2")]),
        (t0, vec![entry("setup")]),
    ]);
    let texts: Vec<String> = merged.iter().map(|entry| entry.content.clone()).collect();
    assert_eq!(texts, vec!["setup", "native-1", "native-2", "cleanup"]);
}

fn moment(seconds: i64) -> Timestamp {
    Timestamp { seconds, nanos: 0 }
}

#[test]
fn scripts_precede_the_history_of_their_own_time() {
    let conversation = assemble(
        vec![(moment(2), vec!["late"]), (moment(1), vec![]), (moment(1), vec!["early"])],
        Some((moment(2), vec!["n1", "n2"])),
    );
    assert_eq!(conversation, vec!["early", "late", "n1", "n2"]);
    assert_eq!(assemble(vec![(moment(1), vec!["only"])], None), vec!["only"]);
    assert_eq!(assemble(vec![(moment(3), vec!["s"])], Some((moment(1), vec![]))), vec!["s"]);
}

fn process(
    status: ExecutionProcessStatus,
    run_reason: ExecutionProcessRunReason,
    script: Option<ScriptContext>,
    seconds: i64,
) -> ExecutionProcess {
    ExecutionProcess {
        status,
        run_reason,
        action: match script {
            Some(context) => ExecutorActionType::ScriptRequest { context, script: "run".into() },
            None => ExecutorActionType::CodingAgentRequest,
        },
        created_at: moment(seconds),
        exit_code: None,
    }
}

#[test]
fn finished_processes_make_the_plan() {
    let agent = ExecutionProcessRunReason::CodingAgent;
    let setup = ExecutionProcessRunReason::SetupScript;
    let processes = vec![
        process(ExecutionProcessStatus::Completed, setup, Some(ScriptContext::SetupScript), 1),
        process(ExecutionProcessStatus::Running, setup, Some(ScriptContext::CleanupScript), 2),
        process(ExecutionProcessStatus::Running, agent, None, 4),
        process(ExecutionProcessStatus::Failed, agent, None, 3),
        process(ExecutionProcessStatus::Killed, setup, Some(ScriptContext::DevServer), 5),
    ];
    let plan = plan_conversation(&processes);
    assert_eq!(plan.scripts.len(), 1);
    assert_eq!(plan.scripts[0].process, 0);
    assert_eq!(plan.scripts[0].context, ScriptContextKind::Setup);
    assert_eq!(
        plan.native,
        Some(NativePart { at: moment(3), tail: TailPolicy::Running })
    );

    let running = vec![process(ExecutionProcessStatus::Running, agent, None, 1)];
    assert_eq!(plan_conversation(&running).native, None);
    let done = vec![process(ExecutionProcessStatus::Completed, agent, None, 1)];
    assert_eq!(
        plan_conversation(&done).native,
        Some(NativePart { at: moment(1), tail: TailPolicy::Completed })
    );
}

#[test]
fn script_kinds_are_named() {
    assert_eq!(ScriptContextKind::Setup.tool_name(), "Setup Script");
    assert_eq!(ScriptContextKind::Cleanup.tool_name(), "Cleanup Script");
    assert_eq!(ScriptContextKind::ToolInstall.tool_name(), "Tool Install Script");
    let install = process(
        ExecutionProcessStatus::Completed,
        ExecutionProcessRunReason::SetupScript,
        Some(ScriptContext::ToolInstallScript),
        1,
    );
    assert_eq!(
        script_request(&install),
        Some((ScriptContextKind::ToolInstall, "run".to_string()))
    );
}

#[test]
fn script_cards_show_output_and_exit_code() {
    let messages = vec![
        LogMsg::Stdout("a".into()),
        LogMsg::Other,
        LogMsg::Stderr("b".into()),
    ];
    let entries =
        build_script_entries(ScriptContextKind::Setup, "make".into(), Some(0), 3, Ok(messages))
            .unwrap();
    assert_eq!(entries.len(), 1);
    assert_eq!(entries[0].content, "Setup Script");
    let NormalizedEntryType::ToolUse {
        tool_name,
        action_type: ActionType::CommandRun { command, result: Some(result) },
        status,
    } = &entries[0].entry_type
    else {
        panic!("expected a command run");
    };
    assert_eq!(tool_name, "Setup Script");
    assert_eq!(command, "make");
    assert_eq!(result.output.as_deref(), Some("a\nb"));
    assert_eq!(result.exit_status, Some(CommandExitStatus::ExitCode { code: 0 }));
    assert_eq!(*status, ToolStatus::Success);

    let failed =
        build_script_entries(ScriptContextKind::Cleanup, "x".into(), None, 1, Ok(Vec::new())).unwrap();
    let NormalizedEntryType::ToolUse { status, .. } = &failed[0].entry_type else {
        panic!("expected a tool use");
    };
    assert_eq!(*status, ToolStatus::Failed);

    assert!(build_script_entries(ScriptContextKind::Setup, "x".into(), None, 0, Err("e".into()))
        .unwrap()
        .is_empty());
    assert_eq!(
        build_script_entries(ScriptContextKind::Setup, "x".into(), None, 1, Err("e".into()))
            .unwrap_err()
            .message(),
        "corrupt native session file <db>: failed to parse script logs: e"
    );
}

#[test]
fn failed_reads_are_reported() {
    for (read, label) in [
        (DatabaseRead::Session, "failed to load session"),
        (DatabaseRead::Processes, "failed to list execution processes"),
        (DatabaseRead::ScriptLogs, "failed to load script logs"),
        (DatabaseRead::Turns, "failed to load coding agent turns"),
    ] {
        assert_eq!(
            database_error(read, "locked").message(),
            format!("corrupt native session file <db>: {label}: locked")
        );
    }
}

#[test]
fn agents_are_read_where_they_are_known() {
    let session = agent_session(
        Some("s".into()),
        Some("PI".into()),
        Some(BaseCodingAgent::Pi),
        None,
    )
    .unwrap();
    assert_eq!(session.session_id, "s");
    assert_eq!(session.cwd, "/");
    assert_eq!(
        agent_session(None, Some("PI".into()), Some(BaseCodingAgent::Pi), None),
        Err(NativeHistoryError::SessionIdMissing)
    );
    assert_eq!(
        agent_session(Some("s".into()), None, None, None),
        Err(NativeHistoryError::SessionIdMissing)
    );
    assert_eq!(
        agent_session(Some("s".into()), Some("GEMINI".into()), None, Some("/w".into())),
        Err(NativeHistoryError::FormatUnsupported(
            "executor 'GEMINI' is not supported".into()
        ))
    );
}

fn key(session_id: u128, len: u64) -> CacheKey {
    CacheKey {
        session_id,
        agent_session_id: "a".into(),
        fingerprint: FileFingerprint::of("/s.jsonl", len, None),
    }
}

#[test]
fn histories_are_kept_until_the_file_changes() {
    let mut cache = NativeHistoryCache::new();
    assert!(cache.get(&key(1, 10)).is_none());
    cache.insert(key(1, 10), vec![entry("first")]);
    assert_eq!(cache.get(&key(1, 10)).unwrap()[0].content, "first");
    assert!(cache.get(&key(1, 11)).is_none());
    assert!(cache.get(&key(2, 10)).is_none());
    cache.insert(key(1, 10), vec![entry("second")]);
    assert_eq!(cache.get(&key(1, 10)).unwrap()[0].content, "second");
}

#[test]
fn a_full_cache_is_emptied() {
    let mut cache = NativeHistoryCache::new();
    for session in 0..MAX_CACHE_ENTRIES as u128 {
        cache.insert(key(session, 1), Vec::new());
    }
    assert!(cache.get(&key(0, 1)).is_some());
    cache.insert(key(1000, 1), vec![entry("new")]);
    assert!(cache.get(&key(0, 1)).is_none());
    assert!(cache.get(&key(1000, 1)).is_some());
}

#[test]
fn histories_with_an_unfinished_line_are_not_kept() {
    let history = |partial_tail: bool| NativeSessionHistory {
        agent: BaseCodingAgent::Pi,
        session_id: "s".into(),
        entries: Vec::new(),
        fingerprint: FileFingerprint::of("/s", 1, None),
        partial_tail,
    };
    assert!(may_keep(&history(false)));
    assert!(!may_keep(&history(true)));
}

#[test]
fn only_unflushed_histories_are_read_again() {
    let unflushed = NativeHistoryError::NotFlushed("s".into());
    let pauses: Vec<Option<u64>> = (0..6)
        .map(|retries| retry_pause(&unflushed, TailPolicy::Running, retries))
        .collect();
    assert_eq!(pauses, vec![Some(100), Some(250), Some(500), Some(1000), None, None]);
    assert_eq!(retry_pause(&unflushed, TailPolicy::Completed, 0), None);
    assert_eq!(
        retry_pause(&NativeHistoryError::SessionIdMissing, TailPolicy::Running, 0),
        None
    );
}

#[test]
fn the_order_of_blocks_of_different_times_makes_no_difference() {
    let (a, b, c) = (moment(1), moment(2), moment(3));
    let one = merge_blocks(vec![(c, vec!["c"]), (b, vec!["b1", "b2"]), (a, vec!["a"]), (b, vec!["b3"])]);
    let other = merge_blocks(vec![(b, vec!["b1", "b2"]), (a, vec!["a"]), (b, vec!["b3"]), (c, vec!["c"])]);
    assert_eq!(one, vec!["a", "b1", "b2", "b3", "c"]);
    assert_eq!(one, other);
}

#[test]
fn raw_logs_are_those_of_the_latest_agent() {
    let agent = |seconds: i64| {
        process(
            ExecutionProcessStatus::Completed,
            ExecutionProcessRunReason::CodingAgent,
            None,
            seconds,
        )
    };
    let script = process(
        ExecutionProcessStatus::Completed,
        ExecutionProcessRunReason::CleanupScript,
        Some(ScriptContext::CleanupScript),
        9,
    );
    assert_eq!(raw_logs_process(&vec![agent(1), agent(3), agent(3), agent(2), script]), Some(2));
    assert_eq!(raw_logs_process(&Vec::new()), None);
}
