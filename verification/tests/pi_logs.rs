//! PI's live frames and session files as conversations.

use kanban_core::entries::{
    ActionType, CommandExitStatus, NormalizedEntry, NormalizedEntryType, ToolStatus,
};
use kanban_core::history::{FileFingerprint, NativeHistoryErrorCode, NativeSessionHistory, TailPolicy};
use kanban_core::json::{Json, JsonNumber};
use kanban_core::pi::history::{
    find_session_file, has_tree_features, header_session_id, helper_programs, map_messages,
    pi_package_index, resolve_active_branch, HelperRun, PackageDirectory, PiNativeSessionHistory,
    PiRead, ScanEntry,
};
use kanban_core::pi::normalize_logs::{
    display_tool_name, map_action, summarize_value, truncate_for_display, AssistantEvent,
    LogAction, LogState, PiFrame,
};
use serde_json::Value;

fn json(value: &Value) -> Json {
    match value {
        Value::Null => Json::Null,
        Value::Bool(flag) => Json::Bool(*flag),
        Value::Number(number) => Json::Number(match number.as_i64() {
            Some(n) => JsonNumber::Int(n),
            None => JsonNumber::Decimal(number.to_string()),
        }),
        Value::String(text) => Json::Text(text.clone()),
        Value::Array(items) => Json::Array(items.iter().map(json).collect()),
        Value::Object(fields) => {
            Json::Object(fields.iter().map(|(key, value)| (key.clone(), json(value))).collect())
        }
    }
}

fn text(value: &Value, key: &str) -> String {
    value[key].as_str().unwrap_or_default().to_string()
}

/// Reads a frame as the application does.
fn decode(raw: &str) -> Option<PiFrame> {
    let value: Value = serde_json::from_str(raw).ok()?;
    let optional = |key: &str| value.get(key).map(json);
    Some(match value["type"].as_str()? {
        "vk_pi_session_start" => PiFrame::SessionStart { session_id: text(&value, "sessionId") },
        "vk_pi_token_usage" => PiFrame::TokenUsage {
            tokens: value["tokens"].as_u64().map(|n| n as u32),
            context_window: value["contextWindow"].as_u64().map(|n| n as u32),
        },
        "message_update" => {
            let event = &value["assistantMessageEvent"];
            let delta = text(event, "delta");
            PiFrame::MessageUpdate {
                event: match event["type"].as_str() {
                    Some("text_delta") => AssistantEvent::TextDelta { delta },
                    Some("thinking_delta") => AssistantEvent::ThinkingDelta { delta },
                    _ => AssistantEvent::Other,
                },
            }
        }
        "message_end" => PiFrame::MessageEnd { message: json(&value["message"]) },
        "tool_execution_start" => PiFrame::ToolStart {
            tool_call_id: text(&value, "toolCallId"),
            tool_name: text(&value, "toolName"),
            args: optional("args"),
        },
        "tool_execution_update" => PiFrame::ToolUpdate {
            tool_call_id: text(&value, "toolCallId"),
            tool_name: text(&value, "toolName"),
            partial_result: optional("partialResult"),
        },
        "tool_execution_end" => PiFrame::ToolEnd {
            tool_call_id: text(&value, "toolCallId"),
            tool_name: text(&value, "toolName"),
            result: optional("result"),
            is_error: value["isError"].as_bool().unwrap_or(false),
        },
        "extension_error" => PiFrame::ExtensionError { error: text(&value, "error") },
        _ => PiFrame::Other,
    })
}

fn run_frames(frames: &[&str]) -> Vec<LogAction> {
    let mut state = LogState::new();
    let mut next = 0;
    let mut actions = Vec::new();
    for raw in frames {
        if let Some(frame) = decode(raw) {
            let index = next;
            if state.needs_index(&frame) {
                next += 1;
            }
            actions.extend(state.handle_frame(frame, index));
        }
    }
    actions
}

/// The conversation that actions leave.
fn conversation(actions: Vec<LogAction>) -> Vec<NormalizedEntry> {
    let mut entries: Vec<Option<NormalizedEntry>> = Vec::new();
    for action in actions {
        if let LogAction::Add { index, entry } | LogAction::Replace { index, entry } = action {
            while entries.len() <= index {
                entries.push(None);
            }
            entries[index] = Some(entry);
        }
    }
    entries.into_iter().flatten().collect()
}

fn kinds(entries: &[NormalizedEntry]) -> Vec<&'static str> {
    entries
        .iter()
        .map(|entry| match &entry.entry_type {
            NormalizedEntryType::UserMessage => "user",
            NormalizedEntryType::AssistantMessage => "assistant",
            NormalizedEntryType::Thinking => "thinking",
            NormalizedEntryType::ToolUse { .. } => "tool",
            NormalizedEntryType::SystemMessage => "system",
            _ => "other",
        })
        .collect()
}

fn command_output(entry: &NormalizedEntry) -> (String, String, ToolStatus) {
    match &entry.entry_type {
        NormalizedEntryType::ToolUse {
            action_type: ActionType::CommandRun { command, result },
            status,
            ..
        } => (
            command.clone(),
            result.as_ref().and_then(|result| result.output.clone()).unwrap_or_default(),
            *status,
        ),
        other => panic!("expected a command run, got {other:?}"),
    }
}

#[test]
fn publishes_session_id_and_reconciles_assistant_text() {
    let actions = run_frames(&[
        r#"{"type":"vk_pi_session_start","sessionId":"s-1"}"#,
        r#"{"type":"message_update","assistantMessageEvent":{"type":"text_delta","contentIndex":0,"delta":"Hello"}}"#,
        r#"{"type":"message_update","assistantMessageEvent":{"type":"text_delta","contentIndex":0,"delta":" world"}}"#,
        r#"{"type":"message_end","message":{"role":"assistant","content":[{"type":"text","text":"Hello world!"}]}}"#,
        r#"{"type":"vk_pi_session_start","sessionId":"s-2"}"#,
    ]);
    let ids: Vec<&String> = actions
        .iter()
        .filter_map(|action| match action {
            LogAction::SessionId(id) => Some(id),
            _ => None,
        })
        .collect();
    assert_eq!(ids, vec!["s-1"]);
    let entries = conversation(actions);
    assert_eq!(entries.len(), 1);
    assert!(matches!(entries[0].entry_type, NormalizedEntryType::AssistantMessage));
    // The end of the message is authoritative, not a second append.
    assert_eq!(entries[0].content, "Hello world!");
}

#[test]
fn tool_partial_result_replaces_and_end_marks_success() {
    let entries = conversation(run_frames(&[
        r#"{"type":"tool_execution_start","toolCallId":"t1","toolName":"bash","args":{"command":"ls"}}"#,
        r#"{"type":"tool_execution_update","toolCallId":"t1","toolName":"bash","partialResult":{"output":"a"}}"#,
        r#"{"type":"tool_execution_update","toolCallId":"t1","toolName":"bash","partialResult":{"output":"ab"}}"#,
        r#"{"type":"tool_execution_end","toolCallId":"t1","toolName":"bash","result":{"output":"ab"},"isError":false}"#,
    ]));
    assert_eq!(kinds(&entries), vec!["tool"]);
    let (command, output, status) = command_output(&entries[0]);
    assert!(matches!(status, ToolStatus::Success));
    assert_eq!(command, "ls");
    // Partial results replace rather than append: "ab", never "aab".
    assert!(output.contains("\"ab\""), "unexpected output: {output}");
    assert!(!output.contains("aab"), "duplicated delta: {output}");
}

#[test]
fn unknown_frames_are_ignored_without_crashing() {
    let entries = conversation(run_frames(&[
        r#"{"type":"future_event","payload":{}}"#,
        "not json at all",
        r#"{"type":"vk_pi_token_usage","tokens":10,"contextWindow":100}"#,
    ]));
    assert_eq!(entries.len(), 1);
    assert!(matches!(entries[0].entry_type, NormalizedEntryType::TokenUsageInfo(_)));
    assert_eq!(entries[0].content, "Tokens used: 10 / Context window: 100");
}

#[test]
fn tools_that_were_never_started_show_nothing() {
    let actions = run_frames(&[
        r#"{"type":"tool_execution_end","toolCallId":"t9","toolName":"bash","result":"x","isError":true}"#,
        r#"{"type":"extension_error","error":"boom"}"#,
        r#"{"type":"message_end","message":{"role":"user","content":"hi"}}"#,
    ]);
    assert_eq!(actions.len(), 1);
    let entries = conversation(actions);
    assert_eq!(entries[0].content, "boom");
}

#[test]
fn tools_are_shown_by_what_they_do() {
    assert_eq!(display_tool_name("edit"), "Edit");
    assert_eq!(display_tool_name("grep"), "Search");
    assert_eq!(display_tool_name("custom"), "custom");
    let args = Some(Json::Object(vec![
        ("path".into(), Json::Text("/p".into())),
        ("pattern".into(), Json::Text("needle".into())),
    ]));
    assert_eq!(map_action("read", &args, &None), ActionType::FileRead { path: "/p".into() });
    assert_eq!(map_action("find", &args, &None), ActionType::Search { query: "needle".into() });
    assert_eq!(
        map_action("write", &None, &None),
        ActionType::FileEdit { path: String::new(), changes: Vec::new() }
    );
    match map_action("custom", &args, &Some(Json::Bool(true))) {
        ActionType::Tool { tool_name, arguments, result } => {
            assert_eq!(tool_name, "custom");
            assert!(matches!(arguments, Some(Json::Text(_))));
            assert_eq!(result.unwrap().value, Json::Text("true".into()));
        }
        other => panic!("unexpected action: {other:?}"),
    }
    assert_eq!(summarize_value(&Json::Text("as is".into())), "as is");
    assert_eq!(summarize_value(&Json::Array(vec![Json::Null])), "[\n  null\n]");
    let long = "é".repeat(50_001);
    let shown = truncate_for_display(&long);
    assert!(shown.starts_with(&"é".repeat(50_000)));
    assert!(shown.ends_with("\n… [truncated; full output retained in raw logs]"));
    assert_eq!(truncate_for_display("short"), "short");
}

const SHADOW: &str = "{\"type\":\"session\",\"version\":3,\"id\":\"s-shadow\",\"timestamp\":\"2026-08-12T01:00:00.000Z\",\"cwd\":\"/tmp/demo\"}\n{\"type\":\"message\",\"id\":\"m1\",\"parentId\":null,\"timestamp\":\"2026-08-12T01:00:01.000Z\",\"message\":{\"role\":\"user\",\"content\":\"整理 docs 目录\",\"timestamp\":1780000000000}}\n{\"type\":\"message\",\"id\":\"m2\",\"parentId\":\"m1\",\"timestamp\":\"2026-08-12T01:00:02.000Z\",\"message\":{\"role\":\"assistant\",\"content\":[{\"type\":\"thinking\",\"thinking\":\"分析请求\"},{\"type\":\"text\",\"text\":\"先看看日志\"},{\"type\":\"toolCall\",\"id\":\"call_1\",\"name\":\"bash\",\"arguments\":{\"command\":\"ls docs\"}}],\"provider\":\"test\",\"model\":\"test\",\"stopReason\":\"toolUse\",\"timestamp\":1780000000001}}\n{\"type\":\"message\",\"id\":\"m3\",\"parentId\":\"m2\",\"timestamp\":\"2026-08-12T01:00:03.000Z\",\"message\":{\"role\":\"toolResult\",\"toolCallId\":\"call_1\",\"toolName\":\"bash\",\"content\":[{\"type\":\"text\",\"text\":\"README.md\\nplans/\"}],\"isError\":false,\"timestamp\":1780000000002}}\n{\"type\":\"message\",\"id\":\"m4\",\"parentId\":\"m3\",\"timestamp\":\"2026-08-12T01:00:04.000Z\",\"message\":{\"role\":\"assistant\",\"content\":[{\"type\":\"text\",\"text\":\"已完成：docs 已整理。\"}],\"provider\":\"test\",\"model\":\"test\",\"stopReason\":\"stop\",\"timestamp\":1780000000003}}\n";

fn fingerprint() -> FileFingerprint {
    FileFingerprint::of("/session.jsonl", 1, None)
}

fn read(content: &str, tail: TailPolicy) -> NativeSessionHistory {
    match PiNativeSessionHistory::read("/session.jsonl", content.as_bytes().to_vec(), fingerprint(), tail)
        .unwrap()
    {
        PiRead::Done(history) => history,
        PiRead::ResolveBranch(_) => panic!("expected a linear session"),
    }
}

/// The same turn through the live frames and through the session file: tool
/// calls, thinking and the final text agree.
#[test]
fn pi_native_history_shadow_matches_live_normalizer() {
    let live = conversation(run_frames(&[
        r#"{"type":"vk_pi_session_start","sessionId":"s-shadow"}"#,
        r#"{"type":"message_update","assistantMessageEvent":{"type":"thinking_delta","contentIndex":0,"delta":"分析"}}"#,
        r#"{"type":"message_update","assistantMessageEvent":{"type":"thinking_delta","contentIndex":0,"delta":"请求"}}"#,
        r#"{"type":"message_update","assistantMessageEvent":{"type":"text_delta","contentIndex":1,"delta":"先看看"}}"#,
        r#"{"type":"message_update","assistantMessageEvent":{"type":"text_delta","contentIndex":1,"delta":"日志"}}"#,
        r#"{"type":"message_end","message":{"role":"assistant","content":[{"type":"text","text":"先看看日志"}]}}"#,
        r#"{"type":"tool_execution_start","toolCallId":"call_1","toolName":"bash","args":{"command":"ls docs"}}"#,
        r#"{"type":"tool_execution_end","toolCallId":"call_1","toolName":"bash","result":"README.md\nplans/","isError":false}"#,
        r#"{"type":"message_update","assistantMessageEvent":{"type":"text_delta","contentIndex":1,"delta":"已完成"}}"#,
        r#"{"type":"message_end","message":{"role":"assistant","content":[{"type":"text","text":"已完成：docs 已整理。"}]}}"#,
    ]));
    let native = read(SHADOW, TailPolicy::Completed);
    assert_eq!(kinds(&live), vec!["thinking", "assistant", "tool"]);
    assert_eq!(
        kinds(&native.entries),
        vec!["user", "thinking", "assistant", "tool", "assistant"]
    );
    assert_eq!(live[0].content, "分析请求");
    assert_eq!(live[0].content, native.entries[1].content);
    assert_eq!(live[1].content, "已完成：docs 已整理。");
    assert_eq!(live[1].content, native.entries[4].content);
    assert_eq!(native.entries[2].content, "先看看日志");

    let (command, output, status) = command_output(&live[2]);
    assert_eq!(command, "ls docs");
    assert_eq!(status, ToolStatus::Success);
    assert_eq!((command, output, status), command_output(&native.entries[3]));
    assert_eq!(live[2], native.entries[3]);
}

const BASIC: &[&str] = &[
    r#"{"type":"session","version":3,"id":"11111111-2222-3333-4444-555555555555","timestamp":"2026-08-12T01:00:00.000Z","cwd":"/tmp/demo"}"#,
    r#"{"type":"message","id":"m1","parentId":null,"message":{"role":"user","content":"整理 docs 目录"}}"#,
    r#"{"type":"message","id":"m2","parentId":"m1","message":{"role":"assistant","content":[{"type":"thinking","thinking":"分析请求"},{"type":"toolCall","id":"call_1","name":"bash","arguments":{"command":"ls docs"}}]}}"#,
    r#"{"type":"message","id":"m3","parentId":"m2","message":{"role":"toolResult","toolCallId":"call_1","toolName":"bash","content":[{"type":"text","text":"README.md\nplans/"}],"isError":false}}"#,
    r#"{"type":"message","id":"m4","parentId":"m3","message":{"role":"assistant","content":[{"type":"text","text":"已完成：docs 已整理。"}]}}"#,
];

fn basic() -> String {
    BASIC.iter().map(|line| format!("{line}\n")).collect()
}

#[test]
fn native_session_history_pi_maps_final_messages() {
    let history = read(&basic(), TailPolicy::Completed);
    assert_eq!(history.session_id, "11111111-2222-3333-4444-555555555555");
    assert!(!history.partial_tail);
    assert_eq!(kinds(&history.entries), vec!["user", "thinking", "tool", "assistant"]);
    let NormalizedEntryType::ToolUse { tool_name, status, .. } = &history.entries[2].entry_type
    else {
        panic!("expected tool use entry");
    };
    assert_eq!(tool_name, "Bash");
    assert!(matches!(status, ToolStatus::Success));
    let (command, output, _) = command_output(&history.entries[2]);
    assert_eq!(command, "ls docs");
    assert!(output.contains("README.md"));
}

fn parsed(lines: &[&str]) -> Vec<Json> {
    lines.iter().map(|line| json(&serde_json::from_str(line).unwrap())).collect()
}

fn statuses(entries: &[NormalizedEntry]) -> Vec<ToolStatus> {
    entries
        .iter()
        .map(|entry| match &entry.entry_type {
            NormalizedEntryType::ToolUse { status, .. } => *status,
            other => panic!("expected a tool use, got {other:?}"),
        })
        .collect()
}

#[test]
fn calls_without_an_id_have_failed() {
    let entries = map_messages(&parsed(&[
        r#"{"type":"message","message":{"role":"assistant","content":[{"type":"toolCall","name":"bash","arguments":{"command":"ls"}}]}}"#,
    ]));
    assert_eq!(entries.len(), 1);
    assert_eq!(statuses(&entries), vec![ToolStatus::Failed]);
}

#[test]
fn calls_whose_id_is_used_again_have_failed() {
    let call = r#"{"type":"message","message":{"role":"assistant","content":[{"type":"toolCall","id":"c","name":"bash","arguments":{"command":"ls"}}]}}"#;
    let result = r#"{"type":"message","message":{"role":"toolResult","toolCallId":"c","content":[{"type":"text","text":"ok"}],"isError":false}}"#;
    assert_eq!(
        statuses(&map_messages(&parsed(&[call, call, result]))),
        vec![ToolStatus::Failed, ToolStatus::Success]
    );
    assert_eq!(
        statuses(&map_messages(&parsed(&[call, call]))),
        vec![ToolStatus::Failed, ToolStatus::Failed]
    );
}

#[test]
fn results_keep_every_entry_in_its_place() {
    let with = map_messages(&parsed(&BASIC[1..]));
    let without = map_messages(&parsed(&[BASIC[1], BASIC[2], BASIC[4]]));
    assert_eq!(kinds(&with), kinds(&without));
    for (with, without) in with.iter().zip(&without) {
        assert_eq!(with.content, without.content);
    }
    assert_eq!(command_output(&without[2]).2, ToolStatus::Failed);
}

#[test]
fn ends_of_messages_replace_what_was_streamed() {
    let actions = run_frames(&[
        r#"{"type":"message_update","assistantMessageEvent":{"type":"text_delta","delta":"Hello"}}"#,
        r#"{"type":"message_update","assistantMessageEvent":{"type":"text_delta","delta":" world"}}"#,
        r#"{"type":"message_end","message":{"role":"assistant","content":[{"type":"text","text":"Hello world!"}]}}"#,
        r#"{"type":"message_end","message":{"role":"user","content":"hi"}}"#,
        r#"{"type":"message_end","message":{"role":"assistant","content":[]}}"#,
    ]);
    assert_eq!(actions.len(), 3);
    match &actions[2] {
        LogAction::Replace { index, entry } => {
            assert_eq!(*index, 0);
            assert!(matches!(entry.entry_type, NormalizedEntryType::AssistantMessage));
            assert_eq!(entry.content, "Hello world!");
        }
        other => panic!("unexpected action: {other:?}"),
    }
}

#[test]
fn native_session_history_pi_is_deterministic() {
    let a = read(SHADOW, TailPolicy::Completed);
    let b = read(SHADOW, TailPolicy::Completed);
    assert_eq!(a.entries, b.entries);
}

#[test]
fn native_session_history_pi_detects_tree_features() {
    let record = |raw: &str| json(&serde_json::from_str(raw).unwrap());
    let linear = vec![
        record(r#"{"type":"message","id":"a","parentId":null}"#),
        record(r#"{"type":"message","id":"b","parentId":"a"}"#),
    ];
    assert!(!has_tree_features(&linear));
    let branched = vec![
        record(r#"{"type":"message","id":"b","parentId":"a"}"#),
        record(r#"{"type":"message","id":"c","parentId":"a"}"#),
    ];
    assert!(has_tree_features(&branched));
    let compacted = vec![record(r#"{"type":"compaction","summary":"s"}"#)];
    assert!(has_tree_features(&compacted));
}

#[test]
fn native_session_history_pi_tail_policies() {
    let partial = SHADOW.trim_end_matches('\n');
    let history = read(partial, TailPolicy::Running);
    assert!(history.partial_tail);
    assert!(!history.entries.is_empty());
    let err = PiNativeSessionHistory::read(
        "/session.jsonl",
        partial.as_bytes().to_vec(),
        fingerprint(),
        TailPolicy::Completed,
    )
    .unwrap_err();
    assert_eq!(err.code(), NativeHistoryErrorCode::NativeSessionCorrupt);
}

fn scanned(path: &str, id: &str) -> ScanEntry {
    ScanEntry::File {
        path: format!("/root/{path}"),
        name: Some(path.to_string()),
        header_id: Some(id.to_string()),
    }
}

#[test]
fn native_session_history_pi_locate_requires_header_match() {
    let file = "2026-08-12T01-00-00-000Z_11111111-2222-3333-4444-555555555555.jsonl";
    let other = "2026-08-12T01-00-00-000Z_99999999-0000-0000-0000-000000000000.jsonl";
    let id = "11111111-2222-3333-4444-555555555555";
    let root = vec![ScanEntry::Directory {
        entries: Some(vec![scanned(other, id), scanned(file, id)]),
    }];
    let found = find_session_file(&root, id, 4).expect("the session should be found");
    assert!(found.ends_with(file));
    // The name mentions the id, but the header belongs to another session.
    assert!(find_session_file(&root, "99999999-0000-0000-0000-000000000000", 4).is_none());
    assert!(find_session_file(&root, id, 1).is_none());
    assert_eq!(
        PiNativeSessionHistory::locate(id, Some("/root".into()), None)
            .unwrap_err()
            .code(),
        NativeHistoryErrorCode::NativeSessionFileNotFound
    );
    assert_eq!(
        PiNativeSessionHistory::locate(id, None, None).unwrap_err().code(),
        NativeHistoryErrorCode::NativeSessionFormatUnsupported
    );
    assert_eq!(
        header_session_id(" {\"type\":\"session\",\"id\":\"x\"} \n").as_deref(),
        Some("x")
    );
    assert_eq!(header_session_id("{\"type\":\"message\",\"id\":\"x\"}"), None);
}

#[test]
fn branched_sessions_are_resolved_elsewhere() {
    let content = "{\"type\":\"session\",\"id\":\"s\"}\n{\"type\":\"message\",\"id\":\"b\",\"parentId\":\"a\"}\n{\"type\":\"message\",\"id\":\"c\",\"parentId\":\"a\",\"message\":{\"role\":\"user\",\"content\":\"x\"}}\n";
    let session = match PiNativeSessionHistory::read(
        "/p",
        content.as_bytes().to_vec(),
        fingerprint(),
        TailPolicy::Completed,
    )
    .unwrap()
    {
        PiRead::ResolveBranch(session) => session,
        PiRead::Done(_) => panic!("expected a branched session"),
    };
    let resolved = resolve_active_branch(
        "/p",
        HelperRun::Ended {
            success: true,
            stdout: b"{\"type\":\"message\",\"message\":{\"role\":\"user\",\"content\":\"kept\"}}\n".to_vec(),
            stderr: String::new(),
        },
    );
    let history = PiNativeSessionHistory::resume(session, resolved, fingerprint()).unwrap();
    assert_eq!(history.entries.len(), 1);
    assert_eq!(history.entries[0].content, "kept");
    let failed = resolve_active_branch(
        "/p",
        HelperRun::Ended { success: false, stdout: Vec::new(), stderr: " no \n".into() },
    );
    assert_eq!(
        failed.unwrap_err().message(),
        "unsupported native session format: PI SessionManager helper failed: no"
    );
    assert!(resolve_active_branch("/p", HelperRun::TimedOut).is_err());
    assert!(resolve_active_branch(
        "/p",
        HelperRun::Failed { permission_denied: false, message: "x".into() }
    )
    .is_err());
    assert!(helper_programs(None, Some("i".into())).is_err());
    assert!(helper_programs(Some("node".into()), None).is_err());
    assert_eq!(
        pi_package_index(&vec![
            PackageDirectory { manifest: Some("{}".into()), index: Some("/no".into()) },
            PackageDirectory {
                manifest: Some("\"@earendil-works/pi-coding-agent\"".into()),
                index: Some("/yes".into())
            },
        ])
        .as_deref(),
        Some("/yes")
    );
}

#[test]
fn broken_session_files_are_reported_by_line() {
    let fail = |content: &str| {
        PiNativeSessionHistory::read(
            "/p",
            content.as_bytes().to_vec(),
            fingerprint(),
            TailPolicy::Completed,
        )
        .unwrap_err()
        .code()
    };
    assert_eq!(fail(""), NativeHistoryErrorCode::NativeSessionCorrupt);
    assert_eq!(
        fail("{\"type\":\"session\",\"id\":\"s\"}\nnot json\n"),
        NativeHistoryErrorCode::NativeSessionCorrupt
    );
}

#[test]
fn calls_without_results_have_failed() {
    let record = |raw: &str| json(&serde_json::from_str(raw).unwrap());
    let records = vec![
        record(r#"{"type":"message","message":{"role":"assistant","content":[{"type":"toolCall","id":"1","name":"bash","arguments":{"command":"ls"}}]}}"#),
        record(r#"{"type":"label","text":"hidden"}"#),
        record(r#"{"type":"message","message":{"role":"bashExecution","command":"make","output":"ok","exitCode":0}}"#),
        record(r#"{"type":"custom_message","display":true,"content":"shown"}"#),
        record(r#"{"type":"custom_message","display":false,"content":"hidden"}"#),
        record(r#"{"type":"branch_summary","summary":"sum"}"#),
    ];
    let entries = map_messages(&records);
    assert_eq!(kinds(&entries), vec!["tool", "tool", "system", "system"]);
    assert_eq!(command_output(&entries[0]).2, ToolStatus::Failed);
    assert_eq!(command_output(&entries[1]), ("make".into(), "ok".into(), ToolStatus::Success));
    match &entries[1].entry_type {
        NormalizedEntryType::ToolUse {
            action_type: ActionType::CommandRun { result: Some(result), .. },
            ..
        } => assert_eq!(result.exit_status, Some(CommandExitStatus::ExitCode { code: 0 })),
        other => panic!("unexpected entry: {other:?}"),
    }
    assert_eq!(entries[2].content, "shown");
    assert_eq!(entries[3].content, "sum");
}

#[test]
fn images_leave_no_trace() {
    let record = |raw: &str| json(&serde_json::from_str(raw).unwrap());
    let entries = map_messages(&vec![
        record(r#"{"type":"message","message":{"role":"user","content":[{"type":"text","text":"see "},{"type":"image","data":"AAAA","text":"no"},{"type":"text","text":"this"}]}}"#),
        record(r#"{"type":"message","message":{"role":"assistant","content":[{"type":"image","data":"AAAA"},{"type":"text","text":"seen"}]}}"#),
    ]);
    let texts: Vec<&str> = entries.iter().map(|entry| entry.content.as_str()).collect();
    assert_eq!(texts, vec!["see this", "seen"]);
}
