//! Codex rollouts as conversations.

use kanban_core::codex::history::{
    header_matches_session, is_session_header, map_rollout_items, shell_command,
    CodexNativeSessionHistory, MessagePart, ResponseRecord, RolloutLookup, RolloutRecord,
    TokenCount,
};
use kanban_core::entries::{ActionType, NormalizedEntry, NormalizedEntryType, ToolStatus};
use kanban_core::history::{
    FileFingerprint, NativeHistoryError, NativeHistoryErrorCode, NativeSessionHistory, TailPolicy,
};
use kanban_core::json::Json;

const ROLLOUT: &[&str] = &[
    r#"{"timestamp":"t","type":"session_meta","payload":{"id":"22222222-3333-4444-5555-666666666666","timestamp":"t","cwd":"/w","originator":"o","cli_version":"1","instructions":null,"model_provider":null}}"#,
    r#"{"timestamp":"t","type":"response_item","payload":{"type":"message","role":"developer","content":[{"type":"input_text","text":"system prompt"}]}}"#,
    r#"{"timestamp":"t","type":"event_msg","payload":{"type":"user_message","message":"列出文件"}}"#,
    r#"{"timestamp":"t","type":"response_item","payload":{"type":"message","role":"user","content":[{"type":"input_text","text":"列出文件"}]}}"#,
    r#"{"timestamp":"t","type":"response_item","payload":{"type":"reasoning","id":"r","summary":[{"type":"summary_text","text":"想一想"}],"encrypted_content":null}}"#,
    r#"{"timestamp":"t","type":"response_item","payload":{"type":"function_call","name":"shell","arguments":"{\"command\":[\"ls\",\"-la\"]}","call_id":"c1"}}"#,
    r#"{"timestamp":"t","type":"response_item","payload":{"type":"function_call_output","call_id":"c1","output":"total 42"}}"#,
    r#"{"timestamp":"t","type":"response_item","payload":{"type":"message","role":"assistant","content":[{"type":"output_text","text":"完成"}]}}"#,
    r#"{"timestamp":"t","type":"event_msg","payload":{"type":"agent_message","message":"完成"}}"#,
    r#"{"timestamp":"t","type":"event_msg","payload":{"type":"token_count","info":{"total_token_usage":{"input_tokens":1,"cached_input_tokens":0,"output_tokens":1,"reasoning_output_tokens":0,"total_tokens":12},"last_token_usage":{"input_tokens":1,"cached_input_tokens":0,"output_tokens":1,"reasoning_output_tokens":0,"total_tokens":2},"model_context_window":100},"rate_limits":null}}"#,
];

fn rollout() -> String {
    ROLLOUT.iter().map(|line| format!("{line}\n")).collect()
}

fn read(content: &str, tail: TailPolicy) -> Result<NativeSessionHistory, NativeHistoryError> {
    CodexNativeSessionHistory::read(
        "/rollout.jsonl",
        content.as_bytes().to_vec(),
        FileFingerprint::of("/rollout.jsonl", 1, None),
        tail,
    )
}

fn kinds(entries: &[NormalizedEntry]) -> Vec<&'static str> {
    entries
        .iter()
        .map(|entry| match &entry.entry_type {
            NormalizedEntryType::UserMessage => "user",
            NormalizedEntryType::AssistantMessage => "assistant",
            NormalizedEntryType::Thinking => "thinking",
            NormalizedEntryType::ToolUse { .. } => "tool",
            NormalizedEntryType::TokenUsageInfo(_) => "tokens",
            NormalizedEntryType::SystemMessage => "system",
            _ => "other",
        })
        .collect()
}

#[test]
fn native_session_history_codex_maps_rollout_items() {
    let history = read(&rollout(), TailPolicy::Completed).unwrap();
    assert_eq!(history.session_id, "22222222-3333-4444-5555-666666666666");
    assert_eq!(
        kinds(&history.entries),
        vec!["user", "thinking", "tool", "assistant", "tokens"]
    );
    let NormalizedEntryType::ToolUse { action_type, status, .. } = &history.entries[2].entry_type
    else {
        panic!("expected tool use entry");
    };
    assert!(matches!(status, ToolStatus::Success));
    let ActionType::CommandRun { command, result } = action_type else {
        panic!("expected command run");
    };
    assert_eq!(command, "ls -la");
    assert!(result
        .as_ref()
        .and_then(|result| result.output.as_deref())
        .is_some_and(|output| output.contains("total 42")));
}

#[test]
fn native_session_history_codex_is_deterministic() {
    let a = read(&rollout(), TailPolicy::Completed).unwrap();
    let b = read(&rollout(), TailPolicy::Completed).unwrap();
    assert_eq!(a.entries, b.entries);
}

#[test]
fn native_session_history_codex_tail_policies() {
    let whole = rollout();
    let partial = whole.trim_end_matches('\n');
    assert!(read(partial, TailPolicy::Running).unwrap().partial_tail);
    let err = read(partial, TailPolicy::Completed).unwrap_err();
    assert_eq!(err.code(), NativeHistoryErrorCode::NativeSessionCorrupt);
}

#[test]
fn broken_rollouts_are_corrupt() {
    for content in ["", "not json\n", "{\"type\":\"nothing\"}\n"] {
        assert_eq!(
            read(content, TailPolicy::Completed).unwrap_err().code(),
            NativeHistoryErrorCode::NativeSessionCorrupt
        );
    }
}

#[test]
fn rollouts_are_found_by_header() {
    let header = ROLLOUT[0];
    assert!(header_matches_session(header, "22222222-3333-4444-5555-666666666666"));
    assert!(!header_matches_session(header, "11111111-3333-4444-5555-666666666666"));
    assert!(!header_matches_session("garbage", "x"));
    assert!(is_session_header(&Ok(RolloutRecord::SessionMeta { id: "x".into() }), "x"));
    let located = CodexNativeSessionHistory::locate(
        "s",
        RolloutLookup::Found { path: "/p".into(), header_matches: true },
    );
    assert_eq!(located.unwrap(), "/p");
    for lookup in [
        RolloutLookup::Found { path: "/p".into(), header_matches: false },
        RolloutLookup::NotFound { root: "/r".into() },
    ] {
        assert!(CodexNativeSessionHistory::locate("s", lookup).is_err());
    }
}

#[test]
fn commands_are_read_from_arguments() {
    let joined = Json::Object(vec![(
        "command".into(),
        Json::Array(vec![Json::Text("a".into()), Json::Text("b".into())]),
    )]);
    assert_eq!(shell_command("raw", &Ok(joined)), "a b");
    let text = Json::Object(vec![("cmd".into(), Json::Text("make".into()))]);
    assert_eq!(shell_command("raw", &Ok(text)), "make");
    assert_eq!(shell_command("raw", &Err("bad".into())), "raw");
    assert_eq!(shell_command("raw", &Ok(Json::Null)), "raw");
}

fn message(role: &str, text: &str) -> RolloutRecord {
    RolloutRecord::Response(ResponseRecord::Message {
        role: role.into(),
        content: vec![MessagePart::OutputText { text: text.into() }],
    })
}

#[test]
fn repeated_events_are_shown_once() {
    let entries = map_rollout_items(&vec![
        message("assistant", "done"),
        RolloutRecord::AgentMessage { message: "done".into() },
        RolloutRecord::AgentMessage { message: "only an event".into() },
    ]);
    let texts: Vec<&str> = entries.iter().map(|entry| entry.content.as_str()).collect();
    assert_eq!(texts, vec!["done", "only an event"]);
}

#[test]
fn unanswered_calls_have_failed() {
    let entries = map_rollout_items(&vec![
        RolloutRecord::Response(ResponseRecord::FunctionCall {
            name: "shell".into(),
            arguments: "ls".into(),
            call_id: "c".into(),
        }),
        RolloutRecord::Compacted { message: "summary".into() },
        RolloutRecord::TokenCount(Some(TokenCount {
            total_tokens: 5,
            model_context_window: None,
        })),
    ]);
    let NormalizedEntryType::ToolUse { status, .. } = &entries[0].entry_type else {
        panic!("expected tool use entry");
    };
    assert_eq!(*status, ToolStatus::Failed);
    assert_eq!(kinds(&entries)[..2], ["tool", "system"]);
}

#[test]
fn calls_whose_id_is_used_again_have_failed_in_rollouts() {
    let call = || {
        RolloutRecord::Response(ResponseRecord::FunctionCall {
            name: "shell".into(),
            arguments: "{\"command\":\"ls\"}".into(),
            call_id: String::new(),
        })
    };
    let entries = map_rollout_items(&vec![call(), call()]);
    assert_eq!(kinds(&entries), vec!["tool", "tool"]);
    for entry in &entries {
        assert!(matches!(
            entry.entry_type,
            NormalizedEntryType::ToolUse { status: ToolStatus::Failed, .. }
        ));
    }
}

#[test]
fn new_events_add_one_entry_wherever_they_stand() {
    let items = || {
        vec![
            RolloutRecord::Compacted { message: "summary".into() },
            RolloutRecord::Response(ResponseRecord::FunctionCall {
                name: "shell".into(),
                arguments: "{\"command\":\"ls\"}".into(),
                call_id: "c".into(),
            }),
        ]
    };
    let plain = map_rollout_items(&items());
    for at in 0..=2 {
        let mut longer = items();
        longer.insert(at, RolloutRecord::AgentMessage { message: "new".into() });
        let mut entries = map_rollout_items(&longer);
        let added = entries.remove(at);
        assert!(matches!(added.entry_type, NormalizedEntryType::AssistantMessage));
        assert_eq!(added.content, "new");
        assert_eq!(entries, plain);
    }
}
