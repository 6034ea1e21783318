//! Sessions of the `ClaudeCode` agent as conversations.

use kanban_core::claude::history::{
    file_contains_session, find_session_file, main_chain, make_turns, map_turns, session_file_name,
    wants_live_mapping, ClaudeBlock, ClaudeItem, ClaudeNativeSessionHistory, ClaudeRecord,
    ClaudeTurn, ProjectEntry, RecordContent, SessionCandidate, TurnContent,
};
use kanban_core::entries::{
    ActionType, NormalizedEntry, NormalizedEntryType, ToolResult, ToolResultValueType, ToolStatus,
};
use kanban_core::history::{
    FileFingerprint, NativeHistoryError, NativeHistoryErrorCode, NativeSessionHistory, TailPolicy,
};
use kanban_core::json::Json;

const BASIC: &[&str] = &[
    r#"{"type":"queue-operation","sessionId":"33333333-4444-5555-6666-777777777777"}"#,
    r#"{"type":"user","uuid":"u1","parentUuid":null,"sessionId":"33333333-4444-5555-6666-777777777777","cwd":"/w","message":{"role":"user","content":"看看 docs"}}"#,
    r#"{"type":"user","uuid":"m1","parentUuid":"u1","isMeta":true,"sessionId":"33333333-4444-5555-6666-777777777777","message":{"role":"user","content":"meta"}}"#,
    r#"{"type":"assistant","uuid":"a1","parentUuid":"u1","sessionId":"33333333-4444-5555-6666-777777777777","cwd":"/w","message":{"role":"assistant","content":[{"type":"thinking","thinking":"想"},{"type":"tool_use","id":"t1","name":"Bash","input":{"command":"ls docs"}}]}}"#,
    r#"{"type":"assistant","uuid":"x1","parentUuid":"a1","isSidechain":true,"sessionId":"33333333-4444-5555-6666-777777777777","message":{"role":"assistant","content":[{"type":"text","text":"side"}]}}"#,
    r#"{"type":"user","uuid":"u2","parentUuid":"a1","sessionId":"33333333-4444-5555-6666-777777777777","cwd":"/w","message":{"role":"user","content":[{"type":"tool_result","tool_use_id":"t1","content":"README.md"}]}}"#,
    r#"{"type":"assistant","uuid":"a2","parentUuid":"u2","sessionId":"33333333-4444-5555-6666-777777777777","cwd":"/w","message":{"role":"assistant","content":[{"type":"text","text":"好了"}]}}"#,
];

const BRANCHED: &[&str] = &[
    r#"{"type":"user","uuid":"u1","parentUuid":null,"sessionId":"s","message":{"content":"原始请求"}}"#,
    r#"{"type":"assistant","uuid":"a1","parentUuid":"u1","sessionId":"s","message":{"content":[{"type":"text","text":"被放弃的回答"}]}}"#,
    r#"{"type":"user","uuid":"u1b","parentUuid":null,"sessionId":"s","message":{"content":"编辑后的请求"}}"#,
    r#"{"type":"assistant","uuid":"a2","parentUuid":"u1b","sessionId":"s","message":{"content":[{"type":"text","text":"当前主链的回答"}]}}"#,
];

fn file(lines: &[&str]) -> Vec<u8> {
    lines.iter().map(|line| format!("{line}\n")).collect::<String>().into_bytes()
}

fn plain(entry_type: NormalizedEntryType, content: &str) -> NormalizedEntry {
    NormalizedEntry {
        timestamp: None,
        entry_type,
        content: content.to_string(),
        metadata: None,
    }
}

/// Maps a block as the live view does, as far as these sessions need.
fn map_block(block: &Json, role: &str) -> ClaudeBlock {
    let item = match block.str_field("type").map(String::as_str) {
        Some("text") => Some(ClaudeItem::Text { text: block.str_field_or_empty("text") }),
        Some("tool_use") => Some(ClaudeItem::ToolUse { id: block.str_field_or_empty("id") }),
        Some("tool_result") => Some(ClaudeItem::ToolResult {
            tool_use_id: block.str_field_or_empty("tool_use_id"),
            result: ToolResult {
                value_type: ToolResultValueType::Markdown,
                value: Json::Text(block.str_field_or_empty("content")),
            },
            is_error: block.flag_field("is_error"),
        }),
        Some("thinking") => Some(ClaudeItem::Other),
        _ => None,
    };
    let mapped = if wants_live_mapping(&item, role) {
        match block.str_field("type").map(String::as_str) {
            Some("text") => Some(plain(
                NormalizedEntryType::AssistantMessage,
                &block.str_field_or_empty("text"),
            )),
            Some("thinking") => Some(plain(
                NormalizedEntryType::Thinking,
                &block.str_field_or_empty("thinking"),
            )),
            Some("tool_use") => Some(plain(
                NormalizedEntryType::ToolUse {
                    tool_name: block.str_field_or_empty("name"),
                    action_type: ActionType::CommandRun {
                        command: block.get("input").unwrap().str_field_or_empty("command"),
                        result: None,
                    },
                    status: ToolStatus::Created,
                },
                "call",
            )),
            _ => None,
        }
    } else {
        None
    };
    ClaudeBlock { item, mapped }
}

fn map_blocks(record: &ClaudeRecord) -> Vec<ClaudeBlock> {
    match &record.content {
        RecordContent::Blocks(blocks) => {
            blocks.iter().map(|block| map_block(block, &record.role)).collect()
        }
        _ => Vec::new(),
    }
}

fn read(bytes: Vec<u8>, tail: TailPolicy) -> Result<NativeSessionHistory, NativeHistoryError> {
    let session = ClaudeNativeSessionHistory::open("/s.jsonl", bytes, tail)?;
    let mapped = session.records.iter().map(map_blocks).collect();
    Ok(ClaudeNativeSessionHistory::finish(
        session,
        mapped,
        FileFingerprint::of("/s.jsonl", 1, None),
    ))
}

#[test]
fn native_session_history_claude_maps_main_transcript() {
    let history = read(file(BASIC), TailPolicy::Completed).unwrap();
    assert_eq!(history.session_id, "33333333-4444-5555-6666-777777777777");
    let kinds: Vec<&'static str> = history
        .entries
        .iter()
        .map(|entry| match &entry.entry_type {
            NormalizedEntryType::UserMessage => "user",
            NormalizedEntryType::AssistantMessage => "assistant",
            NormalizedEntryType::Thinking => "thinking",
            NormalizedEntryType::ToolUse { .. } => "tool",
            _ => "other",
        })
        .collect();
    // queue-operation/meta/sidechain records are excluded.
    assert_eq!(kinds, vec!["user", "thinking", "tool", "assistant"]);
    let NormalizedEntryType::ToolUse { tool_name, action_type, status } =
        &history.entries[2].entry_type
    else {
        panic!("expected tool use entry");
    };
    assert_eq!(tool_name, "Bash");
    assert!(matches!(status, ToolStatus::Success));
    let ActionType::CommandRun { command, result } = action_type else {
        panic!("expected command run");
    };
    assert_eq!(command, "ls docs");
    assert!(result
        .as_ref()
        .and_then(|result| result.output.as_deref())
        .is_some_and(|output| output.contains("README.md")));
}

#[test]
fn native_session_history_claude_is_deterministic() {
    let a = read(file(BASIC), TailPolicy::Completed).unwrap();
    let b = read(file(BASIC), TailPolicy::Completed).unwrap();
    assert_eq!(a.entries, b.entries);
}

#[test]
fn native_session_history_claude_follows_main_chain() {
    let history = read(file(BRANCHED), TailPolicy::Completed).unwrap();
    let texts: Vec<&str> = history.entries.iter().map(|entry| entry.content.as_str()).collect();
    // The leaf is a2, so the chain is u1b -> a2; the abandoned branch never appears.
    assert_eq!(texts, vec!["编辑后的请求", "当前主链的回答"]);
}

#[test]
fn native_session_history_claude_tail_policies() {
    let mut bytes = file(BASIC);
    bytes.pop();
    assert!(read(bytes.clone(), TailPolicy::Running).unwrap().partial_tail);
    let err = read(bytes, TailPolicy::Completed).unwrap_err();
    assert_eq!(err.code(), NativeHistoryErrorCode::NativeSessionCorrupt);
}

fn record(uuid: &str, parent: Option<&str>) -> Json {
    let mut fields = vec![("uuid".to_string(), Json::Text(uuid.into()))];
    if let Some(parent) = parent {
        fields.push(("parentUuid".to_string(), Json::Text(parent.into())));
    }
    Json::Object(fields)
}

#[test]
fn chains_end_at_the_root_and_cycles_are_refused() {
    let chain = main_chain(&vec![
        record("a", None),
        record("b", Some("a")),
        record("c", Some("missing")),
        record("d", Some("b")),
    ])
    .unwrap();
    let ids: Vec<String> = chain.iter().map(|record| record.str_field_or_empty("uuid")).collect();
    assert_eq!(ids, vec!["a", "b", "d"]);
    assert!(main_chain(&vec![record("a", Some("b")), record("b", Some("a"))]).is_none());
    let unlinked = vec![Json::Object(Vec::new()), Json::Null];
    assert_eq!(main_chain(&unlinked).unwrap(), unlinked);
    let cycle = [
        r#"{"type":"user","uuid":"a","parentUuid":"a","sessionId":"s","message":{"content":"x"}}"#,
    ];
    assert_eq!(
        read(file(&cycle), TailPolicy::Completed).unwrap_err().message(),
        "corrupt native session file /s.jsonl: parentUuid links form a cycle"
    );
}

#[test]
fn sessions_are_found_by_content() {
    assert_eq!(
        file_contains_session("/s.jsonl", file(BRANCHED), "s").unwrap(),
        true
    );
    assert_eq!(
        file_contains_session("/s.jsonl", file(BRANCHED), "other").unwrap(),
        false
    );
    let found = ClaudeNativeSessionHistory::locate(
        "s",
        Some("/root".into()),
        Some(SessionCandidate { path: "/root/s.jsonl".into(), contains: Ok(true) }),
    );
    assert_eq!(found.unwrap(), "/root/s.jsonl");
    assert!(ClaudeNativeSessionHistory::locate("s", Some("/root".into()), None).is_err());
    assert_eq!(
        ClaudeNativeSessionHistory::locate("s", None, None),
        Err(NativeHistoryError::FormatUnsupported(
            "cannot determine projects root (no home directory)".into()
        ))
    );
    let no_id = [r#"{"type":"user","message":{"content":"x"}}"#];
    assert_eq!(
        read(file(&no_id), TailPolicy::Completed).unwrap_err().code(),
        NativeHistoryErrorCode::NativeSessionCorrupt
    );
}

#[test]
fn the_first_project_with_the_file_is_taken() {
    let entry = |path: &str, is_directory: bool, has_session_file: bool| ProjectEntry {
        path: path.into(),
        is_directory,
        has_session_file,
    };
    assert_eq!(session_file_name("s"), "s.jsonl");
    let entries = vec![
        entry("/p/plain", false, true),
        entry("/p/empty", true, false),
        entry("/p/a", true, true),
        entry("/p/b", true, true),
    ];
    assert_eq!(find_session_file(&entries, "s").as_deref(), Some("/p/a/s.jsonl"));
    assert_eq!(find_session_file(&Vec::new(), "s"), None);
}

#[test]
fn failed_and_missing_results_mark_calls_as_failed() {
    let call = |id: &str| ClaudeBlock {
        item: Some(ClaudeItem::ToolUse { id: id.into() }),
        mapped: Some(plain(
            NormalizedEntryType::ToolUse {
                tool_name: "Bash".into(),
                action_type: ActionType::CommandRun { command: "x".into(), result: None },
                status: ToolStatus::Created,
            },
            "x",
        )),
    };
    let entries = map_turns(vec![
        ClaudeTurn {
            role: "assistant".into(),
            content: TurnContent::Blocks(vec![call("1"), call("2")]),
        },
        ClaudeTurn {
            role: "user".into(),
            content: TurnContent::Blocks(vec![ClaudeBlock {
                item: Some(ClaudeItem::ToolResult {
                    tool_use_id: "1".into(),
                    result: ToolResult {
                        value_type: ToolResultValueType::Json,
                        value: Json::Bool(true),
                    },
                    is_error: Some(true),
                }),
                mapped: None,
            }]),
        },
    ]);
    for entry in &entries {
        let NormalizedEntryType::ToolUse { status, .. } = &entry.entry_type else {
            panic!("expected tool use entry");
        };
        assert_eq!(*status, ToolStatus::Failed);
    }
    let NormalizedEntryType::ToolUse {
        action_type: ActionType::CommandRun { result: Some(result), .. },
        ..
    } = &entries[0].entry_type
    else {
        panic!("expected a result");
    };
    assert_eq!(result.output.as_deref(), Some("true"));
}

#[test]
fn calls_whose_id_is_missing_or_used_again_have_failed() {
    let call = |id: &str| ClaudeBlock {
        item: Some(ClaudeItem::ToolUse { id: id.into() }),
        mapped: Some(plain(
            NormalizedEntryType::ToolUse {
                tool_name: "Bash".into(),
                action_type: ActionType::CommandRun { command: "x".into(), result: None },
                status: ToolStatus::Created,
            },
            "x",
        )),
    };
    let mut undecoded = call("");
    undecoded.item = None;
    let mut other = call("");
    other.item = Some(ClaudeItem::Other);
    let entries = map_turns(vec![ClaudeTurn {
        role: "assistant".into(),
        content: TurnContent::Blocks(vec![call("1"), call("1"), call(""), other, undecoded]),
    }]);
    assert!(entries.len() >= 3);
    for entry in &entries {
        assert!(matches!(
            entry.entry_type,
            NormalizedEntryType::ToolUse { status: ToolStatus::Failed, .. }
        ));
    }
}

#[test]
fn records_become_turns_with_their_own_blocks() {
    let session =
        ClaudeNativeSessionHistory::open("/s.jsonl", file(BASIC), TailPolicy::Completed).unwrap();
    let mapped: Vec<Vec<ClaudeBlock>> = session.records.iter().map(map_blocks).collect();
    let counts: Vec<usize> = mapped.iter().map(Vec::len).collect();
    let turns = make_turns(&session.records, mapped);
    assert_eq!(turns.len(), session.records.len());
    for (i, turn) in turns.iter().enumerate() {
        assert_eq!(turn.role, session.records[i].role);
        match (&turn.content, &session.records[i].content) {
            (TurnContent::Text(text), RecordContent::Text(own)) => assert_eq!(text, own),
            (TurnContent::Blocks(blocks), RecordContent::Blocks(own)) => {
                assert_eq!(blocks.len(), own.len());
                assert_eq!(blocks.len(), counts[i]);
            }
            (TurnContent::Nothing, RecordContent::Nothing) => {}
            other => panic!("unexpected turn: {other:?}"),
        }
    }
    let bare = make_turns(&session.records, Vec::new());
    assert!(bare.iter().any(|turn| turn.content == TurnContent::Blocks(Vec::new())));
}
