//! Error model, session-file reader and provider registry.

use kanban_core::entries::BaseCodingAgent;
use kanban_core::history::{
    native_history_provider, read_native_jsonl, FileFingerprint, NativeHistoryError,
    NativeHistoryErrorCode, NativeSessionHistoryProvider, TailPolicy,
};
use kanban_core::routes::conversation_history::{FailureContext, NativeHistoryApiError};

const PARTIAL: &str = "{\"type\":\"a\"}\n{\"type\":\"b\"}\n{\"type\":\"c";

#[test]
fn native_session_history_error_codes_are_stable() {
    assert_eq!(
        NativeHistoryError::SessionIdMissing.code().as_str(),
        "native_session_id_missing"
    );
    assert_eq!(
        NativeHistoryError::FileNotFound {
            session_id: "s".into(),
            root: "/x".into()
        }
        .code()
        .as_str(),
        "native_session_file_not_found"
    );
    assert!(NativeHistoryError::NotFlushed("s".into()).retryable());
    assert!(!NativeHistoryError::SessionIdMissing.retryable());
}

#[test]
fn native_session_history_jsonl_tail_policies() {
    let running =
        read_native_jsonl("/s.jsonl", PARTIAL.as_bytes().to_vec(), TailPolicy::Running).unwrap();
    assert!(running.partial_tail);
    assert_eq!(running.lines.len(), 2);

    let err = read_native_jsonl("/s.jsonl", PARTIAL.as_bytes().to_vec(), TailPolicy::Completed)
        .unwrap_err();
    assert_eq!(err.code(), NativeHistoryErrorCode::NativeSessionCorrupt);
}

#[test]
fn complete_files_keep_every_line_but_blank_ones() {
    let bytes = b"{\"a\":1}\n\n  \r\n{\"b\":2}\r\n".to_vec();
    let content = read_native_jsonl("/s.jsonl", bytes, TailPolicy::Completed).unwrap();
    assert!(!content.partial_tail);
    assert_eq!(content.lines, vec!["{\"a\":1}", "{\"b\":2}"]);

    let empty = read_native_jsonl("/s.jsonl", Vec::new(), TailPolicy::Completed).unwrap();
    assert!(empty.lines.is_empty() && !empty.partial_tail);
}

#[test]
fn files_that_are_not_text_are_corrupt() {
    let err =
        read_native_jsonl("/s.jsonl", vec![0xff, 0xfe, b'\n'], TailPolicy::Running).unwrap_err();
    assert_eq!(err.code(), NativeHistoryErrorCode::NativeSessionCorrupt);
}

#[test]
fn native_session_history_fingerprint_is_deterministic() {
    let a = FileFingerprint::of("/s.jsonl", 13, Some((1_780_000_000, 500_000_000)));
    let b = FileFingerprint::of("/s.jsonl", 13, Some((1_780_000_000, 500_000_000)));
    assert_eq!(a, b);
    assert_eq!(a.modified_ms, Some(1_780_000_000_500));
    let after = FileFingerprint::of("/s.jsonl", 26, Some((1_780_000_000, 500_000_000)));
    assert_ne!(a, after);
    assert!(a.same_as(&b) && !a.same_as(&after));
    assert_eq!(FileFingerprint::of("/s.jsonl", 13, None).modified_ms, None);
}

#[test]
fn messages_name_what_went_wrong() {
    let missing = NativeHistoryError::FileNotFound {
        session_id: "s-1".into(),
        root: "/root".into(),
    };
    assert_eq!(
        missing.message(),
        "native session file for session `s-1` not found under /root"
    );
    assert_eq!(
        NativeHistoryError::from_io(true, "denied", "/p").code(),
        NativeHistoryErrorCode::NativeSessionPermissionDenied
    );
    assert_eq!(
        NativeHistoryError::from_io(false, "gone", "/p").message(),
        "corrupt native session file /p: gone"
    );
    assert_eq!(
        NativeHistoryError::FormatUnsupported("x".into()).code().as_str(),
        "native_session_format_unsupported"
    );
    assert_eq!(
        NativeHistoryError::PermissionDenied { path: "/p".into() }.message(),
        "permission denied reading native session file /p"
    );
    assert_eq!(
        NativeHistoryError::SessionIdMissing.message(),
        "no agent session id recorded for this session"
    );
}

#[test]
fn every_agent_has_its_provider() {
    for agent in [
        BaseCodingAgent::Pi,
        BaseCodingAgent::Codex,
        BaseCodingAgent::ClaudeCode,
    ] {
        assert_eq!(native_history_provider(agent).agent(), agent);
    }
}

#[test]
fn native_history_error_response_carries_code_and_retryable() {
    let response =
        NativeHistoryApiError(NativeHistoryError::NotFlushed("s-1".into())).into_response();
    assert_eq!(response.status, 409);
    assert_eq!(response.body.code, "native_session_not_flushed");
    assert!(response.body.retryable);

    let response = NativeHistoryApiError(NativeHistoryError::FormatUnsupported(
        "executor 'GEMINI' is not supported".into(),
    ))
    .into_response();
    assert_eq!(response.status, 500);
    assert!(!response.body.retryable);
    assert_eq!(
        response.body.message,
        "unsupported native session format: executor 'GEMINI' is not supported"
    );

    let response = NativeHistoryApiError(NativeHistoryError::SessionIdMissing).into_response();
    assert_eq!(response.status, 404);
}

#[test]
fn replies_show_neither_whole_ids_nor_directories() {
    let message = |error: NativeHistoryError| NativeHistoryApiError(error).into_response().body.message;
    assert_eq!(
        message(NativeHistoryError::FileNotFound {
            session_id: "11111111-2222-3333-4444-555566667777".into(),
            root: "/home/someone/.pi/agent/sessions".into(),
        }),
        "native session file for session `66667777` not found under …/sessions"
    );
    assert_eq!(
        message(NativeHistoryError::NotFlushed("11111111-2222-3333-4444-555566667777".into())),
        "agent has not finished persisting session `66667777`"
    );
    assert_eq!(
        message(NativeHistoryError::PermissionDenied {
            path: "/home/someone/s/t_11111111-2222-3333-4444-555566667777.jsonl".into(),
        }),
        "permission denied reading native session file …/66667777.jsonl"
    );
    assert_eq!(
        message(NativeHistoryError::Corrupt { path: "/home/someone/s.jsonl".into(), reason: "r".into() }),
        "corrupt native session file …/s.jsonl: r"
    );
    assert_eq!(
        message(NativeHistoryError::Corrupt { path: "<db>".into(), reason: "r".into() }),
        "corrupt native session file <db>: r"
    );
}

#[test]
fn replies_name_agent_session_and_raw_logs() {
    let context = || FailureContext {
        agent: Some(BaseCodingAgent::Codex),
        session_id: Some("11111111-2222-3333-4444-555566667777".into()),
        process_id: Some(9),
    };
    let body = NativeHistoryApiError(NativeHistoryError::FormatUnsupported("r".into()))
        .into_response_about(context())
        .body;
    assert_eq!(body.agent, Some(BaseCodingAgent::Codex));
    assert_eq!(body.session_id.as_deref(), Some("66667777"));
    assert_eq!(body.root, None);
    assert_eq!(body.raw_logs_process_id, Some(9));

    let body = NativeHistoryApiError(NativeHistoryError::FileNotFound {
        session_id: "abcdefghijkl".into(),
        root: "/home/someone/sessions".into(),
    })
    .into_response_about(context())
    .body;
    assert_eq!(body.session_id.as_deref(), Some("efghijkl"));
    assert_eq!(body.root.as_deref(), Some("…/sessions"));

    let body = NativeHistoryApiError(NativeHistoryError::SessionIdMissing).into_response().body;
    assert_eq!((body.agent, body.session_id, body.raw_logs_process_id), (None, None, None));
}
