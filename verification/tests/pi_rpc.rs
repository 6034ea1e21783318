//! PI's RPC protocol: frames, requests and responses.

use kanban_core::json::Json;
use kanban_core::pi::rpc::{
    classify, conclude_request, decode_failure, excerpt, frame_action, parse_output, FrameAction,
    FrameBuffer, FrameReadResult, OutputKind, PiRpcCommand, PiRpcContextUsage,
    PiRpcExtensionUiOutcome, PiRpcExtensionUiResponse, PiRpcRequest, PiRpcResponse, RequestEnd, RpcRequestId, RpcState,
    MAX_FRAME_BYTES,
};

fn frame(text: &str) -> FrameReadResult {
    FrameReadResult::Frame(text.to_string())
}

/// Reads a response as the application does.
fn decode_response(value: &Json) -> PiRpcResponse {
    PiRpcResponse {
        id: RpcRequestId(value.get("id").and_then(Json::as_i64).unwrap() as u64),
        type_: value.str_field_or_empty("type"),
        command: value.str_field_or_empty("command"),
        success: value.flag_field("success").unwrap(),
        data: value.get("data").map(Json::copy),
        error: value.str_field("error").cloned(),
    }
}

/// Reads the usage of a session as the application does.
fn decode_usage(data: &Json) -> Option<PiRpcContextUsage> {
    let usage = data.get("contextUsage")?;
    let count = |key: &str| usage.get(key).and_then(Json::as_i64).map(|count| count as u32);
    Some(PiRpcContextUsage {
        tokens: count("tokens"),
        context_window: count("contextWindow"),
    })
}

/// The response in a frame, delivered to the request that waits for it.
fn deliver(
    state: &mut RpcState<RpcRequestId>,
    label: &str,
    frame: FrameReadResult,
) -> Result<Json, String> {
    let FrameReadResult::Frame(raw) = frame else {
        panic!("expected a frame");
    };
    let response = match parse_output(&raw).unwrap() {
        OutputKind::Response(value) => decode_response(&value),
        other => panic!("unexpected output: {other:?}"),
    };
    assert_eq!(response.type_, "response");
    assert_eq!(response.command, label);
    let waiting = state.remove(response.id).expect("a request waits for the response");
    conclude_request(label, waiting, RequestEnd::Response(response))
}

/// An event that comes in two chunks, ends in CRLF and holds Unicode line
/// separators is one frame, and the response behind it reaches its request.
#[test]
fn handles_chunked_crlf_and_unicode_separators() {
    let mut state: RpcState<RpcRequestId> = RpcState::new();
    let id = state.next_request_id();
    state.register(id, PiRpcCommand::GetState.label(), id).unwrap();

    let text = "{\"type\":\"message_update\",\"assistantMessageEvent\":{\"type\":\"text_delta\",\"contentIndex\":0,\"delta\":\"line with unicode separator \u{2028} and \u{2029}\"}}";
    let bytes = text.as_bytes();
    let (first, second) = bytes.split_at(bytes.len() / 2);
    let mut buffer = FrameBuffer::new();
    assert!(buffer.feed(first).is_empty());
    assert!(buffer.feed(second).is_empty());
    assert_eq!(buffer.feed(b"\r\n"), vec![frame(text)]);
    match parse_output(text).unwrap() {
        OutputKind::Event(value) => {
            assert_eq!(value.str_field_or_empty("type"), "message_update");
            let event = value.get("assistantMessageEvent").unwrap();
            assert_eq!(event.str_field_or_empty("type"), "text_delta");
            assert_eq!(
                event.str_field("delta").map(String::as_str),
                Some("line with unicode separator \u{2028} and \u{2029}")
            );
        }
        other => panic!("unexpected output: {other:?}"),
    }

    let response = format!(
        "{{\"id\":{},\"type\":\"response\",\"command\":\"get_state\",\"success\":true,\"data\":{{\"sessionId\":\"session-1\",\"isStreaming\":false,\"isCompacting\":false}}}}\n",
        id.0
    );
    let frame = buffer.feed(response.as_bytes()).pop().unwrap();
    let data = deliver(&mut state, PiRpcCommand::GetState.label(), frame).unwrap();
    assert_eq!(data.str_field("sessionId").map(String::as_str), Some("session-1"));
}

/// Responses are matched to requests by id, in whatever order they come.
#[test]
fn resolves_interleaved_response_by_request_id() {
    let mut state: RpcState<RpcRequestId> = RpcState::new();
    let first = state.next_request_id();
    let second = state.next_request_id();
    assert_eq!((first, second), (RpcRequestId(1), RpcRequestId(2)));
    state.register(first, PiRpcCommand::GetState.label(), first).unwrap();
    state.register(second, PiRpcCommand::GetSessionStats.label(), second).unwrap();

    let mut buffer = FrameBuffer::new();
    let stats = format!(
        "{{\"id\":{},\"type\":\"response\",\"command\":\"get_session_stats\",\"success\":true,\"data\":{{\"sessionId\":\"s\",\"tokens\":{{\"input\":1}},\"contextUsage\":{{\"tokens\":1,\"contextWindow\":100,\"percent\":1.0}}}}}}\n",
        second.0
    );
    let frame = buffer.feed(stats.as_bytes()).pop().unwrap();
    let stats = deliver(&mut state, PiRpcCommand::GetSessionStats.label(), frame).unwrap();
    let reply = format!(
        "{{\"id\":{},\"type\":\"response\",\"command\":\"get_state\",\"success\":true,\"data\":{{\"sessionId\":\"s\",\"isStreaming\":false,\"isCompacting\":false}}}}\n",
        first.0
    );
    let frame = buffer.feed(reply.as_bytes()).pop().unwrap();
    let data = deliver(&mut state, PiRpcCommand::GetState.label(), frame).unwrap();

    assert_eq!(data.str_field("sessionId").map(String::as_str), Some("s"));
    assert_eq!(decode_usage(&stats).unwrap().tokens, Some(1));
    assert_eq!(state.remove(first), None);
}

/// The same output gives the same frames however it is cut, also within a
/// character.
#[test]
fn frames_do_not_depend_on_the_cutting() {
    let output = "{\"a\":\"é\u{2028}\"}\r\n\n第二\r\r\n".as_bytes();
    let expected = vec![frame("{\"a\":\"é\u{2028}\"}"), frame(""), frame("第二\r")];
    for size in 1..=output.len() {
        let mut buffer = FrameBuffer::new();
        let mut frames = Vec::new();
        for chunk in output.chunks(size) {
            frames.extend(buffer.feed(chunk));
        }
        assert_eq!(frames, expected);
        assert_eq!(buffer.finish(), vec![FrameReadResult::Eof]);
    }
}

/// A request that times out says so, and after the end of the output requests
/// are refused.
#[test]
fn times_out_and_fails_pending_requests_on_eof() {
    let id = RpcRequestId(1);
    let label = PiRpcCommand::GetCommands.label();
    let err = conclude_request(label, id, RequestEnd::TimedOut).unwrap_err();
    assert!(err.contains("timed out"));

    let mut state: RpcState<u8> = RpcState::new();
    state.register(id, label, 9).unwrap();
    match frame_action(FrameReadResult::Eof) {
        FrameAction::Shutdown { reason } => {
            let failed = state.shutdown(&reason);
            assert_eq!(failed.get(&1), Some(&9));
            assert_eq!(failed.len(), 1);
        }
        other => panic!("unexpected action: {other:?}"),
    }
    let err = state
        .register(RpcRequestId(2), PiRpcCommand::GetEntries.label(), 1)
        .unwrap_err();
    assert!(err.contains("shut down"), "unexpected message: {err}");
    let _ = state.shutdown("later");
    assert_eq!(state.shutdown_reason.as_deref(), Some("stdout EOF"));
}

#[test]
fn several_frames_in_one_chunk_come_out_in_order() {
    let mut buffer = FrameBuffer::new();
    assert_eq!(buffer.feed(b"a\n\nb\nc"), vec![frame("a"), frame(""), frame("b")]);
    assert_eq!(buffer.feed(b"d\n"), vec![frame("cd")]);
    assert_eq!(buffer.finish(), vec![FrameReadResult::Eof]);
    buffer.feed(b"rest");
    assert_eq!(
        buffer.finish(),
        vec![
            FrameReadResult::Malformed { reason: "EOF before LF frame terminator".into() },
            FrameReadResult::Eof
        ]
    );
}

#[test]
fn frames_that_are_too_long_are_dropped() {
    let mut buffer = FrameBuffer::new();
    let long = vec![b'x'; MAX_FRAME_BYTES + 1];
    let frames = buffer.feed(&long);
    assert_eq!(
        frames,
        vec![FrameReadResult::Malformed {
            reason: "RPC frame exceeded 1048576 bytes before LF".into()
        }]
    );
    assert_eq!(buffer.feed(b"ok\n"), vec![frame("ok")]);
    let mut invalid = FrameBuffer::new();
    let frames = invalid.feed(&[0xff, b'\n']);
    assert!(matches!(frames[0], FrameReadResult::Malformed { .. }));
}

#[test]
fn frames_are_logged_and_blank_ones_not_parsed() {
    assert_eq!(
        frame_action(frame(" \t")),
        FrameAction::Log { raw: " \t".into(), parse: false }
    );
    assert_eq!(
        frame_action(frame("{}")),
        FrameAction::Log { raw: "{}".into(), parse: true }
    );
    assert_eq!(
        frame_action(FrameReadResult::Malformed { reason: "r".into() }),
        FrameAction::Warn { reason: "r".into() }
    );
    assert_eq!(
        frame_action(FrameReadResult::Error("io".into())),
        FrameAction::Shutdown { reason: "io".into() }
    );
}

#[test]
fn responses_and_events_are_told_apart() {
    assert!(matches!(
        parse_output("{\"type\":\"response\",\"id\":1}"),
        Ok(OutputKind::Response(_))
    ));
    assert!(matches!(parse_output("{\"type\":\"future\"}"), Ok(OutputKind::Event(_))));
    assert!(matches!(parse_output("[1]"), Ok(OutputKind::Event(_))));
    assert!(parse_output("not json").is_err());
    assert_eq!(classify(Err("bad".into())).unwrap_err(), "bad");
    assert_eq!(excerpt("short"), "short");
    assert_eq!(excerpt(&"é".repeat(300)).chars().count(), 240);
}

fn response(id: u64, success: bool, error: Option<&str>) -> RequestEnd {
    RequestEnd::Response(PiRpcResponse {
        id: RpcRequestId(id),
        type_: "response".into(),
        command: "get_state".into(),
        success,
        data: None,
        error: error.map(str::to_string),
    })
}

#[test]
fn requests_conclude_with_data_or_a_reason() {
    let conclude = |end: RequestEnd| conclude_request("get_state", RpcRequestId(7), end);
    assert_eq!(conclude(response(7, true, None)), Ok(Json::Null));
    assert_eq!(conclude(response(7, false, Some("busy"))), Err("busy".into()));
    assert_eq!(
        conclude(response(7, false, None)),
        Err("get_state request failed without an error message".into())
    );
    assert_eq!(
        conclude(response(8, true, None)),
        Err("response ID mismatch for get_state: expected 7, got 8".into())
    );
    assert_eq!(
        conclude(RequestEnd::Cancelled),
        Err("get_state request cancelled".into())
    );
    assert_eq!(
        conclude(RequestEnd::NotQueued),
        Err("failed to queue get_state request".into())
    );
    assert_eq!(
        conclude(RequestEnd::Dropped),
        Err("RPC response channel dropped while waiting for get_state".into())
    );
    assert_eq!(
        conclude(RequestEnd::Shutdown { reason: "r".into() }),
        Err("RPC client shut down while waiting for get_state: r".into())
    );
    assert_eq!(
        conclude(RequestEnd::Unencodable { message: "m".into() }),
        Err("m".into())
    );
    assert_eq!(
        decode_failure("get_state", "m"),
        "failed to decode get_state response: m"
    );
}

#[test]
fn requests_and_answers_carry_what_they_are_given() {
    let request = PiRpcRequest::new(RpcRequestId(7), PiRpcCommand::Prompt { message: "hello".into() });
    assert_eq!(request.id, RpcRequestId(7));
    assert_eq!(request.command.label(), "prompt");
    assert_eq!(PiRpcCommand::Abort.label(), "abort");
    assert_eq!(PiRpcCommand::GetAvailableThinkingLevels.label(), "get_available_thinking_levels");
    let answer = PiRpcExtensionUiResponse::value("d".into(), "v".into());
    assert_eq!(answer.outcome, PiRpcExtensionUiOutcome::Value { value: "v".into() });
    assert_eq!(
        PiRpcExtensionUiResponse::confirmed("d".into(), true).outcome,
        PiRpcExtensionUiOutcome::Confirmed { confirmed: true }
    );
    let mut state: RpcState<()> = RpcState::new();
    state.next_id = u64::MAX;
    assert_eq!(state.next_request_id(), RpcRequestId(u64::MAX));
    assert_eq!(state.next_request_id(), RpcRequestId(0));
}
