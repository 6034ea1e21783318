//! Native session histories: the error model, the session-file reader and the
//! registry of providers.
//!
//! A completed conversation is read from the file that the agent itself
//! persisted, never rebuilt from its raw output.

use vstd::prelude::*;
use vstd::utf8::{decode_utf8, valid_utf8};

use crate::claude::history::ClaudeNativeSessionHistory;
use crate::codex::history::CodexNativeSessionHistory;
use crate::entries::{entry_views, BaseCodingAgent, EntryView, NormalizedEntry};
use crate::pi::history::PiNativeSessionHistory;
use crate::text::{
    concat2, concat3, concat4, keep_nonblank, law_blank_lines_are_dropped,
    law_lines_end_in_line_feeds, lemma_nonblank_prefix, lemma_terminated_lines_prefix,
    lemma_unterminated_tail, lines_with_end, nonblank_lines, terminated_lines, trimmed, utf8_text,
    views,
};

verus! {

/// Stable machine-readable error codes for native history failures.
///
/// These cross the API boundary; keep them snake_case and append-only.
#[derive(Clone, Copy, Debug, PartialEq, Eq, Structural)]
pub enum NativeHistoryErrorCode {
    NativeSessionIdMissing,
    NativeSessionFileNotFound,
    NativeSessionPermissionDenied,
    NativeSessionFormatUnsupported,
    NativeSessionCorrupt,
    NativeSessionNotFlushed,
}

/// The text of an error code.
pub open spec fn code_text(code: NativeHistoryErrorCode) -> Seq<char> {
    match code {
        NativeHistoryErrorCode::NativeSessionIdMissing => "native_session_id_missing"@,
        NativeHistoryErrorCode::NativeSessionFileNotFound => "native_session_file_not_found"@,
        NativeHistoryErrorCode::NativeSessionPermissionDenied =>
            "native_session_permission_denied"@,
        NativeHistoryErrorCode::NativeSessionFormatUnsupported =>
            "native_session_format_unsupported"@,
        NativeHistoryErrorCode::NativeSessionCorrupt => "native_session_corrupt"@,
        NativeHistoryErrorCode::NativeSessionNotFlushed => "native_session_not_flushed"@,
    }
}

impl NativeHistoryErrorCode {
    /// The text of this code.
    pub fn as_str(&self) -> (text: &'static str)
        ensures
            text@ == code_text(*self),
    {
        match self {
            Self::NativeSessionIdMissing => "native_session_id_missing",
            Self::NativeSessionFileNotFound => "native_session_file_not_found",
            Self::NativeSessionPermissionDenied => "native_session_permission_denied",
            Self::NativeSessionFormatUnsupported => "native_session_format_unsupported",
            Self::NativeSessionCorrupt => "native_session_corrupt",
            Self::NativeSessionNotFlushed => "native_session_not_flushed",
        }
    }
}

/// Different error codes have different texts, so a client can tell them
/// apart by the text alone.
pub proof fn law_code_texts_are_distinct(left: NativeHistoryErrorCode, right: NativeHistoryErrorCode)
    ensures
        code_text(left) == code_text(right) ==> left == right,
{
    reveal_strlit("native_session_id_missing");
    assert("native_session_id_missing"@.len() == 25);
    reveal_strlit("native_session_file_not_found");
    assert("native_session_file_not_found"@.len() == 29);
    reveal_strlit("native_session_permission_denied");
    assert("native_session_permission_denied"@.len() == 32);
    reveal_strlit("native_session_format_unsupported");
    assert("native_session_format_unsupported"@.len() == 33);
    reveal_strlit("native_session_corrupt");
    assert("native_session_corrupt"@.len() == 22);
    reveal_strlit("native_session_not_flushed");
    assert("native_session_not_flushed"@.len() == 26);
}

/// Why a native history cannot be read.
#[derive(Debug, PartialEq, Eq)]
pub enum NativeHistoryError {
    SessionIdMissing,
    FileNotFound { session_id: String, root: String },
    PermissionDenied { path: String },
    FormatUnsupported(String),
    Corrupt { path: String, reason: String },
    NotFlushed(String),
}

/// Model of [`NativeHistoryError`].
pub enum HistoryFailure {
    SessionIdMissing,
    FileNotFound { session_id: Seq<char>, root: Seq<char> },
    PermissionDenied { path: Seq<char> },
    FormatUnsupported(Seq<char>),
    Corrupt { path: Seq<char>, reason: Seq<char> },
    NotFlushed(Seq<char>),
}

impl View for NativeHistoryError {
    type V = HistoryFailure;

    open spec fn view(&self) -> HistoryFailure {
        match self {
            NativeHistoryError::SessionIdMissing => HistoryFailure::SessionIdMissing,
            NativeHistoryError::FileNotFound { session_id, root } => HistoryFailure::FileNotFound {
                session_id: session_id@,
                root: root@,
            },
            NativeHistoryError::PermissionDenied { path } => HistoryFailure::PermissionDenied {
                path: path@,
            },
            NativeHistoryError::FormatUnsupported(reason) => HistoryFailure::FormatUnsupported(
                reason@,
            ),
            NativeHistoryError::Corrupt { path, reason } => HistoryFailure::Corrupt {
                path: path@,
                reason: reason@,
            },
            NativeHistoryError::NotFlushed(session_id) => HistoryFailure::NotFlushed(session_id@),
        }
    }
}

/// The code of a failure.
pub open spec fn failure_code(failure: HistoryFailure) -> NativeHistoryErrorCode {
    match failure {
        HistoryFailure::SessionIdMissing => NativeHistoryErrorCode::NativeSessionIdMissing,
        HistoryFailure::FileNotFound { .. } => NativeHistoryErrorCode::NativeSessionFileNotFound,
        HistoryFailure::PermissionDenied { .. } =>
            NativeHistoryErrorCode::NativeSessionPermissionDenied,
        HistoryFailure::FormatUnsupported(_) =>
            NativeHistoryErrorCode::NativeSessionFormatUnsupported,
        HistoryFailure::Corrupt { .. } => NativeHistoryErrorCode::NativeSessionCorrupt,
        HistoryFailure::NotFlushed(_) => NativeHistoryErrorCode::NativeSessionNotFlushed,
    }
}

/// The message of a failure.
pub open spec fn failure_message(failure: HistoryFailure) -> Seq<char> {
    match failure {
        HistoryFailure::SessionIdMissing => "no agent session id recorded for this session"@,
        HistoryFailure::FileNotFound { session_id, root } => "native session file for session `"@
            + session_id + "` not found under "@ + root,
        HistoryFailure::PermissionDenied { path } =>
            "permission denied reading native session file "@ + path,
        HistoryFailure::FormatUnsupported(reason) => "unsupported native session format: "@
            + reason,
        HistoryFailure::Corrupt { path, reason } => "corrupt native session file "@ + path + ": "@
            + reason,
        HistoryFailure::NotFlushed(session_id) => "agent has not finished persisting session `"@
            + session_id + "`"@,
    }
}

impl NativeHistoryError {
    /// The stable code of this error.
    pub fn code(&self) -> (code: NativeHistoryErrorCode)
        ensures
            code == failure_code(self@),
    {
        match self {
            Self::SessionIdMissing => NativeHistoryErrorCode::NativeSessionIdMissing,
            Self::FileNotFound { .. } => NativeHistoryErrorCode::NativeSessionFileNotFound,
            Self::PermissionDenied { .. } => NativeHistoryErrorCode::NativeSessionPermissionDenied,
            Self::FormatUnsupported(_) => NativeHistoryErrorCode::NativeSessionFormatUnsupported,
            Self::Corrupt { .. } => NativeHistoryErrorCode::NativeSessionCorrupt,
            Self::NotFlushed(_) => NativeHistoryErrorCode::NativeSessionNotFlushed,
        }
    }

    /// Only `not_flushed` is worth retrying: every other failure is
    /// deterministic.
    pub fn retryable(&self) -> (retryable: bool)
        ensures
            retryable == (self@ is NotFlushed),
    {
        match self {
            Self::NotFlushed(_) => true,
            _ => false,
        }
    }

    /// The message of this error.
    pub fn message(&self) -> (text: String)
        ensures
            text@ == failure_message(self@),
    {
        match self {
            Self::SessionIdMissing => "no agent session id recorded for this session".to_owned(),
            Self::FileNotFound { session_id, root } => concat4(
                "native session file for session `",
                session_id,
                "` not found under ",
                root,
            ),
            Self::PermissionDenied { path } => concat2(
                "permission denied reading native session file ",
                path,
            ),
            Self::FormatUnsupported(reason) => concat2(
                "unsupported native session format: ",
                reason,
            ),
            Self::Corrupt { path, reason } => concat4(
                "corrupt native session file ",
                path,
                ": ",
                reason,
            ),
            Self::NotFlushed(session_id) => concat3(
                "agent has not finished persisting session `",
                session_id,
                "`",
            ),
        }
    }

    /// The error for an I/O failure on `path`: whether the system denied
    /// permission, and the system's message.
    pub fn from_io(permission_denied: bool, message: &str, path: &str) -> (error: Self)
        ensures
            error@ == if permission_denied {
                HistoryFailure::PermissionDenied { path: path@ }
            } else {
                HistoryFailure::Corrupt { path: path@, reason: message@ }
            },
    {
        if permission_denied {
            Self::PermissionDenied { path: path.to_owned() }
        } else {
            Self::Corrupt { path: path.to_owned(), reason: message.to_owned() }
        }
    }

    /// The error for a file that is not what it should be.
    pub fn corrupt(path: &str, reason: &str) -> (error: Self)
        ensures
            error@ == (HistoryFailure::Corrupt { path: path@, reason: reason@ }),
    {
        Self::Corrupt { path: path.to_owned(), reason: reason.to_owned() }
    }
}

/// Whether the producing process is still running. A trailing partial JSONL
/// line means "not flushed yet" while running, but "corrupt" once completed.
#[derive(Clone, Copy, Debug, PartialEq, Eq, Structural)]
pub enum TailPolicy {
    Running,
    Completed,
}

/// Cheap change detector for cache invalidation: no content hashing.
#[derive(Debug, PartialEq, Eq, Hash)]
pub struct FileFingerprint {
    pub path: String,
    pub len: u64,
    /// Milliseconds since the Unix epoch; `None` when the platform has no
    /// modification time, or one before the epoch.
    pub modified_ms: Option<i64>,
}

/// The milliseconds in a duration of seconds and nanoseconds.
pub open spec fn millis(seconds: u64, nanos: u32) -> int {
    seconds * 1000 + nanos / 1_000_000
}

impl FileFingerprint {
    /// The fingerprint of a file of `len` bytes that was last modified that
    /// many seconds and nanoseconds after the Unix epoch.
    pub fn of(path: &str, len: u64, modified: Option<(u64, u32)>) -> (fingerprint: Self)
        ensures
            fingerprint.path@ == path@,
            fingerprint.len == len,
            fingerprint.modified_ms == match modified {
                Some((seconds, nanos)) => Some((millis(seconds, nanos) as u128) as i64),
                None => None,
            },
    {
        let modified_ms: Option<i64> = match modified {
            Some((seconds, nanos)) => {
                let ms: u128 = (seconds as u128) * 1000 + (nanos as u128) / 1_000_000;
                Some(#[verifier::truncate] (ms as i64))
            },
            None => None,
        };
        FileFingerprint { path: path.to_owned(), len, modified_ms }
    }

    /// A fingerprint with the same content.
    pub fn copy(&self) -> (fingerprint: Self)
        ensures
            fingerprint == *self,
    {
        FileFingerprint { path: self.path.clone(), len: self.len, modified_ms: self.modified_ms }
    }

    /// Whether two fingerprints are the same.
    pub fn same_as(&self, other: &FileFingerprint) -> (equal: bool)
        ensures
            equal == (self.path@ == other.path@ && self.len == other.len && self.modified_ms
                == other.modified_ms),
    {
        let same_time = match (self.modified_ms, other.modified_ms) {
            (Some(left), Some(right)) => left == right,
            (None, None) => true,
            _ => false,
        };
        self.path == other.path && self.len == other.len && same_time
    }
}

/// Final, materialized conversation entries converted from a native session
/// file.
#[derive(Debug, PartialEq, Eq)]
pub struct NativeSessionHistory {
    pub agent: BaseCodingAgent,
    pub session_id: String,
    pub entries: Vec<NormalizedEntry>,
    pub fingerprint: FileFingerprint,
    /// The file ended mid-line and the tail was dropped (only possible when
    /// reading with `TailPolicy::Running`).
    pub partial_tail: bool,
}

/// Model of [`NativeSessionHistory`].
pub struct HistoryView {
    pub agent: BaseCodingAgent,
    pub session_id: Seq<char>,
    pub entries: Seq<EntryView>,
    pub fingerprint: FileFingerprint,
    pub partial_tail: bool,
}

impl View for NativeSessionHistory {
    type V = HistoryView;

    open spec fn view(&self) -> HistoryView {
        HistoryView {
            agent: self.agent,
            session_id: self.session_id@,
            entries: entry_views(self.entries@),
            fingerprint: self.fingerprint,
            partial_tail: self.partial_tail,
        }
    }
}

/// The model of a history that was read or could not be.
pub open spec fn history_outcome(outcome: Result<NativeSessionHistory, NativeHistoryError>) -> Result<
    HistoryView,
    HistoryFailure,
> {
    match outcome {
        Ok(history) => Ok(history@),
        Err(error) => Err(error@),
    }
}

/// One provider per supported agent.
pub trait NativeSessionHistoryProvider {
    /// The agent that a provider serves.
    spec fn served_agent(&self) -> BaseCodingAgent;

    /// The agent whose sessions this provider reads.
    fn agent(&self) -> (agent: BaseCodingAgent)
        ensures
            agent == self.served_agent(),
    ;
}

/// A provider, by agent.
#[derive(Debug)]
pub enum NativeHistoryProvider {
    Pi(PiNativeSessionHistory),
    Codex(CodexNativeSessionHistory),
    Claude(ClaudeNativeSessionHistory),
}

impl NativeSessionHistoryProvider for NativeHistoryProvider {
    open spec fn served_agent(&self) -> BaseCodingAgent {
        match self {
            NativeHistoryProvider::Pi(_) => BaseCodingAgent::Pi,
            NativeHistoryProvider::Codex(_) => BaseCodingAgent::Codex,
            NativeHistoryProvider::Claude(_) => BaseCodingAgent::ClaudeCode,
        }
    }

    fn agent(&self) -> (agent: BaseCodingAgent) {
        match self {
            NativeHistoryProvider::Pi(provider) => provider.agent(),
            NativeHistoryProvider::Codex(provider) => provider.agent(),
            NativeHistoryProvider::Claude(provider) => provider.agent(),
        }
    }
}

/// Registry: every supported agent has a provider, which serves that agent.
pub fn native_history_provider(agent: BaseCodingAgent) -> (provider: NativeHistoryProvider)
    ensures
        provider.served_agent() == agent,
{
    match agent {
        BaseCodingAgent::Pi => NativeHistoryProvider::Pi(PiNativeSessionHistory),
        BaseCodingAgent::Codex => NativeHistoryProvider::Codex(CodexNativeSessionHistory),
        BaseCodingAgent::ClaudeCode => NativeHistoryProvider::Claude(ClaudeNativeSessionHistory),
    }
}

/// The lines of a session file.
#[derive(Debug, PartialEq, Eq)]
pub struct JsonlContent {
    pub lines: Vec<String>,
    pub partial_tail: bool,
}

/// Model of [`JsonlContent`].
pub struct JsonlView {
    pub lines: Seq<Seq<char>>,
    pub partial_tail: bool,
}

impl View for JsonlContent {
    type V = JsonlView;

    open spec fn view(&self) -> JsonlView {
        JsonlView { lines: views(self.lines@), partial_tail: self.partial_tail }
    }
}

/// Whether a text ends in the middle of a line.
pub open spec fn has_partial_tail(text: Seq<char>) -> bool {
    text.len() > 0 && text.last() != '\n'
}

/// The records of a session file: the lines that end in a line feed and hold
/// more than white space.
pub open spec fn record_lines(text: Seq<char>) -> Seq<Seq<char>> {
    nonblank_lines(terminated_lines(text))
}

/// What reading the bytes of a session file gives.
pub open spec fn jsonl_outcome(path: Seq<char>, bytes: Seq<u8>, tail: TailPolicy) -> Result<
    JsonlView,
    HistoryFailure,
> {
    if !valid_utf8(bytes) {
        Err(HistoryFailure::Corrupt { path, reason: "file is not valid UTF-8"@ })
    } else if has_partial_tail(decode_utf8(bytes)) && tail == TailPolicy::Completed {
        Err(HistoryFailure::Corrupt { path, reason: "trailing partial JSONL line"@ })
    } else {
        Ok(
            JsonlView {
                lines: record_lines(decode_utf8(bytes)),
                partial_tail: has_partial_tail(decode_utf8(bytes)),
            },
        )
    }
}

/// The model of what reading a session file gave.
pub open spec fn jsonl_view(content: Result<JsonlContent, NativeHistoryError>) -> Result<
    JsonlView,
    HistoryFailure,
> {
    match content {
        Ok(content) => Ok(content@),
        Err(error) => Err(error@),
    }
}

/// Splits the bytes of a JSONL file into its records. A trailing unterminated
/// line is dropped when running, or rejected as corrupt when the process
/// completed.
pub fn read_native_jsonl(path: &str, bytes: Vec<u8>, tail: TailPolicy) -> (content: Result<
    JsonlContent,
    NativeHistoryError,
>)
    ensures
        jsonl_view(content) == jsonl_outcome(path@, bytes@, tail),
{
    let text = match utf8_text(bytes) {
        Some(text) => text,
        None => {
            return Err(NativeHistoryError::corrupt(path, "file is not valid UTF-8"));
        },
    };
    let (terminated, rest) = lines_with_end(&text);
    proof {
        lemma_unterminated_tail(text@);
    }
    let partial_tail = !rest.as_str().is_empty();
    if partial_tail && tail == TailPolicy::Completed {
        return Err(NativeHistoryError::corrupt(path, "trailing partial JSONL line"));
    }
    let lines = keep_nonblank(terminated);
    Ok(JsonlContent { lines, partial_tail })
}

/// What is read of a file while its producer still writes stays the beginning
/// of what is read of it later: appending to a text only adds records.
pub proof fn law_records_only_grow(text: Seq<char>, more: Seq<char>)
    ensures
        record_lines(text).is_prefix_of(record_lines(text + more)),
{
    lemma_terminated_lines_prefix(text, more);
    lemma_nonblank_prefix(terminated_lines(text), terminated_lines(text + more));
}

/// Each failure has its code and its message. The message names the session, the
/// directory or the file that the failure is about, and the reason where there
/// is one.
pub proof fn law_failures_have_codes_and_messages(
    session_id: Seq<char>,
    root: Seq<char>,
    path: Seq<char>,
    reason: Seq<char>,
)
    ensures
        code_text(failure_code(HistoryFailure::SessionIdMissing)) == "native_session_id_missing"@,
        failure_message(HistoryFailure::SessionIdMissing)
            == "no agent session id recorded for this session"@,
        code_text(failure_code((HistoryFailure::FileNotFound { session_id, root })))
            == "native_session_file_not_found"@,
        failure_message((HistoryFailure::FileNotFound { session_id, root }))
            == "native session file for session `"@ + session_id + "` not found under "@ + root,
        code_text(failure_code((HistoryFailure::PermissionDenied { path })))
            == "native_session_permission_denied"@,
        failure_message((HistoryFailure::PermissionDenied { path }))
            == "permission denied reading native session file "@ + path,
        code_text(failure_code(HistoryFailure::FormatUnsupported(reason)))
            == "native_session_format_unsupported"@,
        failure_message(HistoryFailure::FormatUnsupported(reason))
            == "unsupported native session format: "@ + reason,
        code_text(failure_code((HistoryFailure::Corrupt { path, reason })))
            == "native_session_corrupt"@,
        failure_message((HistoryFailure::Corrupt { path, reason }))
            == "corrupt native session file "@ + path + ": "@ + reason,
        code_text(failure_code(HistoryFailure::NotFlushed(session_id)))
            == "native_session_not_flushed"@,
        failure_message(HistoryFailure::NotFlushed(session_id))
            == "agent has not finished persisting session `"@ + session_id + "`"@,
{
}

/// A session file that is no UTF-8 is corrupt. One that ends in the middle of a
/// line is corrupt once its agent has ended; while the agent still runs, that line
/// is left out and the rest is read. One that ends in a line feed, or is empty, is
/// read whole either way.
pub proof fn law_partial_tails_are_read_while_running(
    path: Seq<char>,
    bytes: Seq<u8>,
    tail: TailPolicy,
)
    ensures
        !valid_utf8(bytes) ==> jsonl_outcome(path, bytes, tail) == Err::<JsonlView, HistoryFailure>(
            (HistoryFailure::Corrupt { path, reason: "file is not valid UTF-8"@ }),
        ),
        valid_utf8(bytes) ==> {
            let text = decode_utf8(bytes);
            let partial = text.len() > 0 && text.last() != '\n';
            &&& partial && tail == TailPolicy::Completed ==> jsonl_outcome(path, bytes, tail)
                == Err::<JsonlView, HistoryFailure>(
                (HistoryFailure::Corrupt { path, reason: "trailing partial JSONL line"@ }),
            )
            &&& !partial || tail == TailPolicy::Running ==> jsonl_outcome(path, bytes, tail)
                == Ok::<JsonlView, HistoryFailure>(
                JsonlView {
                    lines: nonblank_lines(terminated_lines(text)),
                    partial_tail: partial,
                },
            )
        },
{
}

/// A line is one more record exactly where it ends in a line feed and holds more
/// than white space, and it is read as it stands there.
pub proof fn law_lines_are_records(text: Seq<char>, line: Seq<char>)
    requires
        text.len() == 0 || text.last() == '\n',
        !line.contains('\n'),
        line.len() == 0 || line.last() != '\r',
    ensures
        record_lines(text + line) == record_lines(text),
        trimmed(line).len() > 0 ==> record_lines(text + line + seq!['\n']) == record_lines(
            text,
        ).push(line),
        trimmed(line).len() == 0 ==> record_lines(text + line + seq!['\n']) == record_lines(text),
{
    law_lines_end_in_line_feeds(text, line);
    let lines = terminated_lines(text);
    law_blank_lines_are_dropped(lines, seq![line], line);
    assert(lines.push(line) =~= lines + seq![line]);
    assert(nonblank_lines(lines) + seq![line] =~= nonblank_lines(lines).push(line));
    assert(nonblank_lines(lines) + Seq::<Seq<char>>::empty() =~= nonblank_lines(lines));
}

/// The time of a file counts in milliseconds: a second is a thousand of them, a
/// million nanoseconds one, and what is left of a millisecond is dropped.
pub proof fn law_times_count_in_milliseconds(seconds: u64, nanos: u32)
    ensures
        nanos < 1_000_000 ==> millis(seconds, nanos) == seconds * 1000,
        seconds < u64::MAX ==> millis((seconds + 1) as u64, nanos) == millis(seconds, nanos) + 1000,
        nanos <= u32::MAX - 1_000_000 ==> millis(seconds, (nanos + 1_000_000) as u32) == millis(
            seconds,
            nanos,
        ) + 1,
{
}

/// Each provider serves its own agent.
pub proof fn law_providers_serve_their_agents(
    pi: PiNativeSessionHistory,
    codex: CodexNativeSessionHistory,
    cc: ClaudeNativeSessionHistory,
)
    ensures
        NativeHistoryProvider::Pi(pi).served_agent() == BaseCodingAgent::Pi,
        NativeHistoryProvider::Codex(codex).served_agent() == BaseCodingAgent::Codex,
        NativeHistoryProvider::Claude(cc).served_agent() == BaseCodingAgent::ClaudeCode,
        pi.served_agent() == BaseCodingAgent::Pi,
        codex.served_agent() == BaseCodingAgent::Codex,
        cc.served_agent() == BaseCodingAgent::ClaudeCode,
{
}

/// The model of [`NativeHistoryError`] holds what the value does, part by part.
pub proof fn law_model_of_native_history_error(value: NativeHistoryError)
    ensures
        match value {
            NativeHistoryError::SessionIdMissing => value@ == HistoryFailure::SessionIdMissing,
            NativeHistoryError::FileNotFound { session_id, root } =>
                value@ == (HistoryFailure::FileNotFound {
                    session_id: session_id@,
                    root: root@,
                }),
            NativeHistoryError::PermissionDenied { path } =>
                value@ == (HistoryFailure::PermissionDenied {
                    path: path@,
                }),
            NativeHistoryError::FormatUnsupported(reason) =>
                value@ == HistoryFailure::FormatUnsupported( reason@, ),
            NativeHistoryError::Corrupt { path, reason } => value@ == (HistoryFailure::Corrupt {
                path: path@,
                reason: reason@,
            }),
            NativeHistoryError::NotFlushed(session_id) =>
                value@ == HistoryFailure::NotFlushed(session_id@),
        },
{
}

/// The model of [`NativeSessionHistory`] holds what the value does, part by part.
pub proof fn law_model_of_native_session_history(value: NativeSessionHistory)
    ensures
        value@.agent == value.agent,
        value@.session_id == value.session_id@,
        value@.entries == entry_views(value.entries@),
        value@.fingerprint == value.fingerprint,
        value@.partial_tail == value.partial_tail,
{
}

/// The model of [`JsonlContent`] holds what the value does, part by part.
pub proof fn law_model_of_jsonl_content(value: JsonlContent)
    ensures
        value@.lines == views(value.lines@),
        value@.partial_tail == value.partial_tail,
{
}

} // verus!
