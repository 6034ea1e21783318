//! How a failure to read a conversation is reported to the frontend.

use vstd::prelude::*;

use crate::entries::BaseCodingAgent;
use crate::history::{
    code_text, failure_code, failure_message, HistoryFailure, NativeHistoryError,
};
use crate::text::{
    chars_of, concat2, cut_at_last, last_of, law_last_is_found, opt_view, rsplit_once,
    string_between,
};

verus! {

/// Structured native-history failure. `code` is the stable machine-readable
/// discriminator.
#[derive(Debug, PartialEq, Eq)]
pub struct NativeHistoryErrorResponse {
    pub code: String,
    pub message: String,
    pub retryable: bool,
    /// The agent whose history it is.
    pub agent: Option<BaseCodingAgent>,
    /// The end of the id of the agent's session.
    pub session_id: Option<String>,
    /// The directory in which the session was looked for.
    pub root: Option<String>,
    /// The process whose raw logs show what the history does not.
    pub raw_logs_process_id: Option<u128>,
}

/// What is known of a history that cannot be read.
#[derive(Debug, PartialEq, Eq)]
pub struct FailureContext {
    pub agent: Option<BaseCodingAgent>,
    pub session_id: Option<String>,
    pub process_id: Option<u128>,
}

impl FailureContext {
    /// Nothing is known.
    pub fn unknown() -> (context: Self)
        ensures
            context == (FailureContext { agent: None, session_id: None, process_id: None }),
    {
        FailureContext { agent: None, session_id: None, process_id: None }
    }
}

/// A failure with the HTTP status that it is reported under.
#[derive(Debug, PartialEq, Eq)]
pub struct ErrorReply {
    pub status: u16,
    pub body: NativeHistoryErrorResponse,
}

/// The HTTP status of a failure.
pub open spec fn failure_status(failure: HistoryFailure) -> u16 {
    match failure {
        HistoryFailure::SessionIdMissing => 404,
        HistoryFailure::FileNotFound { .. } => 404,
        HistoryFailure::NotFlushed(_) => 409,
        HistoryFailure::PermissionDenied { .. } => 500,
        HistoryFailure::FormatUnsupported(_) => 500,
        HistoryFailure::Corrupt { .. } => 500,
    }
}

/// How many characters of a session id a reply shows.
pub const SHOWN_ID_CHARS: usize = 8;

/// How many characters of the name of a session file a reply shows: those of
/// the id, and the extension.
pub const SHOWN_FILE_CHARS: usize = 14;

/// The last characters of a text.
pub open spec fn last_chars(text: Seq<char>, count: nat) -> Seq<char> {
    if text.len() <= count {
        text
    } else {
        text.skip(text.len() - count)
    }
}

/// The directory that a reply names, without those that it lies in.
pub open spec fn shown_directory(path: Seq<char>) -> Seq<char> {
    match cut_at_last(path, '/') {
        Some((_, name)) => "…/"@ + name,
        None => path,
    }
}

/// The file that a reply names: the end of its name, without the directories
/// that it lies in. What is no path stays as it is.
pub open spec fn shown_file(path: Seq<char>) -> Seq<char> {
    match cut_at_last(path, '/') {
        Some((_, name)) => "…/"@ + last_chars(name, SHOWN_FILE_CHARS as nat),
        None => path,
    }
}

/// What a reply says of a failure: no session id in full, and no directory of
/// the user.
pub open spec fn shown_failure(failure: HistoryFailure) -> HistoryFailure {
    match failure {
        HistoryFailure::FileNotFound { session_id, root } => HistoryFailure::FileNotFound {
            session_id: last_chars(session_id, SHOWN_ID_CHARS as nat),
            root: shown_directory(root),
        },
        HistoryFailure::NotFlushed(session_id) => HistoryFailure::NotFlushed(
            last_chars(session_id, SHOWN_ID_CHARS as nat),
        ),
        HistoryFailure::PermissionDenied { path } => HistoryFailure::PermissionDenied {
            path: shown_file(path),
        },
        HistoryFailure::Corrupt { path, reason } => HistoryFailure::Corrupt {
            path: shown_file(path),
            reason,
        },
        other => other,
    }
}

/// The session that a reply names: that of the failure, else the one that is
/// known.
pub open spec fn shown_session(failure: HistoryFailure, known: Option<Seq<char>>) -> Option<
    Seq<char>,
> {
    match failure {
        HistoryFailure::FileNotFound { session_id, .. } => Some(
            last_chars(session_id, SHOWN_ID_CHARS as nat),
        ),
        HistoryFailure::NotFlushed(session_id) => Some(
            last_chars(session_id, SHOWN_ID_CHARS as nat),
        ),
        _ => match known {
            Some(session_id) => Some(last_chars(session_id, SHOWN_ID_CHARS as nat)),
            None => None,
        },
    }
}

/// The directory that a reply names as the one that was searched.
pub open spec fn shown_root(failure: HistoryFailure) -> Option<Seq<char>> {
    match failure {
        HistoryFailure::FileNotFound { root, .. } => Some(shown_directory(root)),
        _ => None,
    }
}

fn keep_last(text: &str, count: usize) -> (kept: String)
    ensures
        kept@ == last_chars(text@, count as nat),
{
    let chars = chars_of(text);
    if chars.len() <= count {
        return text.to_owned();
    }
    assert(text@.subrange(text@.len() - count, text@.len() as int) =~= text@.skip(
        text@.len() - count,
    ));
    string_between(&chars, chars.len() - count, chars.len())
}

fn show_directory(path: &str) -> (shown: String)
    ensures
        shown@ == shown_directory(path@),
{
    match rsplit_once(path, '/') {
        Some((_, name)) => concat2("…/", &name),
        None => path.to_owned(),
    }
}

fn show_file(path: &str) -> (shown: String)
    ensures
        shown@ == shown_file(path@),
{
    match rsplit_once(path, '/') {
        Some((_, name)) => {
            let end = keep_last(&name, SHOWN_FILE_CHARS);
            concat2("…/", &end)
        },
        None => path.to_owned(),
    }
}

fn show_failure(error: NativeHistoryError) -> (shown: NativeHistoryError)
    ensures
        shown@ == shown_failure(error@),
{
    match error {
        NativeHistoryError::FileNotFound { session_id, root } => NativeHistoryError::FileNotFound {
            session_id: keep_last(&session_id, SHOWN_ID_CHARS),
            root: show_directory(&root),
        },
        NativeHistoryError::NotFlushed(session_id) => NativeHistoryError::NotFlushed(
            keep_last(&session_id, SHOWN_ID_CHARS),
        ),
        NativeHistoryError::PermissionDenied { path } => NativeHistoryError::PermissionDenied {
            path: show_file(&path),
        },
        NativeHistoryError::Corrupt { path, reason } => NativeHistoryError::Corrupt {
            path: show_file(&path),
            reason,
        },
        other => other,
    }
}

/// A failure on its way to the frontend.
#[derive(Debug, PartialEq, Eq)]
pub struct NativeHistoryApiError(pub NativeHistoryError);

impl NativeHistoryApiError {
    /// The reply that reports this failure where nothing else is known of the
    /// history.
    pub fn into_response(self) -> (reply: ErrorReply)
        ensures
            reply.status == failure_status(self.0@),
            reply.body.code@ == code_text(failure_code(self.0@)),
            reply.body.message@ == failure_message(shown_failure(self.0@)),
            reply.body.retryable == (self.0@ is NotFlushed),
            reply.body.agent is None,
            opt_view(reply.body.session_id) == shown_session(self.0@, None),
            opt_view(reply.body.root) == shown_root(self.0@),
            reply.body.raw_logs_process_id is None,
    {
        self.into_response_about(FailureContext::unknown())
    }

    /// The reply that reports this failure: what failed, of which agent and
    /// session, and the process whose raw logs can be read instead.
    pub fn into_response_about(self, context: FailureContext) -> (reply: ErrorReply)
        ensures
            reply.status == failure_status(self.0@),
            reply.body.code@ == code_text(failure_code(self.0@)),
            reply.body.message@ == failure_message(shown_failure(self.0@)),
            reply.body.retryable == (self.0@ is NotFlushed),
            reply.body.agent == context.agent,
            opt_view(reply.body.session_id) == shown_session(
                self.0@,
                opt_view(context.session_id),
            ),
            opt_view(reply.body.root) == shown_root(self.0@),
            reply.body.raw_logs_process_id == context.process_id,
    {
        let status: u16 = match &self.0 {
            NativeHistoryError::SessionIdMissing => 404,
            NativeHistoryError::FileNotFound { .. } => 404,
            NativeHistoryError::NotFlushed(_) => 409,
            NativeHistoryError::PermissionDenied { .. } => 500,
            NativeHistoryError::FormatUnsupported(_) => 500,
            NativeHistoryError::Corrupt { .. } => 500,
        };
        let (session_id, root) = match &self.0 {
            NativeHistoryError::FileNotFound { session_id, root } => (
                Some(keep_last(session_id, SHOWN_ID_CHARS)),
                Some(show_directory(root)),
            ),
            NativeHistoryError::NotFlushed(session_id) => (
                Some(keep_last(session_id, SHOWN_ID_CHARS)),
                None,
            ),
            _ => (
                match &context.session_id {
                    Some(session_id) => Some(keep_last(session_id, SHOWN_ID_CHARS)),
                    None => None,
                },
                None,
            ),
        };
        let code = self.0.code().as_str().to_owned();
        let retryable = self.0.retryable();
        let message = show_failure(self.0).message();
        ErrorReply {
            status,
            body: NativeHistoryErrorResponse {
                code,
                message,
                retryable,
                agent: context.agent,
                session_id,
                root,
                raw_logs_process_id: context.process_id,
            },
        }
    }
}

/// A reply shows at most the end of a session id, and of a path that leads
/// through directories only where it ends: two failures that agree on these are
/// reported alike.
pub proof fn law_replies_hide_ids_and_directories(
    id: Seq<char>,
    other_id: Seq<char>,
    directory: Seq<char>,
    other_directory: Seq<char>,
    name: Seq<char>,
)
    requires
        last_chars(id, SHOWN_ID_CHARS as nat) == last_chars(other_id, SHOWN_ID_CHARS as nat),
        !name.contains('/'),
    ensures
        shown_failure(
            (HistoryFailure::FileNotFound {
                session_id: id,
                root: directory + seq!['/'] + name,
            }),
        ) == shown_failure(
            (HistoryFailure::FileNotFound {
                session_id: other_id,
                root: other_directory + seq!['/'] + name,
            }),
        ),
        shown_root(
            (HistoryFailure::FileNotFound {
                session_id: id,
                root: directory + seq!['/'] + name,
            }),
        ) == shown_root(
            (HistoryFailure::FileNotFound {
                session_id: other_id,
                root: other_directory + seq!['/'] + name,
            }),
        ),
        shown_failure(HistoryFailure::NotFlushed(id)) == shown_failure(
            HistoryFailure::NotFlushed(other_id),
        ),
        forall|failure: HistoryFailure|
            shown_session(failure, Some(id)) == #[trigger] shown_session(failure, Some(other_id)),
        shown_failure(
            (HistoryFailure::PermissionDenied { path: directory + seq!['/'] + name }),
        ) == shown_failure(
            (HistoryFailure::PermissionDenied { path: other_directory + seq!['/'] + name }),
        ),
        forall|reason: Seq<char>|
            shown_failure(
                (HistoryFailure::Corrupt { path: directory + seq!['/'] + name, reason }),
            ) == #[trigger] shown_failure(
                (HistoryFailure::Corrupt { path: other_directory + seq!['/'] + name, reason }),
            ),
{
    lemma_last_component(directory, name);
    lemma_last_component(other_directory, name);
}

proof fn lemma_last_component(directory: Seq<char>, name: Seq<char>)
    requires
        !name.contains('/'),
    ensures
        cut_at_last(directory + seq!['/'] + name, '/') == Some((directory, name)),
{
    let path = directory + seq!['/'] + name;
    lemma_last_slash(directory, name);
    assert(path.take(directory.len() as int) =~= directory);
    assert(path.skip(directory.len() as int + 1) =~= name);
}

proof fn lemma_last_slash(directory: Seq<char>, name: Seq<char>)
    requires
        !name.contains('/'),
    ensures
        last_of(directory + seq!['/'] + name, '/') == Some(directory.len() as int),
    decreases name.len(),
{
    let path = directory + seq!['/'] + name;
    if name.len() > 0 {
        let shorter = name.drop_last();
        assert(!shorter.contains('/')) by {
            if shorter.contains('/') {
                let k = choose|k: int| 0 <= k < shorter.len() && shorter[k] == '/';
                assert(name[k] == '/');
            }
        }
        lemma_last_slash(directory, shorter);
        assert(path.drop_last() =~= directory + seq!['/'] + shorter);
        assert(path.last() == name[name.len() - 1]);
    }
}

/// A reply names no more of a session than the end of its id.
pub proof fn law_shown_sessions_are_short(failure: HistoryFailure, known: Option<Seq<char>>)
    ensures
        shown_session(failure, known) matches Some(shown) ==> shown.len() <= SHOWN_ID_CHARS,
{
}

/// A conflict is reported exactly where trying again may help.
pub proof fn law_conflict_means_retryable(failure: HistoryFailure)
    ensures
        failure_status(failure) == 409 <==> failure is NotFlushed,
{
}

/// Each failure has its HTTP status: what is missing is not found, what is not
/// written yet is a conflict, and everything else is an error of the server.
pub proof fn law_failures_have_statuses(
    session_id: Seq<char>,
    root: Seq<char>,
    path: Seq<char>,
    reason: Seq<char>,
)
    ensures
        failure_status(HistoryFailure::SessionIdMissing) == 404,
        failure_status((HistoryFailure::FileNotFound { session_id, root })) == 404,
        failure_status(HistoryFailure::NotFlushed(session_id)) == 409,
        failure_status((HistoryFailure::PermissionDenied { path })) == 500,
        failure_status(HistoryFailure::FormatUnsupported(reason)) == 500,
        failure_status((HistoryFailure::Corrupt { path, reason })) == 500,
{
}

/// A reply shows the last eight characters of a session id, the directory that
/// was searched by its name, and of a file the last fourteen characters of its
/// name: those of the id and the extension. The reason of a failure is shown as it
/// is.
pub proof fn law_replies_show_where_it_ends(
    hidden: Seq<char>,
    id_end: Seq<char>,
    directory: Seq<char>,
    name: Seq<char>,
    file_end: Seq<char>,
    reason: Seq<char>,
)
    requires
        id_end.len() == 8,
        file_end.len() == 14,
        !name.contains('/'),
        !hidden.contains('/'),
        !file_end.contains('/'),
    ensures
        shown_failure(
            (HistoryFailure::FileNotFound {
                session_id: hidden + id_end,
                root: directory + seq!['/'] + name,
            }),
        ) == (HistoryFailure::FileNotFound { session_id: id_end, root: "…/"@ + name }),
        shown_failure(HistoryFailure::NotFlushed(hidden + id_end)) == HistoryFailure::NotFlushed(
            id_end,
        ),
        shown_failure(
            (HistoryFailure::PermissionDenied {
                path: directory + seq!['/'] + (hidden + file_end),
            }),
        ) == (HistoryFailure::PermissionDenied { path: "…/"@ + file_end }),
        shown_failure(
            (HistoryFailure::Corrupt {
                path: directory + seq!['/'] + (hidden + file_end),
                reason,
            }),
        ) == (HistoryFailure::Corrupt { path: "…/"@ + file_end, reason }),
        shown_failure(HistoryFailure::FormatUnsupported(reason))
            == HistoryFailure::FormatUnsupported(reason),
        shown_failure(HistoryFailure::SessionIdMissing) == HistoryFailure::SessionIdMissing,
{
    let file = hidden + file_end;
    lemma_last_component(directory, name);
    assert(!file.contains('/')) by {
        if file.contains('/') {
            let k = choose|k: int| 0 <= k < file.len() && file[k] == '/';
            if k < hidden.len() {
                assert(hidden[k] == '/');
            } else {
                assert(file_end[k - hidden.len()] == '/');
            }
        }
    }
    lemma_last_component(directory, file);
    assert((hidden + id_end).skip(hidden.len() as int) =~= id_end);
    assert(hidden.len() == 0 ==> hidden + id_end =~= id_end);
    assert(file.skip(hidden.len() as int) =~= file_end);
    assert(hidden.len() == 0 ==> file =~= file_end);
}

/// What is short enough, or is no path, is shown as it is.
pub proof fn law_short_names_are_shown_whole(id: Seq<char>, path: Seq<char>, reason: Seq<char>)
    requires
        id.len() <= 8,
        !path.contains('/'),
    ensures
        shown_failure((HistoryFailure::FileNotFound { session_id: id, root: path })) == (
        HistoryFailure::FileNotFound { session_id: id, root: path }),
        shown_failure(HistoryFailure::NotFlushed(id)) == HistoryFailure::NotFlushed(id),
        shown_failure((HistoryFailure::PermissionDenied { path })) == (
        HistoryFailure::PermissionDenied { path }),
        shown_failure((HistoryFailure::Corrupt { path, reason })) == (HistoryFailure::Corrupt {
            path,
            reason,
        }),
{
    law_last_is_found(path, '/');
    if let Some(at) = last_of(path, '/') {
        assert(path.contains(path[at]));
    }
}

/// A reply names the session that the failure is about, and else the one that is
/// known; the directory that was searched is named only where a file was not
/// found in it.
pub proof fn law_replies_name_the_session(
    session_id: Seq<char>,
    root: Seq<char>,
    path: Seq<char>,
    reason: Seq<char>,
    known: Option<Seq<char>>,
    id: Seq<char>,
)
    requires
        session_id.len() <= 8,
        id.len() <= 8,
        !root.contains('/'),
    ensures
        shown_session((HistoryFailure::FileNotFound { session_id, root }), known) == Some(
            session_id,
        ),
        shown_session(HistoryFailure::NotFlushed(session_id), known) == Some(session_id),
        shown_session(HistoryFailure::SessionIdMissing, Some(id)) == Some(id),
        shown_session((HistoryFailure::PermissionDenied { path }), Some(id)) == Some(id),
        shown_session(HistoryFailure::FormatUnsupported(reason), Some(id)) == Some(id),
        shown_session((HistoryFailure::Corrupt { path, reason }), Some(id)) == Some(id),
        shown_session(HistoryFailure::SessionIdMissing, None) is None,
        shown_session((HistoryFailure::PermissionDenied { path }), None) is None,
        shown_session(HistoryFailure::FormatUnsupported(reason), None) is None,
        shown_session((HistoryFailure::Corrupt { path, reason }), None) is None,
        shown_root((HistoryFailure::FileNotFound { session_id, root })) == Some(root),
        shown_root(HistoryFailure::NotFlushed(session_id)) is None,
        shown_root(HistoryFailure::SessionIdMissing) is None,
        shown_root((HistoryFailure::PermissionDenied { path })) is None,
        shown_root(HistoryFailure::FormatUnsupported(reason)) is None,
        shown_root((HistoryFailure::Corrupt { path, reason })) is None,
{
    law_short_names_are_shown_whole(session_id, root, reason);
}

} // verus!
