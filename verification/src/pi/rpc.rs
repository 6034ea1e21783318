//! PI's RPC protocol: JSON frames separated by line feeds, requests matched to
//! responses by id.

use std::collections::HashMap;

use vstd::prelude::*;
use vstd::utf8::{
    decode_utf8, is_char_boundary_iff_not_is_continuation_byte, is_continuation_byte,
    pop_first_scalar, valid_utf8, valid_utf8_split,
};

use crate::json::{
    json_outcome, outcome_view, parse_json, string_field, string_field_or_empty, Json, JsonView,
};
use crate::text::{
    chars_of, concat2, concat3, concat4, concat5, decimal, decimal_text, decode_bytes, is_blank,
    opt_view, same, string_between, trimmed, utf8_error_text,
};

verus! {

broadcast use vstd::std_specs::hash::group_hash_axioms;

/// Longest frame, in bytes.
pub const MAX_FRAME_BYTES: usize = 1_048_576;

/// Most characters of a malformed frame that a warning shows.
pub const EXCERPT_CHARS: usize = 240;

// ---------------------------------------------------------------------------
// Messages
// ---------------------------------------------------------------------------

/// Identifies a request.
#[derive(Clone, Copy, Debug, PartialEq, Eq, Hash, Structural)]
pub struct RpcRequestId(pub u64);

/// What PI can be asked.
#[derive(Debug, PartialEq, Eq)]
pub enum PiRpcCommand {
    Prompt { message: String },
    Abort,
    GetState,
    GetSessionStats,
    GetEntries,
    GetAvailableModels,
    GetAvailableThinkingLevels,
    GetCommands,
}

/// The name of a command.
pub open spec fn command_label(command: PiRpcCommand) -> Seq<char> {
    match command {
        PiRpcCommand::Prompt { .. } => "prompt"@,
        PiRpcCommand::Abort => "abort"@,
        PiRpcCommand::GetState => "get_state"@,
        PiRpcCommand::GetSessionStats => "get_session_stats"@,
        PiRpcCommand::GetEntries => "get_entries"@,
        PiRpcCommand::GetAvailableModels => "get_available_models"@,
        PiRpcCommand::GetAvailableThinkingLevels => "get_available_thinking_levels"@,
        PiRpcCommand::GetCommands => "get_commands"@,
    }
}

impl PiRpcCommand {
    /// The name of this command.
    pub fn label(&self) -> (label: &'static str)
        ensures
            label@ == command_label(*self),
    {
        match self {
            Self::Prompt { .. } => "prompt",
            Self::Abort => "abort",
            Self::GetState => "get_state",
            Self::GetSessionStats => "get_session_stats",
            Self::GetEntries => "get_entries",
            Self::GetAvailableModels => "get_available_models",
            Self::GetAvailableThinkingLevels => "get_available_thinking_levels",
            Self::GetCommands => "get_commands",
        }
    }
}

/// A command with the id that its response will carry.
#[derive(Debug, PartialEq, Eq)]
pub struct PiRpcRequest {
    pub id: RpcRequestId,
    pub command: PiRpcCommand,
}

impl PiRpcRequest {
    /// A request.
    pub fn new(id: RpcRequestId, command: PiRpcCommand) -> (request: Self)
        ensures
            request.id == id,
            request.command == command,
    {
        Self { id, command }
    }
}

/// The response to a request.
#[derive(Debug, PartialEq, Eq)]
pub struct PiRpcResponse {
    pub id: RpcRequestId,
    pub type_: String,
    pub command: String,
    pub success: bool,
    pub data: Option<Json>,
    pub error: Option<String>,
}

/// The state of a session.
#[derive(Debug, PartialEq, Eq)]
pub struct PiRpcSessionState {
    pub model: Option<Json>,
    pub is_streaming: bool,
    pub is_compacting: bool,
    pub session_id: Option<String>,
    pub session_name: Option<String>,
    pub message_count: Option<u64>,
}

/// How much of the model's window a session uses.
#[derive(Clone, Copy, Debug, PartialEq, Eq, Structural)]
pub struct PiRpcContextUsage {
    pub tokens: Option<u32>,
    pub context_window: Option<u32>,
}

/// The statistics of a session.
#[derive(Debug, PartialEq, Eq)]
pub struct PiRpcSessionStats {
    pub session_id: Option<String>,
    pub tokens: Option<Json>,
    pub context_usage: Option<PiRpcContextUsage>,
}

/// The entries of a session.
#[derive(Debug, PartialEq, Eq)]
pub struct PiRpcEntries {
    pub entries: Vec<Json>,
    pub leaf_id: Option<String>,
}

/// A model that PI can use.
#[derive(Debug, PartialEq, Eq)]
pub struct PiRpcModel {
    pub id: String,
    pub name: Option<String>,
    pub provider: String,
    pub reasoning: bool,
}

/// The models that PI can use.
#[derive(Debug, PartialEq, Eq)]
pub struct PiRpcAvailableModels {
    pub models: Vec<PiRpcModel>,
}

/// The thinking levels that a model offers.
#[derive(Debug, PartialEq, Eq)]
pub struct PiRpcThinkingLevels {
    pub levels: Vec<String>,
}

/// A slash command.
#[derive(Debug, PartialEq, Eq)]
pub struct PiRpcCommandInfo {
    pub name: String,
    pub description: Option<String>,
    pub source: Option<String>,
}

/// The slash commands that PI offers.
#[derive(Debug, PartialEq, Eq)]
pub struct PiRpcCommands {
    pub commands: Vec<PiRpcCommandInfo>,
}

/// What an update of an assistant message brings.
#[derive(Debug, PartialEq, Eq)]
pub enum PiRpcAssistantMessageEvent {
    TextDelta { delta: String },
    ThinkingDelta { delta: String },
    Other(Json),
}

/// What PI reports on its own.
#[allow(inconsistent_fields)]
#[derive(Debug, PartialEq, Eq)]
pub enum PiRpcEvent {
    AgentStart,
    AgentSettled,
    AgentEnd { extra: Json },
    TurnStart,
    TurnEnd { extra: Json },
    MessageUpdate { assistant_message_event: PiRpcAssistantMessageEvent },
    MessageStart { message: Json },
    MessageEnd { message: Json },
    ToolExecutionStart { tool_call_id: String, tool_name: String, args: Option<Json> },
    ToolExecutionUpdate {
        tool_call_id: String,
        tool_name: String,
        args: Option<Json>,
        partial_result: Option<Json>,
    },
    ToolExecutionEnd {
        tool_call_id: String,
        tool_name: String,
        result: Option<Json>,
        is_error: bool,
    },
    ExtensionUiRequest { id: String, method: String, extra: Json },
    ExtensionError { error: String },
    CompactionStart { reason: Option<String> },
    CompactionEnd { extra: Json },
    AutoRetryStart { extra: Json },
    AutoRetryEnd { success: Option<bool>, extra: Json },
    Unknown(Json),
}

/// How a dialog of an extension was answered.
#[derive(Debug, PartialEq, Eq)]
pub enum PiRpcExtensionUiOutcome {
    Value { value: String },
    Confirmed { confirmed: bool },
    Cancelled { cancelled: bool },
}

/// The answer to a dialog of an extension.
#[derive(Debug, PartialEq, Eq)]
pub struct PiRpcExtensionUiResponse {
    pub id: String,
    pub outcome: PiRpcExtensionUiOutcome,
}

impl PiRpcExtensionUiResponse {
    /// Answers with a value.
    pub fn value(id: String, value: String) -> (response: Self)
        ensures
            response == (PiRpcExtensionUiResponse {
                id,
                outcome: PiRpcExtensionUiOutcome::Value { value },
            }),
    {
        Self { id, outcome: PiRpcExtensionUiOutcome::Value { value } }
    }

    /// Answers with yes or no.
    pub fn confirmed(id: String, confirmed: bool) -> (response: Self)
        ensures
            response == (PiRpcExtensionUiResponse {
                id,
                outcome: PiRpcExtensionUiOutcome::Confirmed { confirmed },
            }),
    {
        Self { id, outcome: PiRpcExtensionUiOutcome::Confirmed { confirmed } }
    }

    /// Closes the dialog without an answer.
    pub fn cancelled(id: String) -> (response: Self)
        ensures
            response == (PiRpcExtensionUiResponse {
                id,
                outcome: PiRpcExtensionUiOutcome::Cancelled { cancelled: true },
            }),
    {
        Self { id, outcome: PiRpcExtensionUiOutcome::Cancelled { cancelled: true } }
    }
}

// ---------------------------------------------------------------------------
// Frames
// ---------------------------------------------------------------------------

/// What reading PI's output gives.
#[derive(Debug, PartialEq, Eq)]
pub enum FrameReadResult {
    Frame(String),
    Malformed { reason: String },
    Eof,
    Error(String),
}

/// Model of [`FrameReadResult`].
pub enum FrameView {
    Frame(Seq<char>),
    Malformed { reason: Seq<char> },
    Eof,
    Error(Seq<char>),
}

impl View for FrameReadResult {
    type V = FrameView;

    open spec fn view(&self) -> FrameView {
        match self {
            FrameReadResult::Frame(text) => FrameView::Frame(text@),
            FrameReadResult::Malformed { reason } => FrameView::Malformed { reason: reason@ },
            FrameReadResult::Eof => FrameView::Eof,
            FrameReadResult::Error(reason) => FrameView::Error(reason@),
        }
    }
}

/// The models of frames.
pub open spec fn frame_views(frames: Seq<FrameReadResult>) -> Seq<FrameView> {
    frames.map_values(|frame: FrameReadResult| frame@)
}

/// The pieces of `bytes` between line feeds; one more than there are line
/// feeds.
pub open spec fn split_lf(bytes: Seq<u8>) -> Seq<Seq<u8>>
    decreases bytes.len(),
{
    if bytes.len() == 0 {
        seq![Seq::empty()]
    } else {
        let before = split_lf(bytes.drop_last());
        if bytes.last() == 10u8 {
            before.push(Seq::empty())
        } else {
            before.drop_last().push(before.last().push(bytes.last()))
        }
    }
}

/// A frame without the carriage return before its line feed.
pub open spec fn without_cr(frame: Seq<u8>) -> Seq<u8> {
    if frame.len() > 0 && frame.last() == 13u8 {
        frame.drop_last()
    } else {
        frame
    }
}

/// What the bytes before a line feed are.
pub open spec fn frame_of(bytes: Seq<u8>) -> FrameView {
    if bytes.len() > MAX_FRAME_BYTES {
        FrameView::Malformed {
            reason: "RPC frame exceeded "@ + decimal(MAX_FRAME_BYTES as nat) + " bytes"@,
        }
    } else if valid_utf8(without_cr(bytes)) {
        FrameView::Frame(decode_utf8(without_cr(bytes)))
    } else {
        FrameView::Malformed {
            reason: "RPC frame is not UTF-8: "@ + utf8_error_text(without_cr(bytes)),
        }
    }
}

/// The frames among pieces.
pub open spec fn frames_of(pieces: Seq<Seq<u8>>) -> Seq<FrameView> {
    pieces.map_values(|bytes: Seq<u8>| frame_of(bytes))
}

/// The reason given where no line feed comes within the limit.
pub open spec fn endless_reason() -> Seq<char> {
    "RPC frame exceeded "@ + decimal(MAX_FRAME_BYTES as nat) + " bytes before LF"@
}

/// What a chunk leads to: the bytes that wait for their line feed, and the
/// frames that it completes. Bytes that wait beyond the limit are dropped.
pub open spec fn feed_step(buffer: Seq<u8>, chunk: Seq<u8>) -> (Seq<u8>, Seq<FrameView>) {
    let pieces = split_lf(buffer + chunk);
    let frames = frames_of(pieces.drop_last());
    if pieces.last().len() > MAX_FRAME_BYTES {
        (Seq::empty(), frames.push(FrameView::Malformed { reason: endless_reason() }))
    } else {
        (pieces.last(), frames)
    }
}

/// What the end of the output leads to.
pub open spec fn end_frames(buffer: Seq<u8>) -> Seq<FrameView> {
    if buffer.len() > 0 {
        seq![
            FrameView::Malformed { reason: "EOF before LF frame terminator"@ },
            FrameView::Eof,
        ]
    } else {
        seq![FrameView::Eof]
    }
}

/// Splitting gives at least one piece.
pub proof fn lemma_split_lf_nonempty(bytes: Seq<u8>)
    ensures
        split_lf(bytes).len() >= 1,
    decreases bytes.len(),
{
    if bytes.len() > 0 {
        lemma_split_lf_nonempty(bytes.drop_last());
    }
}

proof fn lemma_split_lf_append(bytes: Seq<u8>, more: Seq<u8>)
    ensures
        split_lf(bytes + more) == split_lf(bytes).drop_last() + split_lf(
            split_lf(bytes).last() + more,
        ),
    decreases more.len(),
{
    let first = split_lf(bytes);
    lemma_split_lf_nonempty(bytes);
    if more.len() == 0 {
        assert(bytes + more =~= bytes);
        assert(first.last() + more =~= first.last());
        lemma_piece_is_whole(bytes);
        assert(first =~= first.drop_last() + seq![first.last()]);
    } else {
        let shorter = more.drop_last();
        lemma_split_lf_append(bytes, shorter);
        assert((bytes + more).drop_last() =~= bytes + shorter);
        assert((first.last() + more).drop_last() =~= first.last() + shorter);
        let rest = split_lf(first.last() + shorter);
        lemma_split_lf_nonempty(first.last() + shorter);
        let joined = first.drop_last() + rest;
        assert(joined.last() == rest.last());
        assert(joined.drop_last() =~= first.drop_last() + rest.drop_last());
        if more.last() == 10u8 {
            assert(joined.push(Seq::empty()) =~= first.drop_last() + rest.push(Seq::empty()));
        } else {
            let last = rest.last().push(more.last());
            assert(joined.drop_last().push(last) =~= first.drop_last() + rest.drop_last().push(
                last,
            ));
        }
    }
}

/// The bytes after the last line feed hold none, so they are one piece.
proof fn lemma_piece_is_whole(bytes: Seq<u8>)
    ensures
        split_lf(split_lf(bytes).last()) == seq![split_lf(bytes).last()],
    decreases bytes.len(),
{
    if bytes.len() == 0 {
        assert(split_lf(Seq::<u8>::empty()) =~= seq![Seq::<u8>::empty()]);
    } else {
        let before = split_lf(bytes.drop_last());
        lemma_split_lf_nonempty(bytes.drop_last());
        lemma_piece_is_whole(bytes.drop_last());
        if bytes.last() == 10u8 {
            assert(split_lf(bytes).last() =~= Seq::empty());
            assert(split_lf(Seq::<u8>::empty()) =~= seq![Seq::<u8>::empty()]);
        } else {
            let last = before.last().push(bytes.last());
            assert(split_lf(bytes).last() == last);
            assert(last.drop_last() =~= before.last());
            assert(split_lf(last) =~= seq![last]);
        }
    }
}

/// How the output is cut into chunks makes no difference: two chunks give the
/// frames that they give as one, as long as no frame waits beyond the limit
/// between them.
pub proof fn law_chunks_make_no_difference(buffer: Seq<u8>, first: Seq<u8>, second: Seq<u8>)
    requires
        split_lf(buffer + first).last().len() <= MAX_FRAME_BYTES,
    ensures
        ({
            let (waiting, frames) = feed_step(buffer, first);
            let (rest, more) = feed_step(waiting, second);
            (rest, frames + more) == feed_step(buffer, first + second)
        }),
{
    let pieces = split_lf(buffer + first);
    let rest = split_lf(pieces.last() + second);
    lemma_split_lf_append(buffer + first, second);
    lemma_split_lf_nonempty(pieces.last() + second);
    assert(buffer + (first + second) =~= (buffer + first) + second);
    let all = split_lf(buffer + (first + second));
    assert(all == pieces.drop_last() + rest);
    assert(all.last() == rest.last());
    assert(all.drop_last() =~= pieces.drop_last() + rest.drop_last());
    assert(frames_of(all.drop_last()) =~= frames_of(pieces.drop_last()) + frames_of(
        rest.drop_last(),
    ));
    if rest.last().len() > MAX_FRAME_BYTES {
        let endless = FrameView::Malformed { reason: endless_reason() };
        assert(frames_of(pieces.drop_last()) + frames_of(rest.drop_last()).push(endless) =~= (
        frames_of(pieces.drop_last()) + frames_of(rest.drop_last())).push(endless));
    }
}

/// What a sequence of chunks leads to: the bytes that wait at its end, and the
/// frames that it completes.
pub open spec fn feed_all(buffer: Seq<u8>, chunks: Seq<Seq<u8>>) -> (Seq<u8>, Seq<FrameView>)
    decreases chunks.len(),
{
    if chunks.len() == 0 {
        (buffer, Seq::empty())
    } else {
        let (waiting, frames) = feed_all(buffer, chunks.drop_last());
        let (rest, more) = feed_step(waiting, chunks.last());
        (rest, frames + more)
    }
}

/// The bytes of chunks, one chunk after the other.
pub open spec fn bytes_of(chunks: Seq<Seq<u8>>) -> Seq<u8>
    decreases chunks.len(),
{
    if chunks.len() == 0 {
        Seq::empty()
    } else {
        bytes_of(chunks.drop_last()) + chunks.last()
    }
}

/// Whether no line of an output is longer than a frame may be.
pub open spec fn lines_fit(bytes: Seq<u8>) -> bool {
    forall|i: int|
        0 <= i < split_lf(bytes).len() ==> (#[trigger] split_lf(bytes)[i]).len() <= MAX_FRAME_BYTES
}

/// What follows makes no line shorter.
proof fn lemma_lines_grow(bytes: Seq<u8>, more: Seq<u8>)
    ensures
        split_lf(bytes + more).len() >= split_lf(bytes).len(),
        forall|i: int|
            0 <= i < split_lf(bytes).len() ==> split_lf(bytes + more)[i].len() >= (
            #[trigger] split_lf(bytes)[i]).len(),
    decreases more.len(),
{
    if more.len() == 0 {
        assert(bytes + more =~= bytes);
    } else {
        lemma_lines_grow(bytes, more.drop_last());
        lemma_split_lf_nonempty(bytes + more.drop_last());
        assert((bytes + more).drop_last() =~= bytes + more.drop_last());
    }
}

/// However an output is cut into chunks, and even within a character, it gives
/// the frames that its lines are, as long as no line is too long.
pub proof fn law_any_cutting_gives_the_same_frames(chunks: Seq<Seq<u8>>)
    requires
        lines_fit(bytes_of(chunks)),
    ensures
        feed_all(Seq::empty(), chunks) == (
            split_lf(bytes_of(chunks)).last(),
            frames_of(split_lf(bytes_of(chunks)).drop_last()),
        ),
    decreases chunks.len(),
{
    if chunks.len() == 0 {
        assert(frames_of(split_lf(bytes_of(chunks)).drop_last()) =~= Seq::empty());
    } else {
        let before = bytes_of(chunks.drop_last());
        let chunk = chunks.last();
        let first = split_lf(before);
        let all = split_lf(before + chunk);
        lemma_lines_grow(before, chunk);
        assert forall|i: int| 0 <= i < first.len() implies (#[trigger] first[i]).len()
            <= MAX_FRAME_BYTES by {
            assert(all[i].len() <= MAX_FRAME_BYTES);
        }
        law_any_cutting_gives_the_same_frames(chunks.drop_last());
        lemma_split_lf_append(before, chunk);
        lemma_split_lf_nonempty(before);
        let rest = split_lf(first.last() + chunk);
        lemma_split_lf_nonempty(first.last() + chunk);
        assert(all == first.drop_last() + rest);
        assert(all.last() == rest.last());
        assert(all[all.len() - 1].len() <= MAX_FRAME_BYTES);
        assert(all.drop_last() =~= first.drop_last() + rest.drop_last());
        assert(frames_of(all.drop_last()) =~= frames_of(first.drop_last()) + frames_of(
            rest.drop_last(),
        ));
    }
}

/// The part of valid UTF-8 before an ASCII byte is valid, and so is the part
/// from it on.
proof fn lemma_valid_around_ascii(bytes: Seq<u8>, at: int)
    requires
        valid_utf8(bytes),
        0 <= at < bytes.len(),
        bytes[at] < 128,
    ensures
        valid_utf8(bytes.take(at)),
        valid_utf8(bytes.skip(at)),
        valid_utf8(bytes.skip(at + 1)),
{
    is_char_boundary_iff_not_is_continuation_byte(bytes, at);
    assert(!is_continuation_byte(bytes[at]));
    valid_utf8_split(bytes, at);
    assert(bytes.subrange(0, at) =~= bytes.take(at));
    let rest = bytes.skip(at);
    assert(bytes.subrange(at, bytes.len() as int) =~= rest);
    assert(rest[0] == bytes[at]);
    assert(pop_first_scalar(rest) =~= bytes.skip(at + 1));
}

/// The lines of valid UTF-8 are valid.
proof fn lemma_lines_are_valid(bytes: Seq<u8>, to: int)
    requires
        valid_utf8(bytes),
        0 <= to <= bytes.len(),
    ensures
        ({
            let pieces = split_lf(bytes.take(to));
            let start = to - pieces.last().len();
            &&& start >= 0
            &&& pieces.last() == bytes.subrange(start, to)
            &&& valid_utf8(bytes.skip(start))
            &&& forall|i: int|
                0 <= i < pieces.len() - 1 ==> valid_utf8(#[trigger] pieces[i])
        }),
    decreases to,
{
    if to == 0 {
        assert(bytes.take(0) =~= Seq::empty());
        assert(bytes.subrange(0, 0) =~= Seq::empty());
        assert(bytes.skip(0) =~= bytes);
    } else {
        let shorter = bytes.take(to - 1);
        let before = split_lf(shorter);
        let pieces = split_lf(bytes.take(to));
        let start = to - 1 - before.last().len();
        lemma_lines_are_valid(bytes, to - 1);
        lemma_split_lf_nonempty(shorter);
        assert(bytes.take(to).drop_last() =~= shorter);
        assert(bytes.take(to).last() == bytes[to - 1]);
        if bytes[to - 1] == 10u8 {
            let rest = bytes.skip(start);
            let len = before.last().len() as int;
            assert(rest[len] == bytes[to - 1]);
            lemma_valid_around_ascii(rest, len);
            assert(rest.take(len) =~= before.last());
            assert(rest.skip(len + 1) =~= bytes.skip(to));
            assert(bytes.subrange(to, to) =~= Seq::empty());
            assert forall|i: int| 0 <= i < pieces.len() - 1 implies valid_utf8(
                #[trigger] pieces[i],
            ) by {
                assert(pieces[i] == before[i]);
                if i == before.len() - 1 {
                    assert(before[i] == before.last());
                }
            }
        } else {
            assert(bytes.subrange(start, to) =~= before.last().push(bytes[to - 1]));
            assert forall|i: int| 0 <= i < pieces.len() - 1 implies valid_utf8(
                #[trigger] pieces[i],
            ) by {
                assert(pieces[i] == before[i]);
            }
        }
    }
}

proof fn lemma_line_count(bytes: Seq<u8>)
    ensures
        split_lf(bytes).len() == bytes.filter(|byte: u8| byte == 10u8).len() + 1,
    decreases bytes.len(),
{
    reveal(Seq::filter);
    if bytes.len() > 0 {
        lemma_line_count(bytes.drop_last());
    }
}

/// An output in UTF-8 that ends with a line feed, or is empty, gives one frame
/// for each line feed, in order, and then the end, however it is cut into
/// chunks. A frame is the text of its line without one carriage return at its
/// end.
pub proof fn law_every_line_is_a_frame(chunks: Seq<Seq<u8>>)
    requires
        lines_fit(bytes_of(chunks)),
        valid_utf8(bytes_of(chunks)),
        bytes_of(chunks).len() > 0 ==> bytes_of(chunks).last() == 10u8,
    ensures
        ({
            let bytes = bytes_of(chunks);
            let (waiting, frames) = feed_all(Seq::empty(), chunks);
            &&& frames.len() == bytes.filter(|byte: u8| byte == 10u8).len()
            &&& forall|i: int|
                0 <= i < frames.len() ==> #[trigger] frames[i] == FrameView::Frame(
                    decode_utf8(without_cr(split_lf(bytes)[i])),
                )
            &&& end_frames(waiting) == seq![FrameView::Eof]
        }),
{
    let bytes = bytes_of(chunks);
    let pieces = split_lf(bytes);
    law_any_cutting_gives_the_same_frames(chunks);
    lemma_line_count(bytes);
    lemma_lines_are_valid(bytes, bytes.len() as int);
    assert(bytes.take(bytes.len() as int) =~= bytes);
    let frames = feed_all(Seq::empty(), chunks).1;
    assert forall|i: int| 0 <= i < frames.len() implies #[trigger] frames[i] == FrameView::Frame(
        decode_utf8(without_cr(pieces[i])),
    ) by {
        let line = pieces[i];
        assert(valid_utf8(line));
        if line.len() > 0 && line.last() == 13u8 {
            lemma_valid_around_ascii(line, line.len() - 1);
            assert(line.take(line.len() - 1) =~= line.drop_last());
        }
    }
}

/// What waits for its line feed never grows beyond the limit, whatever comes.
pub proof fn law_buffer_is_bounded(buffer: Seq<u8>, chunk: Seq<u8>)
    ensures
        feed_step(buffer, chunk).0.len() <= MAX_FRAME_BYTES,
{
}

/// Only a line feed ends a frame: bytes without one are one piece, whatever
/// other separators the text in them has.
pub proof fn law_only_line_feeds_end_frames(bytes: Seq<u8>)
    requires
        forall|i: int| 0 <= i < bytes.len() ==> #[trigger] bytes[i] != 10u8,
    ensures
        split_lf(bytes) == seq![bytes],
    decreases bytes.len(),
{
    if bytes.len() > 0 {
        let rest = bytes.drop_last();
        assert forall|i: int| 0 <= i < rest.len() implies #[trigger] rest[i] != 10u8 by {
            assert(rest[i] == bytes[i]);
        }
        law_only_line_feeds_end_frames(rest);
        assert(rest.push(bytes.last()) =~= bytes);
        assert(split_lf(bytes) =~= seq![bytes]);
    } else {
        assert(bytes =~= Seq::empty());
    }
}

/// A carriage return before the line feed makes no difference to a frame.
pub proof fn law_carriage_return_is_dropped(bytes: Seq<u8>)
    requires
        bytes.len() < MAX_FRAME_BYTES,
        bytes.len() > 0 ==> bytes.last() != 13u8,
    ensures
        frame_of(bytes.push(13u8)) == frame_of(bytes),
{
    assert(bytes.push(13u8).drop_last() =~= bytes);
}

/// Cuts PI's output into frames.
#[derive(Debug)]
pub struct FrameBuffer {
    pub buffer: Vec<u8>,
}

impl View for FrameBuffer {
    type V = Seq<u8>;

    open spec fn view(&self) -> Seq<u8> {
        self.buffer@
    }
}

fn read_frame(bytes: Vec<u8>) -> (frame: FrameReadResult)
    ensures
        frame@ == frame_of(bytes@),
{
    if bytes.len() > MAX_FRAME_BYTES {
        let limit = decimal_text(MAX_FRAME_BYTES as u64);
        return FrameReadResult::Malformed {
            reason: concat3("RPC frame exceeded ", &limit, " bytes"),
        };
    }
    let mut bytes = bytes;
    let ghost all = bytes@;
    let len: usize = bytes.len();
    if len > 0 && bytes[len - 1] == 13u8 {
        bytes.truncate(len - 1);
        assert(bytes@ =~= all.drop_last());
    }
    match decode_bytes(bytes) {
        Ok(text) => FrameReadResult::Frame(text),
        Err(message) => FrameReadResult::Malformed {
            reason: concat2("RPC frame is not UTF-8: ", &message),
        },
    }
}

impl FrameBuffer {
    /// Nothing waits.
    pub fn new() -> (buffer: Self)
        ensures
            buffer@ == Seq::<u8>::empty(),
    {
        FrameBuffer { buffer: Vec::new() }
    }

    /// Takes in a chunk and gives the frames that it completes.
    pub fn feed(&mut self, chunk: &[u8]) -> (frames: Vec<FrameReadResult>)
        ensures
            (final(self)@, frame_views(frames@)) == feed_step(old(self)@, chunk@),
    {
        let ghost before = self.buffer@;
        let ghost waiting = split_lf(before);
        let mut all: Vec<u8> = Vec::new();
        let mut frames: Vec<FrameReadResult> = Vec::new();
        std::mem::swap(&mut all, &mut self.buffer);
        let mut k: usize = 0;
        while k < chunk.len()
            invariant
                k <= chunk@.len(),
                all@ == before + chunk@.take(k as int),
            decreases chunk@.len() - k,
        {
            all.push(chunk[k]);
            assert(chunk@.take(k + 1) =~= chunk@.take(k as int).push(chunk@[k as int]));
            assert(before + chunk@.take(k + 1) =~= (before + chunk@.take(k as int)).push(
                chunk@[k as int],
            ));
            k = k + 1;
        }
        assert(chunk@.take(chunk@.len() as int) =~= chunk@);
        assert(all@ == before + chunk@);
        let mut current: Vec<u8> = Vec::new();
        let mut i: usize = 0;
        assert(frame_views(frames@) =~= frames_of(Seq::empty()));
        assert(split_lf(all@.take(0)).drop_last() =~= Seq::empty());
        assert(current@ =~= split_lf(all@.take(0)).last());
        while i < all.len()
            invariant
                i <= all@.len(),
                frame_views(frames@) == frames_of(split_lf(all@.take(i as int)).drop_last()),
                current@ == split_lf(all@.take(i as int)).last(),
            decreases all@.len() - i,
        {
            let byte: u8 = all[i];
            let ghost pieces = split_lf(all@.take(i as int));
            let ghost longer = split_lf(all@.take(i + 1));
            proof {
                assert(all@.take(i + 1).drop_last() =~= all@.take(i as int));
                assert(all@.take(i + 1).last() == byte);
                lemma_split_lf_nonempty(all@.take(i as int));
            }
            if byte == 10u8 {
                let ghost done = frames@;
                let ghost piece = current@;
                let frame = read_frame(current);
                frames.push(frame);
                current = Vec::new();
                proof {
                    assert(longer.drop_last() =~= pieces);
                    assert(pieces =~= pieces.drop_last().push(piece));
                    assert(frame_views(frames@) =~= frame_views(done).push(frame@));
                    assert(frames_of(pieces) =~= frames_of(pieces.drop_last()).push(
                        frame_of(piece),
                    ));
                    assert(current@ =~= longer.last());
                }
            } else {
                current.push(byte);
                proof {
                    assert(longer.drop_last() =~= pieces.drop_last());
                    assert(current@ =~= longer.last());
                }
            }
            i = i + 1;
        }
        assert(all@.take(all@.len() as int) =~= all@);
        if current.len() > MAX_FRAME_BYTES {
            let limit = decimal_text(MAX_FRAME_BYTES as u64);
            let reason = concat3("RPC frame exceeded ", &limit, " bytes before LF");
            let ghost done = frames@;
            let frame = FrameReadResult::Malformed { reason };
            frames.push(frame);
            assert(frame_views(frames@) =~= frame_views(done).push(frame@));
            assert(self.buffer@ =~= Seq::empty());
        } else {
            self.buffer = current;
        }
        frames
    }

    /// Ends the output.
    pub fn finish(&self) -> (frames: Vec<FrameReadResult>)
        ensures
            frame_views(frames@) == end_frames(self@),
    {
        let mut frames: Vec<FrameReadResult> = Vec::new();
        if self.buffer.len() > 0 {
            frames.push(
                FrameReadResult::Malformed { reason: "EOF before LF frame terminator".to_owned() },
            );
        }
        frames.push(FrameReadResult::Eof);
        assert(frame_views(frames@) =~= end_frames(self@));
        frames
    }
}

// ---------------------------------------------------------------------------
// Dispatch
// ---------------------------------------------------------------------------

/// What is done with a frame.
#[derive(Debug, PartialEq, Eq)]
pub enum FrameAction {
    /// The frame is logged as it is; `parse` tells whether it says anything.
    Log { raw: String, parse: bool },
    /// A malformed frame is reported.
    Warn { reason: String },
    /// The pending requests fail, and nothing more is read.
    Shutdown { reason: String },
}

/// Decides what is done with a frame.
pub fn frame_action(frame: FrameReadResult) -> (action: FrameAction)
    ensures
        match frame {
            FrameReadResult::Frame(text) => action == (FrameAction::Log {
                raw: text,
                parse: trimmed(text@).len() > 0,
            }),
            FrameReadResult::Malformed { reason } => action == (FrameAction::Warn { reason }),
            FrameReadResult::Error(reason) => action == (FrameAction::Shutdown { reason }),
            FrameReadResult::Eof => action matches FrameAction::Shutdown { reason } && reason@
                == "stdout EOF"@,
        },
{
    match frame {
        FrameReadResult::Frame(raw) => {
            let parse = !is_blank(&raw);
            FrameAction::Log { raw, parse }
        },
        FrameReadResult::Malformed { reason } => FrameAction::Warn { reason },
        FrameReadResult::Error(reason) => FrameAction::Shutdown { reason },
        FrameReadResult::Eof => FrameAction::Shutdown { reason: "stdout EOF".to_owned() },
    }
}

/// What a frame is, before its fields are read.
#[derive(Debug, PartialEq, Eq)]
pub enum OutputKind {
    Response(Json),
    Event(Json),
}

/// Model of [`OutputKind`].
pub enum OutputView {
    Response(JsonView),
    Event(JsonView),
}

/// What a decoded frame is.
pub open spec fn kind_of(outcome: Result<JsonView, Seq<char>>) -> Result<OutputView, Seq<char>> {
    match outcome {
        Err(message) => Err(message),
        Ok(value) => if string_field_or_empty(value, "type"@) == "response"@ {
            Ok(OutputView::Response(value))
        } else {
            Ok(OutputView::Event(value))
        },
    }
}

/// The model of what a frame is.
pub open spec fn kind_view(kind: Result<OutputKind, String>) -> Result<OutputView, Seq<char>> {
    match kind {
        Ok(OutputKind::Response(value)) => Ok(OutputView::Response(value@)),
        Ok(OutputKind::Event(value)) => Ok(OutputView::Event(value@)),
        Err(message) => Err(message@),
    }
}

/// Tells responses from events.
pub fn classify(outcome: Result<Json, String>) -> (kind: Result<OutputKind, String>)
    ensures
        kind_view(kind) == kind_of(outcome_view(outcome)),
{
    match outcome {
        Err(message) => Err(message),
        Ok(value) => {
            let kind = value.str_field_or_empty("type");
            if same(&kind, "response") {
                Ok(OutputKind::Response(value))
            } else {
                Ok(OutputKind::Event(value))
            }
        },
    }
}

/// Decodes a frame and tells responses from events.
pub fn parse_output(raw: &str) -> (kind: Result<OutputKind, String>)
    ensures
        kind_view(kind) == kind_of(json_outcome(raw@)),
{
    classify(parse_json(raw))
}

/// The beginning of a frame, for a warning.
pub fn excerpt(raw: &str) -> (text: String)
    ensures
        text@ == if raw@.len() <= EXCERPT_CHARS {
            raw@
        } else {
            raw@.take(EXCERPT_CHARS as int)
        },
{
    let chars = chars_of(raw);
    let end: usize = if chars.len() <= EXCERPT_CHARS {
        chars.len()
    } else {
        EXCERPT_CHARS
    };
    assert(raw@.subrange(0, end as int) =~= raw@.take(end as int));
    assert(raw@.take(raw@.len() as int) =~= raw@);
    string_between(&chars, 0, end)
}

// ---------------------------------------------------------------------------
// Pending requests
// ---------------------------------------------------------------------------

/// The requests that wait for a response, each with where it is to be
/// delivered.
pub struct RpcState<S> {
    pub next_id: u64,
    pub pending: HashMap<u64, S>,
    pub shutdown_reason: Option<String>,
}

/// Model of [`RpcState`].
pub struct PendingView<S> {
    pub next_id: u64,
    pub pending: Map<u64, S>,
    pub shutdown_reason: Option<Seq<char>>,
}

impl<S> View for RpcState<S> {
    type V = PendingView<S>;

    open spec fn view(&self) -> PendingView<S> {
        PendingView {
            next_id: self.next_id,
            pending: self.pending@,
            shutdown_reason: opt_view(self.shutdown_reason),
        }
    }
}

/// The message that refuses a request after the shutdown.
pub open spec fn refusal(label: Seq<char>, reason: Seq<char>) -> Seq<char> {
    "cannot send "@ + label + "; RPC client is shut down: "@ + reason
}

impl<S> RpcState<S> {
    /// No requests; ids start at one.
    pub fn new() -> (state: Self)
        ensures
            state@ == (PendingView {
                next_id: 1,
                pending: Map::<u64, S>::empty(),
                shutdown_reason: None,
            }),
    {
        RpcState { next_id: 1, pending: HashMap::new(), shutdown_reason: None }
    }

    /// The next id; ids wrap after the last.
    pub fn next_request_id(&mut self) -> (id: RpcRequestId)
        ensures
            id.0 == old(self)@.next_id,
            final(self)@ == (PendingView {
                next_id: id_after(old(self)@.next_id, 1),
                ..old(self)@
            }),
    {
        let id: u64 = self.next_id;
        self.next_id = if id == u64::MAX {
            0
        } else {
            id + 1
        };
        RpcRequestId(id)
    }

    /// Lets a request wait, unless the client is shut down.
    pub fn register(&mut self, id: RpcRequestId, label: &str, delivery: S) -> (registered: Result<
        (),
        String,
    >)
        ensures
            match old(self)@.shutdown_reason {
                Some(reason) => registered matches Err(message) && message@ == refusal(
                    label@,
                    reason,
                ) && final(self)@ == old(self)@,
                None => registered is Ok && final(self)@ == (PendingView {
                    pending: old(self)@.pending.insert(id.0, delivery),
                    ..old(self)@
                }),
            },
    {
        if let Some(reason) = &self.shutdown_reason {
            return Err(concat4("cannot send ", label, "; RPC client is shut down: ", reason));
        }
        self.pending.insert(id.0, delivery);
        Ok(())
    }

    /// Takes the delivery of a request that waits no longer.
    pub fn remove(&mut self, id: RpcRequestId) -> (delivery: Option<S>)
        ensures
            delivery == if old(self)@.pending.contains_key(id.0) {
                Some(old(self)@.pending[id.0])
            } else {
                None
            },
            final(self)@ == (PendingView {
                pending: old(self)@.pending.remove(id.0),
                ..old(self)@
            }),
    {
        let delivery = self.pending.remove(&id.0);
        assert(self@.pending =~= old(self)@.pending.remove(id.0));
        delivery
    }

    /// Shuts the client down: no request waits any longer, and the first
    /// reason stays.
    pub fn shutdown(&mut self, reason: &str) -> (deliveries: HashMap<u64, S>)
        ensures
            deliveries@ == old(self)@.pending,
            final(self)@ == (PendingView {
                next_id: old(self)@.next_id,
                pending: Map::<u64, S>::empty(),
                shutdown_reason: match old(self)@.shutdown_reason {
                    Some(first) => Some(first),
                    None => Some(reason@),
                },
            }),
    {
        if self.shutdown_reason.is_none() {
            self.shutdown_reason = Some(reason.to_owned());
        }
        let mut deliveries: HashMap<u64, S> = HashMap::new();
        std::mem::swap(&mut deliveries, &mut self.pending);
        deliveries
    }
}

/// The id that comes some steps after another; ids wrap after the last.
pub open spec fn id_after(id: u64, steps: nat) -> u64 {
    ((id + steps) % 0x1_0000_0000_0000_0000) as u64
}

/// Ids count up: taking the next id some times, and then once more, is taking
/// it that many times and one.
pub proof fn law_ids_count_up(id: u64, steps: nat)
    ensures
        id_after(id_after(id, steps), 1) == id_after(id, steps + 1),
        id_after(id, 0) == id,
{
    let m = 0x1_0000_0000_0000_0000int;
    vstd::arithmetic::div_mod::lemma_add_mod_noop(id + steps, 1, m);
    vstd::arithmetic::div_mod::lemma_small_mod(1, m as nat);
    vstd::arithmetic::div_mod::lemma_small_mod(id as nat, m as nat);
}

/// Ids repeat only after all 2^64 have been used, so a response cannot reach
/// the wrong request: of the requests of a client, the ids of the `i`-th and
/// the `j`-th differ.
pub proof fn law_ids_are_distinct(first: u64, i: nat, j: nat)
    requires
        i < j,
        j - i < 0x1_0000_0000_0000_0000,
    ensures
        id_after(first, i) != id_after(first, j),
{
    let m = 0x1_0000_0000_0000_0000int;
    let a = first as int + i;
    let b = first as int + j;
    if a % m == b % m {
        assert((b - a) % m == 0) by {
            vstd::arithmetic::div_mod::lemma_sub_mod_noop(b, a, m);
        }
        vstd::arithmetic::div_mod::lemma_small_mod((b - a) as nat, m as nat);
    }
}

/// Responses are matched by id, in whatever order they come: with two requests
/// waiting, each takes its own delivery, also after the other was taken.
pub proof fn law_responses_find_their_requests<S>(
    pending: Map<u64, S>,
    first: u64,
    second: u64,
    to_first: S,
    to_second: S,
)
    requires
        first != second,
    ensures
        ({
            let waiting = pending.insert(first, to_first).insert(second, to_second);
            &&& waiting.remove(second).contains_key(first)
            &&& waiting.remove(second)[first] == to_first
            &&& waiting.remove(first).contains_key(second)
            &&& waiting.remove(first)[second] == to_second
        }),
{
}

// ---------------------------------------------------------------------------
// Outcomes of requests
// ---------------------------------------------------------------------------

/// How a request ended.
#[derive(Debug, PartialEq, Eq)]
pub enum RequestEnd {
    /// It could not be encoded.
    Unencodable { message: String },
    /// It could not be queued.
    NotQueued,
    /// No response came in time.
    TimedOut,
    /// It was cancelled.
    Cancelled,
    /// Its delivery was dropped.
    Dropped,
    /// The client was shut down.
    Shutdown { reason: String },
    /// A response came.
    Response(PiRpcResponse),
}

/// What a request gives: the data of its response, or why there is none.
pub open spec fn request_outcome(label: Seq<char>, id: u64, end: RequestEnd) -> Result<
    JsonView,
    Seq<char>,
> {
    match end {
        RequestEnd::Unencodable { message } => Err(message@),
        RequestEnd::NotQueued => Err("failed to queue "@ + label + " request"@),
        RequestEnd::TimedOut => Err("timed out waiting for "@ + label + " response"@),
        RequestEnd::Cancelled => Err(label + " request cancelled"@),
        RequestEnd::Dropped => Err(
            "RPC response channel dropped while waiting for "@ + label,
        ),
        RequestEnd::Shutdown { reason } => Err(
            "RPC client shut down while waiting for "@ + label + ": "@ + reason@,
        ),
        RequestEnd::Response(response) => if response.id.0 != id {
            Err(
                "response ID mismatch for "@ + label + ": expected "@ + decimal(id as nat)
                    + ", got "@ + decimal(response.id.0 as nat),
            )
        } else if !response.success {
            Err(
                match response.error {
                    Some(error) => error@,
                    None => label + " request failed without an error message"@,
                },
            )
        } else {
            Ok(
                match response.data {
                    Some(data) => data@,
                    None => JsonView::Null,
                },
            )
        },
    }
}

/// What a request gives.
pub fn conclude_request(label: &str, id: RpcRequestId, end: RequestEnd) -> (outcome: Result<
    Json,
    String,
>)
    ensures
        outcome_view(outcome) == request_outcome(label@, id.0, end),
{
    match end {
        RequestEnd::Unencodable { message } => Err(message),
        RequestEnd::NotQueued => Err(concat3("failed to queue ", label, " request")),
        RequestEnd::TimedOut => Err(concat3("timed out waiting for ", label, " response")),
        RequestEnd::Cancelled => Err(concat2(label, " request cancelled")),
        RequestEnd::Dropped => Err(
            concat2("RPC response channel dropped while waiting for ", label),
        ),
        RequestEnd::Shutdown { reason } => Err(
            concat4("RPC client shut down while waiting for ", label, ": ", &reason),
        ),
        RequestEnd::Response(response) => {
            if response.id.0 != id.0 {
                let expected = decimal_text(id.0);
                let got = decimal_text(response.id.0);
                let mut message = concat5(
                    "response ID mismatch for ",
                    label,
                    ": expected ",
                    &expected,
                    ", got ",
                );
                message.append(&got);
                return Err(message);
            }
            if !response.success {
                return Err(
                    match response.error {
                        Some(error) => error,
                        None => concat2(label, " request failed without an error message"),
                    },
                );
            }
            Ok(
                match response.data {
                    Some(data) => data,
                    None => Json::Null,
                },
            )
        },
    }
}

/// The message for a response whose data could not be decoded.
pub fn decode_failure(label: &str, message: &str) -> (text: String)
    ensures
        text@ == "failed to decode "@ + label@ + " response: "@ + message@,
{
    concat4("failed to decode ", label, " response: ", message)
}

// ---------------------------------------------------------------------------
// Laws of requests and frames
// ---------------------------------------------------------------------------

/// Each command has the name that PI knows it by.
pub proof fn law_commands_have_their_names(message: String)
    ensures
        command_label((PiRpcCommand::Prompt { message })) == "prompt"@,
        command_label(PiRpcCommand::Abort) == "abort"@,
        command_label(PiRpcCommand::GetState) == "get_state"@,
        command_label(PiRpcCommand::GetSessionStats) == "get_session_stats"@,
        command_label(PiRpcCommand::GetEntries) == "get_entries"@,
        command_label(PiRpcCommand::GetAvailableModels) == "get_available_models"@,
        command_label(PiRpcCommand::GetAvailableThinkingLevels)
            == "get_available_thinking_levels"@,
        command_label(PiRpcCommand::GetCommands) == "get_commands"@,
{
}

/// The bytes before a line feed are a frame where they are UTF-8 and within the
/// limit of one mebibyte. Anything else is malformed, and the reason says why.
pub proof fn law_frames_are_text_within_the_limit(bytes: Seq<u8>)
    requires
        bytes.len() == 0 || bytes.last() != 13u8,
    ensures
        bytes.len() <= 1_048_576 && valid_utf8(bytes) ==> frame_of(bytes) == FrameView::Frame(
            decode_utf8(bytes),
        ),
        bytes.len() <= 1_048_576 && !valid_utf8(bytes) ==> frame_of(bytes) == (
        FrameView::Malformed { reason: "RPC frame is not UTF-8: "@ + utf8_error_text(bytes) }),
        bytes.len() > 1_048_576 ==> frame_of(bytes) == (FrameView::Malformed {
            reason: "RPC frame exceeded "@ + decimal(1_048_576) + " bytes"@,
        }),
{
}

/// A line feed completes the frame of what waits and of what comes before it.
/// Without one, what comes waits too, until it is beyond the limit: it is then
/// dropped, and reported.
pub proof fn law_line_feeds_complete_frames(buffer: Seq<u8>, line: Seq<u8>, rest: Seq<u8>)
    requires
        forall|i: int| 0 <= i < buffer.len() ==> #[trigger] buffer[i] != 10u8,
        forall|i: int| 0 <= i < line.len() ==> #[trigger] line[i] != 10u8,
        forall|i: int| 0 <= i < rest.len() ==> #[trigger] rest[i] != 10u8,
    ensures
        (buffer + line).len() <= 1_048_576 ==> feed_step(buffer, line) == (
            buffer + line,
            Seq::<FrameView>::empty(),
        ),
        (buffer + line).len() > 1_048_576 ==> feed_step(buffer, line) == (
            Seq::<u8>::empty(),
            seq![
                (FrameView::Malformed {
                    reason: "RPC frame exceeded "@ + decimal(1_048_576) + " bytes before LF"@,
                }),
            ],
        ),
        rest.len() <= 1_048_576 ==> feed_step(buffer, line + seq![10u8] + rest) == (
            rest,
            seq![frame_of(buffer + line)],
        ),
{
    let whole = buffer + line;
    law_only_line_feeds_end_frames(whole);
    assert(seq![whole].drop_last() =~= Seq::empty());
    assert(frames_of(Seq::empty()) =~= Seq::<FrameView>::empty());
    assert(Seq::<FrameView>::empty().push(FrameView::Malformed { reason: endless_reason() })
        =~= seq![(FrameView::Malformed { reason: endless_reason() })]);
    let fed = buffer + (line + seq![10u8] + rest);
    lemma_feed_one_line(whole, rest);
    assert(fed =~= whole.push(10u8) + rest);
    assert(seq![whole, rest].drop_last() =~= seq![whole]);
    assert(frames_of(seq![whole]) =~= seq![frame_of(whole)]);
}

proof fn lemma_feed_one_line(line: Seq<u8>, rest: Seq<u8>)
    requires
        forall|i: int| 0 <= i < line.len() ==> #[trigger] line[i] != 10u8,
        forall|i: int| 0 <= i < rest.len() ==> #[trigger] rest[i] != 10u8,
    ensures
        split_lf(line.push(10u8) + rest) == seq![line, rest],
    decreases rest.len(),
{
    let whole = line.push(10u8) + rest;
    if rest.len() == 0 {
        assert(whole =~= line.push(10u8));
        assert(whole.drop_last() =~= line);
        law_only_line_feeds_end_frames(line);
        assert(rest =~= Seq::empty());
        assert(split_lf(whole) =~= seq![line, rest]);
    } else {
        let shorter = rest.drop_last();
        assert(forall|i: int| 0 <= i < shorter.len() ==> #[trigger] shorter[i] == rest[i]);
        lemma_feed_one_line(line, shorter);
        assert(whole.drop_last() =~= line.push(10u8) + shorter);
        assert(whole.last() == rest[rest.len() - 1]);
        assert(shorter.push(rest.last()) =~= rest);
        assert(split_lf(whole) =~= seq![line, rest]);
    }
}

/// At the end of the output nothing more is read; what still waits for its line
/// feed is reported as malformed before.
pub proof fn law_end_reports_what_waits(buffer: Seq<u8>)
    ensures
        buffer.len() == 0 ==> end_frames(buffer) == seq![FrameView::Eof],
        buffer.len() > 0 ==> end_frames(buffer) == seq![
            (FrameView::Malformed { reason: "EOF before LF frame terminator"@ }),
            FrameView::Eof,
        ],
{
}

/// A document is a response exactly where its type says so, and an event
/// otherwise. What is no JSON is neither.
pub proof fn law_responses_are_typed(value: JsonView, message: Seq<char>)
    ensures
        string_field(value, "type"@) == Some("response"@) ==> kind_of(Ok(value)) == Ok::<
            OutputView,
            Seq<char>,
        >(OutputView::Response(value)),
        string_field(value, "type"@) != Some("response"@) ==> kind_of(Ok(value)) == Ok::<
            OutputView,
            Seq<char>,
        >(OutputView::Event(value)),
        kind_of(Err(message)) == Err::<OutputView, Seq<char>>(message),
{
    reveal_strlit("response");
    assert("response"@.len() == 8);
}

/// A response counts where it carries the id of the request. One that succeeded
/// gives its data, or null; one that failed gives its error, or says that it has
/// none.
pub proof fn law_responses_answer_their_requests(
    label: Seq<char>,
    id: u64,
    response: PiRpcResponse,
)
    ensures
        ({
            let outcome = request_outcome(label, id, RequestEnd::Response(response));
            &&& response.id.0 != id ==> outcome == Err::<JsonView, Seq<char>>(
                "response ID mismatch for "@ + label + ": expected "@ + decimal(id as nat)
                    + ", got "@ + decimal(response.id.0 as nat),
            )
            &&& response.id.0 == id && response.success ==> {
                &&& response.data matches Some(data) ==> outcome == Ok::<JsonView, Seq<char>>(data@)
                &&& response.data is None ==> outcome == Ok::<JsonView, Seq<char>>(JsonView::Null)
            }
            &&& response.id.0 == id && !response.success ==> {
                &&& response.error matches Some(error) ==> outcome == Err::<JsonView, Seq<char>>(
                    error@,
                )
                &&& response.error is None ==> outcome == Err::<JsonView, Seq<char>>(
                    label + " request failed without an error message"@,
                )
            }
        }),
{
}

/// A request that gets no response fails with what kept it from one, by the name
/// of the command.
pub proof fn law_unanswered_requests_say_why(label: Seq<char>, id: u64, text: String)
    ensures
        request_outcome(label, id, (RequestEnd::Unencodable { message: text })) == Err::<
            JsonView,
            Seq<char>,
        >(text@),
        request_outcome(label, id, RequestEnd::NotQueued) == Err::<JsonView, Seq<char>>(
            "failed to queue "@ + label + " request"@,
        ),
        request_outcome(label, id, RequestEnd::TimedOut) == Err::<JsonView, Seq<char>>(
            "timed out waiting for "@ + label + " response"@,
        ),
        request_outcome(label, id, RequestEnd::Cancelled) == Err::<JsonView, Seq<char>>(
            label + " request cancelled"@,
        ),
        request_outcome(label, id, RequestEnd::Dropped) == Err::<JsonView, Seq<char>>(
            "RPC response channel dropped while waiting for "@ + label,
        ),
        request_outcome(label, id, (RequestEnd::Shutdown { reason: text })) == Err::<
            JsonView,
            Seq<char>,
        >("RPC client shut down while waiting for "@ + label + ": "@ + text@),
        refusal(label, text@) == "cannot send "@ + label + "; RPC client is shut down: "@ + text@,
{
}

/// The model of [`FrameReadResult`] holds what the value does, part by part.
pub proof fn law_model_of_frame_read_result(value: FrameReadResult)
    ensures
        match value {
            FrameReadResult::Frame(text) => value@ == FrameView::Frame(text@),
            FrameReadResult::Malformed { reason } => value@ == (FrameView::Malformed {
                reason: reason@,
            }),
            FrameReadResult::Eof => value@ == FrameView::Eof,
            FrameReadResult::Error(reason) => value@ == FrameView::Error(reason@),
        },
{
}

} // verus!
