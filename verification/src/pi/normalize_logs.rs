//! Turns PI's RPC frames into conversation entries.

use vstd::hash_map::StringHashMap;
use vstd::prelude::*;

use crate::entries::{
    plain_entry, ActionType, ActionView, CommandRunResult, EntryKind, EntryView, NormalizedEntry,
    NormalizedEntryError, NormalizedEntryType, RunResultView, TokenUsageInfo, ToolResult,
    ToolResultValueType, ToolResultView, ToolStatus,
};
use crate::json::{
    field, json_views, opt_json, pretty_text, print_pretty, string_field, string_field_or_empty,
    string_of, Json, JsonView,
};
use crate::text::{
    chars_of, concat4, decimal, decimal_text, joined, same, string_between, views,
};

verus! {

/// Longest output, in characters, that an entry shows.
pub const MAX_DISPLAY_CHARS: usize = 50_000;

/// `text`, cut to what an entry shows.
pub open spec fn display_text(text: Seq<char>) -> Seq<char> {
    if text.len() <= MAX_DISPLAY_CHARS {
        text
    } else {
        text.take(MAX_DISPLAY_CHARS as int)
            + "\n… [truncated; full output retained in raw logs]"@
    }
}

/// A document as text: strings as they are, anything else pretty-printed.
pub open spec fn summary_text(value: JsonView) -> Seq<char> {
    match value {
        JsonView::Text(text) => text,
        other => pretty_text(other),
    }
}

/// The name under which a tool is shown.
pub open spec fn shown_tool_name(tool_name: Seq<char>) -> Seq<char> {
    if tool_name == "read"@ {
        "Read"@
    } else if tool_name == "write"@ || tool_name == "edit"@ {
        "Edit"@
    } else if tool_name == "bash"@ {
        "Bash"@
    } else if tool_name == "grep"@ || tool_name == "find"@ || tool_name == "ls"@ {
        "Search"@
    } else {
        tool_name
    }
}

/// The string argument `key`, or the empty string.
pub open spec fn argument(args: Option<JsonView>, key: Seq<char>) -> Seq<char> {
    match args {
        Some(args) => string_field_or_empty(args, key),
        None => Seq::empty(),
    }
}

/// What a search tool looks for: the first argument present of `pattern`,
/// `query` and `path`, where it is a string.
pub open spec fn search_query(args: Option<JsonView>) -> Seq<char> {
    match args {
        Some(args) => {
            let value = if field(args, "pattern"@) is Some {
                field(args, "pattern"@)
            } else if field(args, "query"@) is Some {
                field(args, "query"@)
            } else {
                field(args, "path"@)
            };
            match string_of(value) {
                Some(text) => text,
                None => Seq::empty(),
            }
        },
        None => Seq::empty(),
    }
}

/// The action that a call of a PI tool is.
pub open spec fn tool_action(
    tool_name: Seq<char>,
    args: Option<JsonView>,
    result: Option<JsonView>,
) -> ActionView {
    if tool_name == "read"@ {
        ActionView::FileRead { path: argument(args, "path"@) }
    } else if tool_name == "write"@ || tool_name == "edit"@ {
        ActionView::FileEdit { path: argument(args, "path"@), changes: Seq::empty() }
    } else if tool_name == "bash"@ {
        ActionView::CommandRun {
            command: argument(args, "command"@),
            result: match result {
                Some(result) => Some(
                    RunResultView {
                        exit_status: None,
                        output: Some(display_text(summary_text(result))),
                    },
                ),
                None => None,
            },
        }
    } else if tool_name == "grep"@ || tool_name == "find"@ || tool_name == "ls"@ {
        ActionView::Search { query: search_query(args) }
    } else {
        ActionView::Tool {
            tool_name,
            arguments: match args {
                Some(args) => Some(JsonView::Text(display_text(summary_text(args)))),
                None => None,
            },
            result: match result {
                Some(result) => Some(
                    ToolResultView {
                        value_type: ToolResultValueType::Markdown,
                        value: JsonView::Text(display_text(summary_text(result))),
                    },
                ),
                None => None,
            },
        }
    }
}

/// The texts of the text blocks among `blocks`, one after the other.
pub open spec fn block_texts(blocks: Seq<JsonView>) -> Seq<char>
    decreases blocks.len(),
{
    if blocks.len() == 0 {
        Seq::empty()
    } else {
        let before = block_texts(blocks.drop_last());
        if string_field(blocks.last(), "type"@) == Some("text"@) {
            before + string_field_or_empty(blocks.last(), "text"@)
        } else {
            before
        }
    }
}

/// The text of a message: its content where that is a string, the texts of
/// its text blocks where it is an array, and otherwise nothing.
pub open spec fn content_text(message: JsonView) -> Seq<char> {
    match field(message, "content"@) {
        Some(JsonView::Text(text)) => text,
        Some(JsonView::Array(blocks)) => block_texts(blocks),
        _ => Seq::empty(),
    }
}

/// Cuts a text to what an entry shows.
pub fn truncate_for_display(text: &str) -> (shown: String)
    ensures
        shown@ == display_text(text@),
{
    let chars = chars_of(text);
    if chars.len() <= MAX_DISPLAY_CHARS {
        return text.to_owned();
    }
    let mut shown = string_between(&chars, 0, MAX_DISPLAY_CHARS);
    assert(text@.subrange(0, MAX_DISPLAY_CHARS as int) =~= text@.take(MAX_DISPLAY_CHARS as int));
    shown.append("\n… [truncated; full output retained in raw logs]");
    shown
}

/// A document as text.
pub fn summarize_value(value: &Json) -> (text: String)
    ensures
        text@ == summary_text(value@),
{
    match value {
        Json::Text(text) => text.clone(),
        other => print_pretty(other),
    }
}

/// The name under which a tool is shown.
pub fn display_tool_name(tool_name: &str) -> (shown: String)
    ensures
        shown@ == shown_tool_name(tool_name@),
{
    if same(tool_name, "read") {
        "Read".to_owned()
    } else if same(tool_name, "write") || same(tool_name, "edit") {
        "Edit".to_owned()
    } else if same(tool_name, "bash") {
        "Bash".to_owned()
    } else if same(tool_name, "grep") || same(tool_name, "find") || same(tool_name, "ls") {
        "Search".to_owned()
    } else {
        tool_name.to_owned()
    }
}

fn string_argument(args: &Option<Json>, key: &str) -> (text: String)
    ensures
        text@ == argument(opt_json(*args), key@),
{
    match args {
        Some(args) => args.str_field_or_empty(key),
        None => String::new(),
    }
}

fn query_argument(args: &Option<Json>) -> (query: String)
    ensures
        query@ == search_query(opt_json(*args)),
{
    match args {
        Some(args) => {
            let value = match args.get("pattern") {
                Some(value) => Some(value),
                None => match args.get("query") {
                    Some(value) => Some(value),
                    None => args.get("path"),
                },
            };
            match value {
                Some(value) => match value.as_str() {
                    Some(text) => text.clone(),
                    None => String::new(),
                },
                None => String::new(),
            }
        },
        None => String::new(),
    }
}

/// The action that a call of a PI tool is.
pub fn map_action(tool_name: &str, args: &Option<Json>, result: &Option<Json>) -> (action:
    ActionType)
    ensures
        action@ == tool_action(tool_name@, opt_json(*args), opt_json(*result)),
{
    if same(tool_name, "read") {
        ActionType::FileRead { path: string_argument(args, "path") }
    } else if same(tool_name, "write") || same(tool_name, "edit") {
        let changes: Vec<Json> = Vec::new();
        assert(json_views(changes@) =~= Seq::empty());
        ActionType::FileEdit { path: string_argument(args, "path"), changes }
    } else if same(tool_name, "bash") {
        let run_result = match result {
            Some(result) => {
                let summary = summarize_value(result);
                Some(
                    CommandRunResult {
                        exit_status: None,
                        output: Some(truncate_for_display(&summary)),
                    },
                )
            },
            None => None,
        };
        ActionType::CommandRun { command: string_argument(args, "command"), result: run_result }
    } else if same(tool_name, "grep") || same(tool_name, "find") || same(tool_name, "ls") {
        ActionType::Search { query: query_argument(args) }
    } else {
        let arguments = match args {
            Some(args) => {
                let summary = summarize_value(args);
                Some(Json::Text(truncate_for_display(&summary)))
            },
            None => None,
        };
        let tool_result = match result {
            Some(result) => {
                let summary = summarize_value(result);
                Some(ToolResult::markdown(truncate_for_display(&summary)))
            },
            None => None,
        };
        ActionType::Tool { tool_name: tool_name.to_owned(), arguments, result: tool_result }
    }
}

/// The texts of the text blocks among `blocks`, one after the other.
pub fn text_blocks_join(blocks: &Vec<Json>) -> (text: String)
    ensures
        text@ == block_texts(json_views(blocks@)),
{
    let mut text = String::new();
    let mut i: usize = 0;
    while i < blocks.len()
        invariant
            i <= blocks@.len(),
            text@ == block_texts(json_views(blocks@).take(i as int)),
        decreases blocks@.len() - i,
    {
        proof {
            let seen = json_views(blocks@).take(i + 1);
            assert(seen.drop_last() =~= json_views(blocks@).take(i as int));
            assert(seen.last() == blocks@[i as int]@);
        }
        if blocks[i].field_is("type", "text") {
            let piece = blocks[i].str_field_or_empty("text");
            text.append(&piece);
        }
        i = i + 1;
    }
    assert(json_views(blocks@).take(blocks@.len() as int) =~= json_views(blocks@));
    text
}

/// The text of a message.
pub fn message_content_text(message: &Json) -> (text: String)
    ensures
        text@ == content_text(message@),
{
    match message.get("content") {
        Some(content) => match content.as_str() {
            Some(text) => text.clone(),
            None => match content.as_array() {
                Some(blocks) => text_blocks_join(blocks),
                None => String::new(),
            },
        },
        None => String::new(),
    }
}

// ---------------------------------------------------------------------------
// Live frames
// ---------------------------------------------------------------------------

/// What an update of an assistant message brings.
#[derive(Debug, PartialEq, Eq)]
pub enum AssistantEvent {
    TextDelta { delta: String },
    ThinkingDelta { delta: String },
    Other,
}

/// A frame of PI's output, as far as the conversation shows it.
#[allow(inconsistent_fields)]
#[derive(Debug, PartialEq, Eq)]
pub enum PiFrame {
    SessionStart { session_id: String },
    TokenUsage { tokens: Option<u32>, context_window: Option<u32> },
    MessageUpdate { event: AssistantEvent },
    MessageEnd { message: Json },
    ToolStart { tool_call_id: String, tool_name: String, args: Option<Json> },
    ToolUpdate { tool_call_id: String, tool_name: String, partial_result: Option<Json> },
    ToolEnd { tool_call_id: String, tool_name: String, result: Option<Json>, is_error: bool },
    ExtensionError { error: String },
    Other,
}

/// What a frame does to the conversation: name its session, add an entry, or
/// replace one.
#[derive(Debug, PartialEq, Eq)]
pub enum LogAction {
    SessionId(String),
    Add { index: usize, entry: NormalizedEntry },
    Replace { index: usize, entry: NormalizedEntry },
}

/// Model of [`LogAction`].
pub enum LogActionView {
    SessionId(Seq<char>),
    Add { index: int, entry: EntryView },
    Replace { index: int, entry: EntryView },
}

impl View for LogAction {
    type V = LogActionView;

    open spec fn view(&self) -> LogActionView {
        match self {
            LogAction::SessionId(id) => LogActionView::SessionId(id@),
            LogAction::Add { index, entry } => LogActionView::Add {
                index: *index as int,
                entry: entry@,
            },
            LogAction::Replace { index, entry } => LogActionView::Replace {
                index: *index as int,
                entry: entry@,
            },
        }
    }
}

/// The model of an optional action.
pub open spec fn opt_action(action: Option<LogAction>) -> Option<LogActionView> {
    match action {
        Some(action) => Some(action@),
        None => None,
    }
}

/// A message that is being streamed: the index of its entry, and the text so
/// far.
#[derive(Debug)]
pub struct StreamingEntry {
    pub index: usize,
    pub content: String,
}

/// Model of [`StreamingEntry`].
pub struct StreamView {
    pub index: int,
    pub content: Seq<char>,
}

/// The model of an optional stream.
pub open spec fn opt_stream(stream: Option<StreamingEntry>) -> Option<StreamView> {
    match stream {
        Some(stream) => Some(StreamView { index: stream.index as int, content: stream.content@ }),
        None => None,
    }
}

/// A tool that runs: the index of its entry, and its arguments.
#[derive(Debug)]
pub struct RunningTool {
    pub index: usize,
    pub args: Option<Json>,
}

/// What is known of the frames so far.
pub struct LogState {
    pub stored_session: bool,
    pub assistant: Option<StreamingEntry>,
    pub thinking: Option<StreamingEntry>,
    pub tools: StringHashMap<RunningTool>,
}

/// Model of [`LogState`].
pub struct LogModel {
    pub stored_session: bool,
    pub assistant: Option<StreamView>,
    pub thinking: Option<StreamView>,
    pub tools: Map<Seq<char>, RunningTool>,
}

impl View for LogState {
    type V = LogModel;

    open spec fn view(&self) -> LogModel {
        LogModel {
            stored_session: self.stored_session,
            assistant: opt_stream(self.assistant),
            thinking: opt_stream(self.thinking),
            tools: self.tools@,
        }
    }
}

/// A delta of a stream: the stream afterwards, and the entry that it adds, at
/// a new index, or replaces.
pub open spec fn stream_step(
    stream: Option<StreamView>,
    kind: EntryKind,
    delta: Seq<char>,
    index: int,
) -> (Option<StreamView>, LogActionView) {
    match stream {
        Some(stream) => {
            let content = stream.content + delta;
            (
                Some(StreamView { index: stream.index, content }),
                LogActionView::Replace { index: stream.index, entry: plain_entry(kind, content) },
            )
        },
        None => (
            Some(StreamView { index, content: delta }),
            LogActionView::Add { index, entry: plain_entry(kind, delta) },
        ),
    }
}

/// The text of an ended assistant message; empty where the message is none of
/// an assistant.
pub open spec fn ended_text(message: JsonView) -> Seq<char> {
    if string_field(message, "role"@) == Some("assistant"@) {
        content_text(message)
    } else {
        Seq::empty()
    }
}

/// The entry of a tool call.
pub open spec fn tool_entry(
    tool_name: Seq<char>,
    args: Option<JsonView>,
    result: Option<JsonView>,
    status: ToolStatus,
) -> EntryView {
    plain_entry(
        EntryKind::ToolUse {
            tool_name: shown_tool_name(tool_name),
            action: tool_action(tool_name, args, result),
            status,
        },
        tool_name,
    )
}

/// The entry of a token usage.
pub open spec fn usage_entry(tokens: u32, window: u32) -> EntryView {
    plain_entry(
        EntryKind::TokenUsageInfo(
            TokenUsageInfo { total_tokens: tokens, model_context_window: window },
        ),
        "Tokens used: "@ + decimal(tokens as nat) + " / Context window: "@ + decimal(window as nat),
    )
}

/// Whether a frame puts an entry at a new index.
pub open spec fn takes_index(state: LogModel, frame: PiFrame) -> bool {
    match frame {
        PiFrame::TokenUsage { tokens, context_window } => tokens is Some && context_window is Some,
        PiFrame::MessageUpdate { event: AssistantEvent::TextDelta { .. } } => state.assistant is None,
        PiFrame::MessageUpdate { event: AssistantEvent::ThinkingDelta { .. } } =>
            state.thinking is None,
        PiFrame::MessageEnd { message } => ended_text(message@).len() > 0 && state.assistant is None,
        PiFrame::ToolStart { .. } => true,
        PiFrame::ExtensionError { .. } => true,
        _ => false,
    }
}

/// What a frame leads to: the state afterwards, and what it does to the
/// conversation. `index` is the next free index.
pub open spec fn frame_step(state: LogModel, frame: PiFrame, index: int) -> (
    LogModel,
    Option<LogActionView>,
) {
    match frame {
        PiFrame::SessionStart { session_id } => if state.stored_session {
            (state, None)
        } else {
            (
                LogModel { stored_session: true, ..state },
                Some(LogActionView::SessionId(session_id@)),
            )
        },
        PiFrame::TokenUsage { tokens: Some(tokens), context_window: Some(window) } => (
            state,
            Some(LogActionView::Add { index, entry: usage_entry(tokens, window) }),
        ),
        PiFrame::TokenUsage { .. } => (state, None),
        PiFrame::MessageUpdate { event: AssistantEvent::TextDelta { delta } } => {
            let (assistant, action) = stream_step(
                state.assistant,
                EntryKind::AssistantMessage,
                delta@,
                index,
            );
            (LogModel { assistant, ..state }, Some(action))
        },
        PiFrame::MessageUpdate { event: AssistantEvent::ThinkingDelta { delta } } => {
            let (thinking, action) = stream_step(
                state.thinking,
                EntryKind::Thinking,
                delta@,
                index,
            );
            (LogModel { thinking, ..state }, Some(action))
        },
        PiFrame::MessageUpdate { event: AssistantEvent::Other } => (state, None),
        PiFrame::MessageEnd { message } => {
            let content = ended_text(message@);
            if content.len() == 0 {
                (state, None)
            } else {
                let at = match state.assistant {
                    Some(stream) => stream.index,
                    None => index,
                };
                (
                    LogModel { assistant: Some(StreamView { index: at, content }), ..state },
                    Some(
                        LogActionView::Replace {
                            index: at,
                            entry: plain_entry(EntryKind::AssistantMessage, content),
                        },
                    ),
                )
            }
        },
        PiFrame::ToolStart { tool_call_id, tool_name, args } => (
            LogModel {
                tools: state.tools.insert(
                    tool_call_id@,
                    RunningTool { index: index as usize, args },
                ),
                ..state
            },
            Some(
                LogActionView::Add {
                    index,
                    entry: tool_entry(
                        tool_name@,
                        opt_json(args),
                        None,
                        ToolStatus::Created,
                    ),
                },
            ),
        ),
        PiFrame::ToolUpdate { tool_call_id, tool_name, partial_result } => if state.tools.contains_key(
            tool_call_id@,
        ) {
            let tool = state.tools[tool_call_id@];
            (
                state,
                Some(
                    LogActionView::Replace {
                        index: tool.index as int,
                        entry: tool_entry(
                            tool_name@,
                            opt_json(tool.args),
                            opt_json(partial_result),
                            ToolStatus::Created,
                        ),
                    },
                ),
            )
        } else {
            (state, None)
        },
        PiFrame::ToolEnd { tool_call_id, tool_name, result, is_error } => if state.tools.contains_key(
            tool_call_id@,
        ) {
            let tool = state.tools[tool_call_id@];
            (
                LogModel { tools: state.tools.remove(tool_call_id@), ..state },
                Some(
                    LogActionView::Replace {
                        index: tool.index as int,
                        entry: tool_entry(
                            tool_name@,
                            opt_json(tool.args),
                            opt_json(result),
                            if is_error {
                                ToolStatus::Failed
                            } else {
                                ToolStatus::Success
                            },
                        ),
                    },
                ),
            )
        } else {
            (state, None)
        },
        PiFrame::ExtensionError { error } => (
            state,
            Some(
                LogActionView::Add {
                    index,
                    entry: plain_entry(
                        EntryKind::ErrorMessage { error_type: NormalizedEntryError::Other },
                        error@,
                    ),
                },
            ),
        ),
        PiFrame::Other => (state, None),
    }
}

fn append_streaming(
    stream: &mut Option<StreamingEntry>,
    entry_type: NormalizedEntryType,
    delta: String,
    index: usize,
) -> (action: LogAction)
    ensures
        (opt_stream(*final(stream)), action@) == stream_step(
            opt_stream(*old(stream)),
            entry_type@,
            delta@,
            index as int,
        ),
{
    match stream.take() {
        Some(current) => {
            let mut content = current.content;
            content.append(&delta);
            let entry = NormalizedEntry::plain(entry_type, content.clone());
            *stream = Some(StreamingEntry { index: current.index, content });
            LogAction::Replace { index: current.index, entry }
        },
        None => {
            let entry = NormalizedEntry::plain(entry_type, delta.clone());
            *stream = Some(StreamingEntry { index, content: delta });
            LogAction::Add { index, entry }
        },
    }
}

/// The entry of a tool call.
pub fn tool_use(
    tool_name: &str,
    args: &Option<Json>,
    result: &Option<Json>,
    status: ToolStatus,
) -> (entry: NormalizedEntry)
    ensures
        entry@ == tool_entry(tool_name@, opt_json(*args), opt_json(*result), status),
{
    NormalizedEntry::plain(
        NormalizedEntryType::ToolUse {
            tool_name: display_tool_name(tool_name),
            action_type: map_action(tool_name, args, result),
            status,
        },
        tool_name.to_owned(),
    )
}

/// The text of an ended assistant message.
pub fn extract_assistant_text(message: &Json) -> (text: String)
    ensures
        text@ == ended_text(message@),
{
    if message.field_is("role", "assistant") {
        message_content_text(message)
    } else {
        String::new()
    }
}

impl LogState {
    /// Nothing has been seen.
    pub fn new() -> (state: Self)
        ensures
            state@ == (LogModel {
                stored_session: false,
                assistant: None,
                thinking: None,
                tools: Map::empty(),
            }),
    {
        LogState {
            stored_session: false,
            assistant: None,
            thinking: None,
            tools: StringHashMap::new(),
        }
    }

    /// Whether a frame puts an entry at a new index.
    pub fn needs_index(&self, frame: &PiFrame) -> (needed: bool)
        ensures
            needed == takes_index(self@, *frame),
    {
        match frame {
            PiFrame::TokenUsage { tokens, context_window } => tokens.is_some()
                && context_window.is_some(),
            PiFrame::MessageUpdate { event: AssistantEvent::TextDelta { .. } } =>
                self.assistant.is_none(),
            PiFrame::MessageUpdate { event: AssistantEvent::ThinkingDelta { .. } } =>
                self.thinking.is_none(),
            PiFrame::MessageEnd { message } => {
                let text = extract_assistant_text(message);
                !text.as_str().is_empty() && self.assistant.is_none()
            },
            PiFrame::ToolStart { .. } => true,
            PiFrame::ExtensionError { .. } => true,
            _ => false,
        }
    }

    /// Takes in one frame, `index` being the next free index.
    pub fn handle_frame(&mut self, frame: PiFrame, index: usize) -> (action: Option<LogAction>)
        ensures
            (final(self)@, opt_action(action)) == frame_step(old(self)@, frame, index as int),
    {
        match frame {
            PiFrame::SessionStart { session_id } => {
                if self.stored_session {
                    None
                } else {
                    self.stored_session = true;
                    Some(LogAction::SessionId(session_id))
                }
            },
            PiFrame::TokenUsage { tokens: Some(tokens), context_window: Some(window) } => {
                let used = decimal_text(tokens as u64);
                let limit = decimal_text(window as u64);
                let entry = NormalizedEntry::plain(
                    NormalizedEntryType::TokenUsageInfo(
                        TokenUsageInfo { total_tokens: tokens, model_context_window: window },
                    ),
                    concat4("Tokens used: ", &used, " / Context window: ", &limit),
                );
                Some(LogAction::Add { index, entry })
            },
            PiFrame::TokenUsage { .. } => None,
            PiFrame::MessageUpdate { event: AssistantEvent::TextDelta { delta } } => Some(
                append_streaming(
                    &mut self.assistant,
                    NormalizedEntryType::AssistantMessage,
                    delta,
                    index,
                ),
            ),
            PiFrame::MessageUpdate { event: AssistantEvent::ThinkingDelta { delta } } => Some(
                append_streaming(&mut self.thinking, NormalizedEntryType::Thinking, delta, index),
            ),
            PiFrame::MessageUpdate { event: AssistantEvent::Other } => None,
            PiFrame::MessageEnd { message } => self.handle_message_end(&message, index),
            PiFrame::ToolStart { tool_call_id, tool_name, args } => {
                let none: Option<Json> = None;
                let entry = tool_use(&tool_name, &args, &none, ToolStatus::Created);
                self.tools.insert(tool_call_id, RunningTool { index, args });
                Some(LogAction::Add { index, entry })
            },
            PiFrame::ToolUpdate { tool_call_id, tool_name, partial_result } => match self.tools.get(
                tool_call_id.as_str(),
            ) {
                Some(tool) => {
                    let entry = tool_use(
                        &tool_name,
                        &tool.args,
                        &partial_result,
                        ToolStatus::Created,
                    );
                    Some(LogAction::Replace { index: tool.index, entry })
                },
                None => None,
            },
            PiFrame::ToolEnd { tool_call_id, tool_name, result, is_error } => self.handle_tool_end(
                tool_call_id,
                tool_name,
                &result,
                is_error,
            ),
            PiFrame::ExtensionError { error } => {
                let entry = NormalizedEntry::plain(
                    NormalizedEntryType::ErrorMessage { error_type: NormalizedEntryError::Other },
                    error,
                );
                Some(LogAction::Add { index, entry })
            },
            PiFrame::Other => None,
        }
    }

    /// The end of a message is authoritative: it replaces the streamed text, so
    /// that missing deltas cannot corrupt the transcript.
    fn handle_message_end(&mut self, message: &Json, index: usize) -> (action: Option<LogAction>)
        ensures
            forall|frame: PiFrame|
                frame matches PiFrame::MessageEnd { message: ended } && ended@ == message@ ==> (
                    final(self)@,
                    opt_action(action),
                ) == #[trigger] frame_step(old(self)@, frame, index as int),
    {
        let content = extract_assistant_text(message);
        if content.as_str().is_empty() {
            return None;
        }
        let at: usize = match &self.assistant {
            Some(stream) => stream.index,
            None => index,
        };
        let entry = NormalizedEntry::plain(NormalizedEntryType::AssistantMessage, content.clone());
        self.assistant = Some(StreamingEntry { index: at, content });
        Some(LogAction::Replace { index: at, entry })
    }

    fn handle_tool_end(
        &mut self,
        tool_call_id: String,
        tool_name: String,
        result: &Option<Json>,
        is_error: bool,
    ) -> (action: Option<LogAction>)
        ensures
            forall|index: int|
                (final(self)@, opt_action(action)) == #[trigger] frame_step(
                    old(self)@,
                    (PiFrame::ToolEnd { tool_call_id, tool_name, result: *result, is_error }),
                    index,
                ),
    {
        let status = if is_error {
            ToolStatus::Failed
        } else {
            ToolStatus::Success
        };
        let action = match self.tools.get(tool_call_id.as_str()) {
            Some(tool) => {
                let entry = tool_use(&tool_name, &tool.args, result, status);
                LogAction::Replace { index: tool.index, entry }
            },
            None => {
                return None;
            },
        };
        self.tools.remove(tool_call_id.as_str());
        Some(action)
    }
}

/// A session is named once, by its first start frame.
pub proof fn law_session_is_named_once(state: LogModel, first: PiFrame, second: PiFrame, i: int, j: int)
    requires
        first is SessionStart,
        second is SessionStart,
    ensures
        frame_step(frame_step(state, first, i).0, second, j).1 is None,
        frame_step(state, first, i).1 is Some <==> !state.stored_session,
{
}

/// What the end of an assistant message shows is its own text, whatever was
/// streamed before.
pub proof fn law_message_end_is_authoritative(state: LogModel, message: Json, index: int)
    requires
        ended_text(message@).len() > 0,
    ensures
        ({
            let (after, action) = frame_step(state, (PiFrame::MessageEnd { message }), index);
            &&& after.assistant matches Some(stream) && stream.content == ended_text(message@)
            &&& action matches Some(LogActionView::Replace { entry, .. }) && entry == plain_entry(
                EntryKind::AssistantMessage,
                ended_text(message@),
            )
        }),
{
}

/// A partial result replaces what was shown before and adds nothing to what
/// comes after: the state is the same with and without it.
pub proof fn law_partial_results_replace(state: LogModel, update: PiFrame, index: int)
    requires
        update is ToolUpdate,
    ensures
        frame_step(state, update, index).0 == state,
        frame_step(state, update, index).1 matches Some(action) ==> action is Replace,
{
}

/// The state after a sequence of text deltas, the first of which may take
/// `index`.
pub open spec fn after_deltas(state: LogModel, deltas: Seq<String>, index: int) -> LogModel
    decreases deltas.len(),
{
    if deltas.len() == 0 {
        state
    } else {
        frame_step(
            after_deltas(state, deltas.drop_last(), index),
            (PiFrame::MessageUpdate {
                event: AssistantEvent::TextDelta { delta: deltas.last() },
            }),
            index,
        ).0
    }
}

/// Streamed text is the deltas in order, with nothing lost or repeated.
pub proof fn law_streamed_text_is_the_deltas(state: LogModel, deltas: Seq<String>, index: int)
    requires
        state.assistant is None,
        deltas.len() > 0,
    ensures
        after_deltas(state, deltas, index).assistant == Some(
            StreamView { index, content: joined(views(deltas), Seq::empty()) },
        ),
    decreases deltas.len(),
{
    let rest = deltas.drop_last();
    assert(views(deltas).drop_last() =~= views(rest));
    assert(views(deltas).last() == deltas.last()@);
    if deltas.len() == 1 {
        assert(after_deltas(state, rest, index) == state);
        assert(joined(views(deltas), Seq::empty()) == deltas[0]@);
    } else {
        law_streamed_text_is_the_deltas(state, rest, index);
        let before = joined(views(rest), Seq::empty());
        assert(before + Seq::empty() + deltas.last()@ =~= before + deltas.last()@);
    }
}

/// The end of a streamed message replaces the entry that was streamed, once,
/// with its own text.
pub proof fn law_message_end_replaces_the_streamed_entry(
    state: LogModel,
    deltas: Seq<String>,
    message: Json,
    index: int,
    later: int,
)
    requires
        state.assistant is None,
        deltas.len() > 0,
        string_field(message@, "role"@) == Some("assistant"@),
        content_text(message@).len() > 0,
    ensures
        ({
            let streamed = after_deltas(state, deltas, index);
            let text = content_text(message@);
            frame_step(streamed, (PiFrame::MessageEnd { message }), later) == (
                (LogModel { assistant: Some(StreamView { index, content: text }), ..streamed }),
                Some(
                    LogActionView::Replace {
                        index,
                        entry: plain_entry(EntryKind::AssistantMessage, text),
                    },
                ),
            )
        }),
{
    law_streamed_text_is_the_deltas(state, deltas, index);
}

/// The end of a message of another role, or of one without text, shows nothing
/// and changes nothing.
pub proof fn law_other_message_ends_are_not_shown(state: LogModel, message: Json, index: int)
    requires
        string_field(message@, "role"@) != Some("assistant"@) || content_text(message@).len()
            == 0,
    ensures
        frame_step(state, (PiFrame::MessageEnd { message }), index) == (
            state,
            None::<LogActionView>,
        ),
{
}

/// Every running tool can be completed: a tool that was started and not ended
/// is shown with its outcome at the index of its entry when it ends, and is
/// then no longer running.
pub proof fn law_tool_end_completes_its_start(
    state: LogModel,
    id: String,
    name: String,
    args: Option<Json>,
    result: Option<Json>,
    is_error: bool,
    index: usize,
    later: int,
)
    ensures
        ({
            let started = frame_step(
                state,
                (PiFrame::ToolStart { tool_call_id: id, tool_name: name, args }),
                index as int,
            ).0;
            let (ended, action) = frame_step(
                started,
                (PiFrame::ToolEnd { tool_call_id: id, tool_name: name, result, is_error }),
                later,
            );
            &&& ended.tools == state.tools.remove(id@)
            &&& action == Some(
                LogActionView::Replace {
                    index: index as int,
                    entry: tool_entry(
                        name@,
                        opt_json(args),
                        opt_json(result),
                        if is_error {
                            ToolStatus::Failed
                        } else {
                            ToolStatus::Success
                        },
                    ),
                },
            )
        }),
{
    let tool = RunningTool { index, args };
    assert(state.tools.insert(id@, tool).remove(id@) =~= state.tools.remove(id@));
}

proof fn lemma_tool_names_differ()
    ensures
        "read"@ != "write"@,
        "read"@ != "edit"@,
        "read"@ != "bash"@,
        "read"@ != "grep"@,
        "read"@ != "find"@,
        "read"@ != "ls"@,
        "write"@ != "bash"@,
        "write"@ != "grep"@,
        "write"@ != "find"@,
        "write"@ != "ls"@,
        "edit"@ != "bash"@,
        "edit"@ != "grep"@,
        "edit"@ != "find"@,
        "edit"@ != "ls"@,
        "bash"@ != "grep"@,
        "bash"@ != "find"@,
        "bash"@ != "ls"@,
{
    reveal_strlit("read");
    reveal_strlit("write");
    reveal_strlit("edit");
    reveal_strlit("bash");
    reveal_strlit("grep");
    reveal_strlit("find");
    reveal_strlit("ls");
    assert("read"@[0] == 'r' && "write"@[0] == 'w' && "edit"@[0] == 'e' && "bash"@[0] == 'b'
        && "grep"@[0] == 'g' && "find"@[0] == 'f' && "ls"@[0] == 'l');
}

/// A file tool is shown with the file that it was given: a `read` as reading
/// it, a `write` or an `edit` as editing it, with whatever result and status.
pub proof fn law_file_tools_name_their_file(
    tool_name: Seq<char>,
    args: JsonView,
    path: Seq<char>,
    result: Option<JsonView>,
    status: ToolStatus,
)
    requires
        string_field(args, "path"@) == Some(path),
    ensures
        tool_name == "read"@ ==> tool_entry(tool_name, Some(args), result, status).kind == (
        EntryKind::ToolUse { tool_name: "Read"@, action: ActionView::FileRead { path }, status }),
        tool_name == "write"@ || tool_name == "edit"@ ==> tool_entry(
            tool_name,
            Some(args),
            result,
            status,
        ).kind == (EntryKind::ToolUse {
            tool_name: "Edit"@,
            action: ActionView::FileEdit { path, changes: Seq::empty() },
            status,
        }),
{
    lemma_tool_names_differ();
}

/// Two calls of a file tool with different paths are shown differently.
pub proof fn law_different_files_are_shown_differently(
    tool_name: Seq<char>,
    left: JsonView,
    right: JsonView,
    left_result: Option<JsonView>,
    right_result: Option<JsonView>,
    left_status: ToolStatus,
    right_status: ToolStatus,
)
    requires
        tool_name == "read"@ || tool_name == "write"@ || tool_name == "edit"@,
        string_field(left, "path"@) is Some,
        string_field(right, "path"@) is Some,
        string_field(left, "path"@) != string_field(right, "path"@),
    ensures
        tool_entry(tool_name, Some(left), left_result, left_status) != tool_entry(
            tool_name,
            Some(right),
            right_result,
            right_status,
        ),
{
    lemma_tool_names_differ();
}

/// A shell tool is shown with the command that it was given and, once there is
/// a result, with that as its output, in full unless it is too long.
pub proof fn law_shell_tool_shows_command_and_output(
    args: JsonView,
    command: Seq<char>,
    output: Seq<char>,
    value: JsonView,
    status: ToolStatus,
)
    requires
        string_field(args, "command"@) == Some(command),
    ensures
        tool_entry("bash"@, Some(args), None, status).kind == (EntryKind::ToolUse {
            tool_name: "Bash"@,
            action: ActionView::CommandRun { command, result: None },
            status,
        }),
        output.len() <= MAX_DISPLAY_CHARS ==> tool_entry(
            "bash"@,
            Some(args),
            Some(JsonView::Text(output)),
            status,
        ).kind == (EntryKind::ToolUse {
            tool_name: "Bash"@,
            action: ActionView::CommandRun {
                command,
                result: Some(RunResultView { exit_status: None, output: Some(output) }),
            },
            status,
        }),
        !(value is Text) && pretty_text(value).len() <= MAX_DISPLAY_CHARS ==> tool_entry(
            "bash"@,
            Some(args),
            Some(value),
            status,
        ).kind == (EntryKind::ToolUse {
            tool_name: "Bash"@,
            action: ActionView::CommandRun {
                command,
                result: Some(RunResultView { exit_status: None, output: Some(pretty_text(value)) }),
            },
            status,
        }),
{
    lemma_tool_names_differ();
}

/// A search tool is shown with what it looks for: its pattern, else its query,
/// else its path.
pub proof fn law_search_tools_show_what_they_look_for(
    tool_name: Seq<char>,
    args: JsonView,
    wanted: Seq<char>,
    result: Option<JsonView>,
    status: ToolStatus,
)
    requires
        tool_name == "grep"@ || tool_name == "find"@ || tool_name == "ls"@,
        field(args, "pattern"@) == Some(JsonView::Text(wanted)) || (field(args, "pattern"@) is None
            && field(args, "query"@) == Some(JsonView::Text(wanted))) || (field(
            args,
            "pattern"@,
        ) is None && field(args, "query"@) is None && field(args, "path"@) == Some(
            JsonView::Text(wanted),
        )),
    ensures
        tool_entry(tool_name, Some(args), result, status).kind == (EntryKind::ToolUse {
            tool_name: "Search"@,
            action: ActionView::Search { query: wanted },
            status,
        }),
{
    lemma_tool_names_differ();
}

/// Any other tool is shown under its own name, with its arguments and its
/// result as text, in full unless they are too long.
pub proof fn law_other_tools_show_arguments_and_result(
    tool_name: Seq<char>,
    args: JsonView,
    output: Seq<char>,
    status: ToolStatus,
)
    requires
        tool_name != "read"@ && tool_name != "write"@ && tool_name != "edit"@ && tool_name
            != "bash"@ && tool_name != "grep"@ && tool_name != "find"@ && tool_name != "ls"@,
        output.len() <= MAX_DISPLAY_CHARS,
        args is Text ==> args->Text_0.len() <= MAX_DISPLAY_CHARS,
        !(args is Text) ==> pretty_text(args).len() <= MAX_DISPLAY_CHARS,
    ensures
        tool_entry(tool_name, Some(args), Some(JsonView::Text(output)), status).kind == (
        EntryKind::ToolUse {
            tool_name,
            action: ActionView::Tool {
                tool_name,
                arguments: Some(
                    JsonView::Text(
                        if args is Text {
                            args->Text_0
                        } else {
                            pretty_text(args)
                        },
                    ),
                ),
                result: Some(
                    ToolResultView {
                        value_type: ToolResultValueType::Markdown,
                        value: JsonView::Text(output),
                    },
                ),
            },
            status,
        }),
        tool_entry(tool_name, None, None, status).kind == (EntryKind::ToolUse {
            tool_name,
            action: ActionView::Tool { tool_name, arguments: None, result: None },
            status,
        }),
{
}

/// The entry of a tool call is called after the tool, under the name that PI
/// gives it.
pub proof fn law_tool_entries_are_called_after_the_tool(
    tool_name: Seq<char>,
    args: Option<JsonView>,
    result: Option<JsonView>,
    status: ToolStatus,
)
    ensures
        tool_entry(tool_name, args, result, status).content == tool_name,
        tool_entry(tool_name, args, result, status).timestamp is None,
        tool_entry(tool_name, args, result, status).metadata is None,
        tool_entry(tool_name, args, result, status).kind matches EntryKind::ToolUse {
            status: shown,
            ..
        } && shown == status,
{
}

/// What is shown of a text is the text where it is short enough, and otherwise
/// begins with its first characters and ends with a note.
pub proof fn law_long_texts_are_cut(text: Seq<char>)
    ensures
        text.len() <= MAX_DISPLAY_CHARS ==> display_text(text) == text,
        text.len() > MAX_DISPLAY_CHARS ==> display_text(text).take(MAX_DISPLAY_CHARS as int)
            == text.take(MAX_DISPLAY_CHARS as int) && display_text(text).skip(
            MAX_DISPLAY_CHARS as int,
        ) == "\n… [truncated; full output retained in raw logs]"@,
{
    let note = "\n… [truncated; full output retained in raw logs]"@;
    if text.len() > MAX_DISPLAY_CHARS {
        let cut = text.take(MAX_DISPLAY_CHARS as int);
        assert((cut + note).take(MAX_DISPLAY_CHARS as int) =~= cut);
        assert((cut + note).skip(MAX_DISPLAY_CHARS as int) =~= note);
    }
}

/// The text of a message is its content where that is a string, and the texts
/// of its text blocks, one after the other, where it is an array; other blocks
/// add nothing.
pub proof fn law_message_text_is_its_text_blocks(
    first: Seq<JsonView>,
    second: Seq<JsonView>,
    block: JsonView,
    text: Seq<char>,
    message: JsonView,
)
    ensures
        block_texts(first + second) == block_texts(first) + block_texts(second),
        string_field(block, "type"@) == Some("text"@) && string_field(block, "text"@) == Some(text)
            ==> block_texts(seq![block]) == text,
        string_field(block, "type"@) != Some("text"@) ==> block_texts(seq![block]).len() == 0,
        field(message, "content"@) == Some(JsonView::Text(text)) ==> content_text(message) == text,
        field(message, "content"@) == Some(JsonView::Array(first)) ==> content_text(message)
            == block_texts(first),
        field(message, "content"@) is None ==> content_text(message).len() == 0,
{
    reveal_with_fuel(block_texts, 2);
    assert(seq![block].drop_last() =~= Seq::empty());
    assert(Seq::<char>::empty() + text =~= text);
    lemma_block_texts_concat(first, second);
}

proof fn lemma_block_texts_concat(first: Seq<JsonView>, second: Seq<JsonView>)
    ensures
        block_texts(first + second) == block_texts(first) + block_texts(second),
    decreases second.len(),
{
    if second.len() == 0 {
        assert(first + second =~= first);
        assert(block_texts(first) + Seq::empty() =~= block_texts(first));
    } else {
        lemma_block_texts_concat(first, second.drop_last());
        assert((first + second).drop_last() =~= first + second.drop_last());
        let last = string_field_or_empty(second.last(), "text"@);
        assert(block_texts(first) + block_texts(second.drop_last()) + last =~= block_texts(first)
            + (block_texts(second.drop_last()) + last));
    }
}

/// What a live frame adds to a conversation: usage of tokens where both numbers
/// are known, errors of extensions, and the call of a tool that has started.
pub proof fn law_live_frames_add_what_happened(
    state: LogModel,
    tokens: u32,
    window: u32,
    error: String,
    id: String,
    name: String,
    args: Option<Json>,
    index: int,
)
    ensures
        frame_step(
            state,
            (PiFrame::TokenUsage { tokens: Some(tokens), context_window: Some(window) }),
            index,
        ).1 == Some(
            LogActionView::Add {
                index,
                entry: EntryView {
                    timestamp: None,
                    kind: EntryKind::TokenUsageInfo(
                        TokenUsageInfo { total_tokens: tokens, model_context_window: window },
                    ),
                    content: "Tokens used: "@ + decimal(tokens as nat) + " / Context window: "@
                        + decimal(window as nat),
                    metadata: None,
                },
            },
        ),
        frame_step(
            state,
            (PiFrame::TokenUsage { tokens: None, context_window: Some(window) }),
            index,
        ).1 is None,
        frame_step(
            state,
            (PiFrame::TokenUsage { tokens: Some(tokens), context_window: None }),
            index,
        ).1 is None,
        frame_step(state, (PiFrame::ExtensionError { error }), index).1 == Some(
            LogActionView::Add {
                index,
                entry: EntryView {
                    timestamp: None,
                    kind: EntryKind::ErrorMessage { error_type: NormalizedEntryError::Other },
                    content: error@,
                    metadata: None,
                },
            },
        ),
        frame_step(
            state,
            (PiFrame::ToolStart { tool_call_id: id, tool_name: name, args }),
            index,
        ).1 == Some(
            LogActionView::Add {
                index,
                entry: tool_entry(name@, opt_json(args), None, ToolStatus::Created),
            },
        ),
        frame_step(state, PiFrame::Other, index) == (state, None::<LogActionView>),
{
}

/// The thoughts of the assistant are streamed into one entry: the first opens
/// it, each further one extends it in place.
pub proof fn law_thoughts_are_streamed(state: LogModel, delta: String, index: int)
    ensures
        ({
            let (after, action) = frame_step(
                state,
                (PiFrame::MessageUpdate { event: AssistantEvent::ThinkingDelta { delta } }),
                index,
            );
            match state.thinking {
                None => after.thinking == Some(StreamView { index, content: delta@ }) && action
                    == Some(
                    LogActionView::Add {
                        index,
                        entry: EntryView {
                            timestamp: None,
                            kind: EntryKind::Thinking,
                            content: delta@,
                            metadata: None,
                        },
                    },
                ),
                Some(stream) => after.thinking == Some(
                    StreamView { index: stream.index, content: stream.content + delta@ },
                ) && action == Some(
                    LogActionView::Replace {
                        index: stream.index,
                        entry: EntryView {
                            timestamp: None,
                            kind: EntryKind::Thinking,
                            content: stream.content + delta@,
                            metadata: None,
                        },
                    },
                ),
            }
        }),
        frame_step(
            state,
            (PiFrame::MessageUpdate { event: AssistantEvent::ThinkingDelta { delta } }),
            index,
        ).0.assistant == state.assistant,
{
}

/// The text of the assistant is streamed into one entry: the first delta opens
/// it, each further one extends it in place.
pub proof fn law_texts_are_streamed(state: LogModel, delta: String, index: int)
    ensures
        ({
            let action = frame_step(
                state,
                (PiFrame::MessageUpdate { event: AssistantEvent::TextDelta { delta } }),
                index,
            ).1;
            match state.assistant {
                None => action == Some(
                    LogActionView::Add {
                        index,
                        entry: EntryView {
                            timestamp: None,
                            kind: EntryKind::AssistantMessage,
                            content: delta@,
                            metadata: None,
                        },
                    },
                ),
                Some(stream) => action == Some(
                    LogActionView::Replace {
                        index: stream.index,
                        entry: EntryView {
                            timestamp: None,
                            kind: EntryKind::AssistantMessage,
                            content: stream.content + delta@,
                            metadata: None,
                        },
                    },
                ),
            }
        }),
        frame_step(
            state,
            (PiFrame::MessageUpdate { event: AssistantEvent::TextDelta { delta } }),
            index,
        ).0.thinking == state.thinking,
{
}

/// A partial result of a tool that runs is shown in the entry of its call, with
/// the arguments that the call was started with; the call still runs.
pub proof fn law_partial_results_are_shown_in_place(
    state: LogModel,
    id: String,
    name: String,
    args: Option<Json>,
    partial: Option<Json>,
    index: usize,
    later: int,
)
    ensures
        ({
            let started = frame_step(
                state,
                (PiFrame::ToolStart { tool_call_id: id, tool_name: name, args }),
                index as int,
            ).0;
            frame_step(
                started,
                (PiFrame::ToolUpdate {
                    tool_call_id: id,
                    tool_name: name,
                    partial_result: partial,
                }),
                later,
            ).1 == Some(
                LogActionView::Replace {
                    index: index as int,
                    entry: tool_entry(
                        name@,
                        opt_json(args),
                        opt_json(partial),
                        ToolStatus::Created,
                    ),
                },
            )
        }),
{
}

/// A frame takes a new index exactly where it adds an entry, or shows a message
/// that was not streamed.
pub proof fn law_new_entries_take_an_index(state: LogModel, frame: PiFrame, index: int)
    ensures
        frame_step(state, frame, index).1 matches Some(LogActionView::Add { index: own, .. })
            ==> takes_index(state, frame) && own == index,
        takes_index(state, frame) ==> (frame_step(state, frame, index).1 matches Some(action)
            && match action {
            LogActionView::Add { index: own, .. } => own == index,
            LogActionView::Replace { index: own, .. } => own == index,
            LogActionView::SessionId(_) => false,
        }),
        frame is MessageEnd && state.assistant is None && frame_step(state, frame, index).1 is Some
            ==> takes_index(state, frame),
{
}

/// The model of [`LogAction`] holds what the value does, part by part.
pub proof fn law_model_of_log_action(value: LogAction)
    ensures
        match value {
            LogAction::SessionId(id) => value@ == LogActionView::SessionId(id@),
            LogAction::Add { index, entry } => value@ == (LogActionView::Add {
                index: index as int,
                entry: entry@,
            }),
            LogAction::Replace { index, entry } => value@ == (LogActionView::Replace {
                index: index as int,
                entry: entry@,
            }),
        },
{
}

} // verus!
