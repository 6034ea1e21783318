//! History from the rollout files that Codex persists.
//!
//! A rollout line is decoded with Codex's own protocol types; the mapping then
//! deals with final, materialized items only.

use codex_protocol::models::ResponseItem;
use codex_protocol::{models, protocol};
use vstd::hash_set::StringHashSet;
use vstd::prelude::*;

use crate::entries::{
    entry_views, is_created, lemma_entry_views_update, lemma_settled_entries, plain_entry,
    push_entry, push_entry_nonempty, push_nonempty, settle, settled, settled_entries, ActionType,
    ActionView, BaseCodingAgent, CommandRunResult, EntryKind, EntryView, NormalizedEntry,
    NormalizedEntryType, RunResultView, TokenUsageInfo, ToolResult, ToolResultValueType,
    ToolResultView, ToolStatus,
};
use crate::history::{
    history_outcome, jsonl_outcome, read_native_jsonl, FileFingerprint, HistoryFailure,
    HistoryView, NativeHistoryError, NativeSessionHistory, NativeSessionHistoryProvider,
    TailPolicy,
};
use crate::json::{field, json_outcome, json_views, outcome_view, parse_json, Json, JsonView};
use crate::replay::{
    entries_before, is_silent, lemma_answered, lemma_entry_count, lemma_shown, lemma_superseded,
    lemma_tracks_find, lemma_tracks_insert, lemma_tracks_remove, lemma_unanswered, replay,
    speaks_of, tracks, Part,
};
use crate::text::{
    concat4, decimal, decimal_text, join, joined, lemma_views_push, opt_view, same, signed_decimal,
    signed_decimal_text, trim, trimmed, views,
};
use crate::tool_slots::{
    insert_slot, lemma_slot_index, remove_slot, slot_index, slots_fit, SlotView, ToolSlots,
};

verus! {

/// Reads the rollouts that Codex persists.
#[derive(Debug)]
pub struct CodexNativeSessionHistory;

impl NativeSessionHistoryProvider for CodexNativeSessionHistory {
    open spec fn served_agent(&self) -> BaseCodingAgent {
        BaseCodingAgent::Codex
    }

    fn agent(&self) -> (agent: BaseCodingAgent) {
        BaseCodingAgent::Codex
    }
}

// ---------------------------------------------------------------------------
// Rollout items
// ---------------------------------------------------------------------------

/// A part of a message.
#[derive(Debug, PartialEq, Eq)]
pub enum MessagePart {
    InputText { text: String },
    InputImage { image_url: String },
    OutputText { text: String },
}

/// A part of a function's output.
#[derive(Debug, PartialEq, Eq)]
pub enum OutputPart {
    InputText { text: String },
    InputImage { image_url: String },
}

/// What a function call gave back.
#[derive(Debug, PartialEq, Eq)]
pub struct CallOutput {
    pub content: String,
    pub content_items: Option<Vec<OutputPart>>,
    pub success: Option<bool>,
}

/// An item of a model response, as far as conversations show it.
#[allow(inconsistent_fields)]
#[derive(Debug, PartialEq, Eq)]
pub enum ResponseRecord {
    Message { role: String, content: Vec<MessagePart> },
    Reasoning { summary: Vec<String>, content: Option<Vec<String>> },
    FunctionCall { name: String, arguments: String, call_id: String },
    FunctionCallOutput { call_id: String, output: CallOutput },
    CustomToolCall { name: String, input: String, call_id: String },
    CustomToolCallOutput { call_id: String, output: String },
    Other,
}

/// A token count: the tokens used in all, and the model's window.
#[derive(Debug, Clone, Copy, PartialEq, Eq, Structural)]
pub struct TokenCount {
    pub total_tokens: i64,
    pub model_context_window: Option<i64>,
}

/// A line of a rollout, as far as conversations show it.
#[allow(inconsistent_fields)]
#[derive(Debug, PartialEq, Eq)]
pub enum RolloutRecord {
    SessionMeta { id: String },
    Response(ResponseRecord),
    Compacted { message: String },
    AgentMessage { message: String },
    UserMessage { message: String },
    TokenCount(Option<TokenCount>),
    Other,
}

/// Model of [`MessagePart`].
pub enum ContentView {
    InputText { text: Seq<char> },
    InputImage { image_url: Seq<char> },
    OutputText { text: Seq<char> },
}

/// Model of [`OutputPart`].
pub enum OutputView {
    InputText { text: Seq<char> },
    InputImage { image_url: Seq<char> },
}

/// Model of [`CallOutput`].
pub struct PayloadView {
    pub content: Seq<char>,
    pub content_items: Option<Seq<OutputView>>,
    pub success: Option<bool>,
}

/// Model of [`ResponseRecord`].
#[allow(inconsistent_fields)]
pub enum ResponseView {
    Message { role: Seq<char>, content: Seq<ContentView> },
    Reasoning { summary: Seq<Seq<char>>, content: Option<Seq<Seq<char>>> },
    FunctionCall { name: Seq<char>, arguments: Seq<char>, call_id: Seq<char> },
    FunctionCallOutput { call_id: Seq<char>, output: PayloadView },
    CustomToolCall { name: Seq<char>, input: Seq<char>, call_id: Seq<char> },
    CustomToolCallOutput { call_id: Seq<char>, output: Seq<char> },
    Other,
}

/// Model of [`RolloutRecord`].
pub enum RolloutView {
    SessionMeta { id: Seq<char> },
    Response(ResponseView),
    Compacted { message: Seq<char> },
    AgentMessage { message: Seq<char> },
    UserMessage { message: Seq<char> },
    TokenCount(Option<TokenCount>),
    Other,
}

impl View for MessagePart {
    type V = ContentView;

    open spec fn view(&self) -> ContentView {
        match self {
            MessagePart::InputText { text } => ContentView::InputText { text: text@ },
            MessagePart::InputImage { image_url } => ContentView::InputImage {
                image_url: image_url@,
            },
            MessagePart::OutputText { text } => ContentView::OutputText { text: text@ },
        }
    }
}

impl View for OutputPart {
    type V = OutputView;

    open spec fn view(&self) -> OutputView {
        match self {
            OutputPart::InputText { text } => OutputView::InputText { text: text@ },
            OutputPart::InputImage { image_url } => OutputView::InputImage {
                image_url: image_url@,
            },
        }
    }
}

/// The models of the parts of a message.
pub open spec fn content_views(content: Seq<MessagePart>) -> Seq<ContentView> {
    content.map_values(|item: MessagePart| item@)
}

/// The models of the parts of an output.
pub open spec fn output_views(items: Seq<OutputPart>) -> Seq<OutputView> {
    items.map_values(|item: OutputPart| item@)
}

impl View for CallOutput {
    type V = PayloadView;

    open spec fn view(&self) -> PayloadView {
        PayloadView {
            content: self.content@,
            content_items: match self.content_items {
                Some(items) => Some(output_views(items@)),
                None => None,
            },
            success: self.success,
        }
    }
}

impl View for ResponseRecord {
    type V = ResponseView;

    open spec fn view(&self) -> ResponseView {
        match self {
            ResponseRecord::Message { role, content } => ResponseView::Message {
                role: role@,
                content: content_views(content@),
            },
            ResponseRecord::Reasoning { summary, content } => ResponseView::Reasoning {
                summary: views(summary@),
                content: match content {
                    Some(blocks) => Some(views(blocks@)),
                    None => None,
                },
            },
            ResponseRecord::FunctionCall { name, arguments, call_id } => ResponseView::FunctionCall {
                name: name@,
                arguments: arguments@,
                call_id: call_id@,
            },
            ResponseRecord::FunctionCallOutput { call_id, output } =>
                ResponseView::FunctionCallOutput { call_id: call_id@, output: output@ },
            ResponseRecord::CustomToolCall { name, input, call_id } => ResponseView::CustomToolCall {
                name: name@,
                input: input@,
                call_id: call_id@,
            },
            ResponseRecord::CustomToolCallOutput { call_id, output } =>
                ResponseView::CustomToolCallOutput { call_id: call_id@, output: output@ },
            ResponseRecord::Other => ResponseView::Other,
        }
    }
}

impl View for RolloutRecord {
    type V = RolloutView;

    open spec fn view(&self) -> RolloutView {
        match self {
            RolloutRecord::SessionMeta { id } => RolloutView::SessionMeta { id: id@ },
            RolloutRecord::Response(response) => RolloutView::Response(response@),
            RolloutRecord::Compacted { message } => RolloutView::Compacted { message: message@ },
            RolloutRecord::AgentMessage { message } => RolloutView::AgentMessage { message: message@ },
            RolloutRecord::UserMessage { message } => RolloutView::UserMessage { message: message@ },
            RolloutRecord::TokenCount(count) => RolloutView::TokenCount(*count),
            RolloutRecord::Other => RolloutView::Other,
        }
    }
}

/// The models of rollout items.
pub open spec fn rollout_views(items: Seq<RolloutRecord>) -> Seq<RolloutView> {
    items.map_values(|item: RolloutRecord| item@)
}

// ---------------------------------------------------------------------------
// The mapping
// ---------------------------------------------------------------------------

/// The input texts, or the output texts, among the parts of a message.
pub open spec fn selected_texts(content: Seq<ContentView>, want_input: bool) -> Seq<Seq<char>>
    decreases content.len(),
{
    if content.len() == 0 {
        Seq::empty()
    } else {
        let before = selected_texts(content.drop_last(), want_input);
        match content.last() {
            ContentView::InputText { text } => if want_input {
                before.push(text)
            } else {
                before
            },
            ContentView::OutputText { text } => if want_input {
                before
            } else {
                before.push(text)
            },
            ContentView::InputImage { .. } => before,
        }
    }
}

/// The text of a message.
pub open spec fn text_of_message(content: Seq<ContentView>, want_input: bool) -> Seq<char> {
    joined(selected_texts(content, want_input), ""@)
}

/// The texts among the parts of an output.
pub open spec fn output_texts(items: Seq<OutputView>) -> Seq<Seq<char>>
    decreases items.len(),
{
    if items.len() == 0 {
        Seq::empty()
    } else {
        let before = output_texts(items.drop_last());
        match items.last() {
            OutputView::InputText { text } => before.push(text),
            OutputView::InputImage { .. } => before,
        }
    }
}

/// The text of a function's output: its content and the texts of its parts,
/// each on a line.
pub open spec fn payload_text(payload: PayloadView) -> Seq<char> {
    let first = seq![payload.content];
    joined(
        match payload.content_items {
            Some(items) => first + output_texts(items),
            None => first,
        },
        "\n"@,
    )
}

/// The strings in an array.
pub open spec fn strings_in(items: Seq<JsonView>) -> Seq<Seq<char>>
    decreases items.len(),
{
    if items.len() == 0 {
        Seq::empty()
    } else {
        let before = strings_in(items.drop_last());
        match items.last() {
            JsonView::Text(text) => before.push(text),
            _ => before,
        }
    }
}

/// The command that an argument is: a string, or strings with spaces between.
pub open spec fn command_argument(value: Option<JsonView>) -> Option<Seq<char>> {
    match value {
        Some(JsonView::Text(command)) => Some(command),
        Some(JsonView::Array(parts)) => Some(joined(strings_in(parts), " "@)),
        _ => None,
    }
}

/// The command of a shell call: `cmd`, else `command`, else the arguments as
/// they stand.
pub open spec fn command_of(arguments: Seq<char>, decoded: Result<JsonView, Seq<char>>) -> Seq<
    char,
> {
    match decoded {
        Err(_) => arguments,
        Ok(args) => match command_argument(field(args, "cmd"@)) {
            Some(command) => command,
            None => match command_argument(field(args, "command"@)) {
                Some(command) => command,
                None => arguments,
            },
        },
    }
}

/// Whether a function runs a shell command.
pub open spec fn is_shell(name: Seq<char>) -> bool {
    name == "exec_command"@ || name == "shell"@ || name == "local_shell_exec"@ || name
        == "container.exec"@
}

/// The action that a function call is, given its arguments and what decoding
/// them gave.
pub open spec fn call_action(
    name: Seq<char>,
    arguments: Seq<char>,
    decoded: Result<JsonView, Seq<char>>,
) -> ActionView {
    if is_shell(name) {
        ActionView::CommandRun { command: command_of(arguments, decoded), result: None }
    } else {
        ActionView::Tool {
            tool_name: name,
            arguments: match decoded {
                Ok(value) => Some(value),
                Err(_) => None,
            },
            result: None,
        }
    }
}

/// The entry of a function call.
pub open spec fn call_entry(
    name: Seq<char>,
    arguments: Seq<char>,
    decoded: Result<JsonView, Seq<char>>,
) -> EntryView {
    plain_entry(
        EntryKind::ToolUse {
            tool_name: name,
            action: call_action(name, arguments, decoded),
            status: ToolStatus::Created,
        },
        if is_shell(name) {
            command_of(arguments, decoded)
        } else {
            name
        },
    )
}

/// The entry of a custom tool call.
pub open spec fn custom_call_entry(name: Seq<char>, input: Seq<char>) -> EntryView {
    plain_entry(
        EntryKind::ToolUse {
            tool_name: name,
            action: ActionView::Tool {
                tool_name: name,
                arguments: Some(JsonView::Text(input)),
                result: None,
            },
            status: ToolStatus::Created,
        },
        name,
    )
}

/// The text of a reasoning item: its content, or its summary where there is
/// no content.
pub open spec fn reasoning_text(summary: Seq<Seq<char>>, content: Option<Seq<Seq<char>>>) -> Seq<
    char,
> {
    match content {
        Some(blocks) => if joined(blocks, ""@).len() > 0 {
            joined(blocks, ""@)
        } else {
            joined(summary, "\n"@)
        },
        None => joined(summary, "\n"@),
    }
}

/// An action with the text of its result.
pub open spec fn action_with_result(action: ActionView, text: Seq<char>) -> ActionView {
    match action {
        ActionView::CommandRun { command, .. } => ActionView::CommandRun {
            command,
            result: Some(RunResultView { exit_status: None, output: Some(text) }),
        },
        ActionView::Tool { tool_name, arguments, .. } => ActionView::Tool {
            tool_name,
            arguments,
            result: Some(
                ToolResultView {
                    value_type: ToolResultValueType::Markdown,
                    value: JsonView::Text(text),
                },
            ),
        },
        other => other,
    }
}

/// An entry with the result of its call; an entry that is no tool use stays as
/// it is.
pub open spec fn entry_with_result(entry: EntryView, text: Seq<char>, success: bool) -> EntryView {
    match entry.kind {
        EntryKind::ToolUse { tool_name, action, .. } => EntryView {
            kind: EntryKind::ToolUse {
                tool_name,
                action: action_with_result(action, text),
                status: if success {
                    ToolStatus::Success
                } else {
                    ToolStatus::Failed
                },
            },
            ..entry
        },
        _ => entry,
    }
}

/// The entries so far, and the calls among them that are still open.
pub struct Transcript {
    pub entries: Seq<EntryView>,
    pub open: Seq<SlotView>,
}

/// A result: it completes the open call that it names; without one it is
/// dropped.
pub open spec fn result_step(
    before: Transcript,
    call_id: Seq<char>,
    text: Seq<char>,
    success: bool,
) -> Transcript {
    match slot_index(before.open, call_id) {
        Some(i) => {
            let position = before.open[i].position;
            Transcript {
                entries: before.entries.update(
                    position,
                    entry_with_result(before.entries[position], text, success),
                ),
                open: remove_slot(before.open, call_id),
            }
        },
        None => before,
    }
}

/// A new call, opened under its id.
pub open spec fn call_step(before: Transcript, call_id: Seq<char>, entry: EntryView) -> Transcript {
    Transcript {
        entries: before.entries.push(entry),
        open: insert_slot(before.open, call_id, before.entries.len() as int),
    }
}

/// One response item.
pub open spec fn response_step(before: Transcript, response: ResponseView) -> Transcript {
    match response {
        ResponseView::Message { role, content } => if role == "user"@ {
            Transcript {
                entries: push_nonempty(
                    before.entries,
                    EntryKind::UserMessage,
                    text_of_message(content, true),
                ),
                ..before
            }
        } else if role == "assistant"@ {
            Transcript {
                entries: push_nonempty(
                    before.entries,
                    EntryKind::AssistantMessage,
                    text_of_message(content, false),
                ),
                ..before
            }
        } else {
            before
        },
        ResponseView::Reasoning { summary, content } => Transcript {
            entries: push_nonempty(
                before.entries,
                EntryKind::Thinking,
                reasoning_text(summary, content),
            ),
            ..before
        },
        ResponseView::FunctionCall { name, arguments, call_id } => call_step(
            before,
            call_id,
            call_entry(name, arguments, json_outcome(arguments)),
        ),
        ResponseView::CustomToolCall { name, input, call_id } => call_step(
            before,
            call_id,
            custom_call_entry(name, input),
        ),
        ResponseView::FunctionCallOutput { call_id, output } => result_step(
            before,
            call_id,
            payload_text(output),
            output.success != Some(false),
        ),
        ResponseView::CustomToolCallOutput { call_id, output } => result_step(
            before,
            call_id,
            output,
            true,
        ),
        ResponseView::Other => before,
    }
}

/// A count that is not negative, in 32 bits.
pub open spec fn count_bits(count: i64) -> u32 {
    if count < 0 {
        0
    } else {
        count as u32
    }
}

/// The window of a token count.
pub open spec fn window_of(count: TokenCount) -> i64 {
    match count.model_context_window {
        Some(window) => window,
        None => 0,
    }
}

/// The entry of a token count.
pub open spec fn token_entry(count: TokenCount) -> EntryView {
    plain_entry(
        EntryKind::TokenUsageInfo(
            TokenUsageInfo {
                total_tokens: count_bits(count.total_tokens),
                model_context_window: count_bits(window_of(count)),
            },
        ),
        "Tokens used: "@ + signed_decimal(count.total_tokens as int) + " / Context window: "@
            + signed_decimal(window_of(count) as int),
    )
}

/// Whether a text is the text of a response message among `items`.
pub open spec fn is_response_text(items: Seq<RolloutView>, text: Seq<char>) -> bool {
    text.len() > 0 && exists|i: int|
        0 <= i < items.len() && has_message_text(#[trigger] items[i], text)
}

/// Whether an item is a response message with that text.
pub open spec fn has_message_text(item: RolloutView, text: Seq<char>) -> bool {
    item matches RolloutView::Response(ResponseView::Message { content, .. }) && (text_of_message(
        content,
        true,
    ) == text || text_of_message(content, false) == text)
}

/// An event message: shown unless a response message has the same text, or it
/// has none.
pub open spec fn event_step(
    before: Transcript,
    known: spec_fn(Seq<char>) -> bool,
    kind: EntryKind,
    message: Seq<char>,
) -> Transcript {
    if known(message) {
        before
    } else {
        Transcript { entries: push_nonempty(before.entries, kind, message), ..before }
    }
}

/// One item of a rollout, `known` telling the texts of response messages.
pub open spec fn item_step(
    before: Transcript,
    known: spec_fn(Seq<char>) -> bool,
    item: RolloutView,
) -> Transcript {
    match item {
        RolloutView::Response(response) => response_step(before, response),
        RolloutView::AgentMessage { message } => event_step(
            before,
            known,
            EntryKind::AssistantMessage,
            message,
        ),
        RolloutView::UserMessage { message } => event_step(
            before,
            known,
            EntryKind::UserMessage,
            message,
        ),
        RolloutView::TokenCount(Some(count)) => Transcript {
            entries: before.entries.push(token_entry(count)),
            ..before
        },
        RolloutView::Compacted { message } => Transcript {
            entries: before.entries.push(plain_entry(EntryKind::SystemMessage, message)),
            ..before
        },
        _ => before,
    }
}

/// What a sequence of items leads to.
pub open spec fn transcript(items: Seq<RolloutView>, known: spec_fn(Seq<char>) -> bool) -> Transcript
    decreases items.len(),
{
    if items.len() == 0 {
        Transcript { entries: Seq::empty(), open: Seq::empty() }
    } else {
        item_step(transcript(items.drop_last(), known), known, items.last())
    }
}

/// The conversation that a rollout is. Tool calls without output never
/// finished, so they have failed.
pub open spec fn rollout_entries(items: Seq<RolloutView>) -> Seq<EntryView> {
    settled_entries(transcript(items, |text: Seq<char>| is_response_text(items, text)).entries)
}

fn message_text(content: &Vec<MessagePart>, want_input: bool) -> (text: String)
    ensures
        text@ == text_of_message(content_views(content@), want_input),
{
    let mut parts: Vec<String> = Vec::new();
    let mut i: usize = 0;
    assert(views(parts@) =~= Seq::empty());
    while i < content.len()
        invariant
            i <= content@.len(),
            views(parts@) == selected_texts(content_views(content@).take(i as int), want_input),
        decreases content@.len() - i,
    {
        proof {
            let seen = content_views(content@).take(i + 1);
            assert(seen.drop_last() =~= content_views(content@).take(i as int));
            assert(seen.last() == content@[i as int]@);
        }
        match &content[i] {
            MessagePart::InputText { text } => {
                if want_input {
                    proof {
                        lemma_views_push(parts@, *text);
                    }
                    parts.push(text.clone());
                }
            },
            MessagePart::OutputText { text } => {
                if !want_input {
                    proof {
                        lemma_views_push(parts@, *text);
                    }
                    parts.push(text.clone());
                }
            },
            MessagePart::InputImage { .. } => {},
        }
        i = i + 1;
    }
    assert(content_views(content@).take(content@.len() as int) =~= content_views(content@));
    join(&parts, "")
}

fn output_payload_text(payload: &CallOutput) -> (text: String)
    ensures
        text@ == payload_text(payload@),
{
    let mut parts: Vec<String> = Vec::new();
    parts.push(payload.content.clone());
    assert(views(parts@) =~= seq![payload.content@]);
    if let Some(items) = &payload.content_items {
        let ghost first = seq![payload.content@];
        let mut i: usize = 0;
        assert(first + output_texts(output_views(items@).take(0)) =~= first);
        while i < items.len()
            invariant
                i <= items@.len(),
                views(parts@) == first + output_texts(output_views(items@).take(i as int)),
            decreases items@.len() - i,
        {
            proof {
                let seen = output_views(items@).take(i + 1);
                assert(seen.drop_last() =~= output_views(items@).take(i as int));
                assert(seen.last() == items@[i as int]@);
            }
            match &items[i] {
                OutputPart::InputText { text } => {
                    proof {
                        lemma_views_push(parts@, *text);
                        let before = output_texts(output_views(items@).take(i as int));
                        assert((first + before).push(text@) =~= first + before.push(text@));
                    }
                    parts.push(text.clone());
                },
                OutputPart::InputImage { .. } => {},
            }
            i = i + 1;
        }
        assert(output_views(items@).take(items@.len() as int) =~= output_views(items@));
    }
    join(&parts, "\n")
}

fn array_strings(items: &Vec<Json>) -> (strings: Vec<String>)
    ensures
        views(strings@) == strings_in(json_views(items@)),
{
    let mut strings: Vec<String> = Vec::new();
    let mut i: usize = 0;
    assert(views(strings@) =~= Seq::empty());
    while i < items.len()
        invariant
            i <= items@.len(),
            views(strings@) == strings_in(json_views(items@).take(i as int)),
        decreases items@.len() - i,
    {
        proof {
            let seen = json_views(items@).take(i + 1);
            assert(seen.drop_last() =~= json_views(items@).take(i as int));
            assert(seen.last() == items@[i as int]@);
        }
        if let Json::Text(text) = &items[i] {
            proof {
                lemma_views_push(strings@, *text);
            }
            strings.push(text.clone());
        }
        i = i + 1;
    }
    assert(json_views(items@).take(items@.len() as int) =~= json_views(items@));
    strings
}

fn command_argument_text(value: Option<&Json>) -> (command: Option<String>)
    ensures
        opt_view(command) == command_argument(
            match value {
                Some(value) => Some(value@),
                None => None,
            },
        ),
{
    match value {
        Some(value) => match value.as_str() {
            Some(text) => Some(text.clone()),
            None => match value.as_array() {
                Some(items) => {
                    let parts = array_strings(items);
                    Some(join(&parts, " "))
                },
                None => None,
            },
        },
        None => None,
    }
}

/// The command of a shell call, given its arguments and what decoding them
/// gave.
pub fn shell_command(arguments: &str, decoded: &Result<Json, String>) -> (command: String)
    ensures
        command@ == command_of(arguments@, outcome_view(*decoded)),
{
    match decoded {
        Err(_) => arguments.to_owned(),
        Ok(args) => match command_argument_text(args.get("cmd")) {
            Some(command) => command,
            None => match command_argument_text(args.get("command")) {
                Some(command) => command,
                None => arguments.to_owned(),
            },
        },
    }
}

/// The entry of a function call, given what decoding its arguments gave.
pub fn tool_call_entry(name: &str, arguments: &str, decoded: Result<Json, String>) -> (entry:
    NormalizedEntry)
    ensures
        entry@ == call_entry(name@, arguments@, outcome_view(decoded)),
{
    if same(name, "exec_command") || same(name, "shell") || same(name, "local_shell_exec") || same(
        name,
        "container.exec",
    ) {
        let command = shell_command(arguments, &decoded);
        NormalizedEntry::plain(
            NormalizedEntryType::ToolUse {
                tool_name: name.to_owned(),
                action_type: ActionType::CommandRun { command: command.clone(), result: None },
                status: ToolStatus::Created,
            },
            command,
        )
    } else {
        let arguments = match decoded {
            Ok(value) => Some(value),
            Err(_) => None,
        };
        NormalizedEntry::plain(
            NormalizedEntryType::ToolUse {
                tool_name: name.to_owned(),
                action_type: ActionType::Tool {
                    tool_name: name.to_owned(),
                    arguments,
                    result: None,
                },
                status: ToolStatus::Created,
            },
            name.to_owned(),
        )
    }
}

/// Completes the open call that a result names.
pub fn apply_tool_result(
    out: &mut Vec<NormalizedEntry>,
    slots: &mut ToolSlots,
    call_id: &String,
    text: String,
    success: bool,
)
    requires
        slots_fit(old(slots)@, old(out)@.len()),
    ensures
        (Transcript { entries: entry_views(final(out)@), open: final(slots)@ }) == result_step(
            Transcript { entries: entry_views(old(out)@), open: old(slots)@ },
            call_id@,
            text@,
            success,
        ),
        slots_fit(final(slots)@, final(out)@.len()),
{
    let ghost open = slots@;
    proof {
        lemma_slot_index(open, call_id@);
        if let Some(i) = slot_index(open, call_id@) {
            assert(slots_fit(open.remove(i), out@.len())) by {
                assert forall|k: int| 0 <= k < open.remove(i).len() implies 0 <= (
                #[trigger] open.remove(i)[k]).position < out@.len() by {
                    assert(open.remove(i)[k] == open[if k < i {
                        k
                    } else {
                        k + 1
                    }]);
                }
            }
        }
    }
    if let Some(position) = slots.take(call_id) {
        let ghost before = out@;
        let status = if success {
            ToolStatus::Success
        } else {
            ToolStatus::Failed
        };
        let entry = &mut out[position];
        if let NormalizedEntryType::ToolUse { action_type, status: current, .. } =
            &mut entry.entry_type {
            match action_type {
                ActionType::CommandRun { result, .. } => {
                    *result = Some(CommandRunResult { exit_status: None, output: Some(text) });
                },
                ActionType::Tool { result, .. } => {
                    *result = Some(ToolResult::markdown(text));
                },
                _ => {},
            }
            *current = status;
        }
        proof {
            lemma_entry_views_update(before, position as int, out@[position as int]);
            assert(out@ =~= before.update(position as int, out@[position as int]));
        }
    }
}

fn reasoning(summary: &Vec<String>, content: &Option<Vec<String>>) -> (text: String)
    ensures
        text@ == reasoning_text(
            views(summary@),
            match content {
                Some(blocks) => Some(views(blocks@)),
                None => None,
            },
        ),
{
    if let Some(blocks) = content {
        let text = join(blocks, "");
        if !text.as_str().is_empty() {
            return text;
        }
    }
    join(summary, "\n")
}

fn map_response(response: &ResponseRecord, out: &mut Vec<NormalizedEntry>, slots: &mut ToolSlots)
    requires
        slots_fit(old(slots)@, old(out)@.len()),
    ensures
        (Transcript { entries: entry_views(final(out)@), open: final(slots)@ }) == response_step(
            Transcript { entries: entry_views(old(out)@), open: old(slots)@ },
            response@,
        ),
        slots_fit(final(slots)@, final(out)@.len()),
{
    match response {
        ResponseRecord::Message { role, content } => {
            if same(role, "user") {
                push_entry_nonempty(
                    out,
                    NormalizedEntryType::UserMessage,
                    message_text(content, true),
                );
            } else if same(role, "assistant") {
                push_entry_nonempty(
                    out,
                    NormalizedEntryType::AssistantMessage,
                    message_text(content, false),
                );
            }
        },
        ResponseRecord::Reasoning { summary, content } => {
            push_entry_nonempty(out, NormalizedEntryType::Thinking, reasoning(summary, content));
        },
        ResponseRecord::FunctionCall { name, arguments, call_id } => {
            let entry = tool_call_entry(name, arguments, parse_json(arguments));
            open_call(out, slots, call_id, entry);
        },
        ResponseRecord::CustomToolCall { name, input, call_id } => {
            let entry = NormalizedEntry::plain(
                NormalizedEntryType::ToolUse {
                    tool_name: name.clone(),
                    action_type: ActionType::Tool {
                        tool_name: name.clone(),
                        arguments: Some(Json::Text(input.clone())),
                        result: None,
                    },
                    status: ToolStatus::Created,
                },
                name.clone(),
            );
            open_call(out, slots, call_id, entry);
        },
        ResponseRecord::FunctionCallOutput { call_id, output } => {
            let success = match output.success {
                Some(success) => success,
                None => true,
            };
            apply_tool_result(out, slots, call_id, output_payload_text(output), success);
        },
        ResponseRecord::CustomToolCallOutput { call_id, output } => {
            apply_tool_result(out, slots, call_id, output.clone(), true);
        },
        ResponseRecord::Other => {},
    }
}

fn open_call(
    out: &mut Vec<NormalizedEntry>,
    slots: &mut ToolSlots,
    call_id: &String,
    entry: NormalizedEntry,
)
    requires
        slots_fit(old(slots)@, old(out)@.len()),
    ensures
        (Transcript { entries: entry_views(final(out)@), open: final(slots)@ }) == call_step(
            Transcript { entries: entry_views(old(out)@), open: old(slots)@ },
            call_id@,
            entry@,
        ),
        slots_fit(final(slots)@, final(out)@.len()),
{
    let ghost before = slots@;
    let position: usize = out.len();
    push_entry(out, entry);
    slots.insert(call_id.clone(), position);
    proof {
        lemma_slot_index(before, call_id@);
        assert forall|k: int| 0 <= k < slots@.len() implies 0 <= (#[trigger] slots@[k]).position
            < out@.len() by {
            if k < slots@.len() - 1 {
                match slot_index(before, call_id@) {
                    Some(i) => {
                        let from = if k < i {
                            k
                        } else {
                            k + 1
                        };
                        assert(slots@[k] == before[from]);
                    },
                    None => {
                        assert(slots@[k] == before[k]);
                    },
                }
            }
        }
    }
}

fn token_usage(count: &TokenCount) -> (entry: NormalizedEntry)
    ensures
        entry@ == token_entry(*count),
{
    let window: i64 = match count.model_context_window {
        Some(window) => window,
        None => 0,
    };
    let total: i64 = count.total_tokens;
    let total_bits: u32 = if total < 0 {
        0
    } else {
        #[verifier::truncate] (total as u32)
    };
    let window_bits: u32 = if window < 0 {
        0
    } else {
        #[verifier::truncate] (window as u32)
    };
    let used = signed_decimal_text(total);
    let limit = signed_decimal_text(window);
    NormalizedEntry::plain(
        NormalizedEntryType::TokenUsageInfo(
            TokenUsageInfo { total_tokens: total_bits, model_context_window: window_bits },
        ),
        concat4("Tokens used: ", &used, " / Context window: ", &limit),
    )
}

fn add_text(texts: &mut StringHashSet, text: String)
    ensures
        final(texts)@ == if text@.len() > 0 {
            old(texts)@.insert(text@)
        } else {
            old(texts)@
        },
{
    if !text.as_str().is_empty() {
        texts.insert(text);
    }
}

fn response_texts(items: &Vec<RolloutRecord>) -> (texts: StringHashSet)
    ensures
        forall|text: Seq<char>| #[trigger]
            texts@.contains(text) <==> is_response_text(rollout_views(items@), text),
{
    let ghost all = rollout_views(items@);
    let mut texts = StringHashSet::new();
    let mut i: usize = 0;
    while i < items.len()
        invariant
            i <= items@.len(),
            all == rollout_views(items@),
            forall|text: Seq<char>| #[trigger]
                texts@.contains(text) <==> is_response_text(all.take(i as int), text),
        decreases items@.len() - i,
    {
        let ghost before = texts@;
        let ghost seen = all.take(i + 1);
        assert(seen.drop_last() =~= all.take(i as int));
        assert(seen.last() == items@[i as int]@);
        if let RolloutRecord::Response(ResponseRecord::Message { content, .. }) = &items[i] {
            add_text(&mut texts, message_text(content, true));
            add_text(&mut texts, message_text(content, false));
        }
        proof {
            assert forall|text: Seq<char>| #[trigger]
                texts@.contains(text) <==> is_response_text(seen, text) by {
                if is_response_text(seen.drop_last(), text) {
                    let k = choose|k: int|
                        0 <= k < seen.len() - 1 && has_message_text(
                            #[trigger] seen.drop_last()[k],
                            text,
                        );
                    assert(has_message_text(seen[k], text));
                }
                if is_response_text(seen, text) {
                    let k = choose|k: int|
                        0 <= k < seen.len() && has_message_text(#[trigger] seen[k], text);
                    if k < seen.len() - 1 {
                        assert(has_message_text(seen.drop_last()[k], text));
                    }
                }
                if text.len() > 0 && has_message_text(seen[i as int], text) {
                    assert(is_response_text(seen, text));
                }
            }
        }
        i = i + 1;
    }
    assert(all.take(all.len() as int) =~= all);
    texts
}

fn map_event(
    texts: &StringHashSet,
    entry_type: NormalizedEntryType,
    message: &String,
    out: &mut Vec<NormalizedEntry>,
)
    ensures
        entry_views(final(out)@) == if texts@.contains(message@) {
            entry_views(old(out)@)
        } else {
            push_nonempty(entry_views(old(out)@), entry_type@, message@)
        },
        final(out)@.len() >= old(out)@.len(),
{
    if !texts.contains(message.as_str()) {
        push_entry_nonempty(out, entry_type, message.clone());
    }
}

/// The conversation that a rollout is.
///
/// Response messages are durable and authoritative; event messages that repeat
/// their text are skipped, anything not present among them is still shown.
pub fn map_rollout_items(items: &Vec<RolloutRecord>) -> (entries: Vec<NormalizedEntry>)
    ensures
        entry_views(entries@) == rollout_entries(rollout_views(items@)),
{
    let ghost all = rollout_views(items@);
    let ghost known = |text: Seq<char>| is_response_text(all, text);
    let texts = response_texts(items);
    let mut out: Vec<NormalizedEntry> = Vec::new();
    let mut slots = ToolSlots::new();
    let mut i: usize = 0;
    assert(entry_views(out@) =~= Seq::empty());
    while i < items.len()
        invariant
            i <= items@.len(),
            all == rollout_views(items@),
            known == (|text: Seq<char>| is_response_text(all, text)),
            forall|text: Seq<char>| #[trigger]
                texts@.contains(text) <==> is_response_text(all, text),
            (Transcript { entries: entry_views(out@), open: slots@ }) == transcript(
                all.take(i as int),
                known,
            ),
            slots_fit(slots@, out@.len()),
        decreases items@.len() - i,
    {
        proof {
            let seen = all.take(i + 1);
            assert(seen.drop_last() =~= all.take(i as int));
            assert(seen.last() == items@[i as int]@);
        }
        match &items[i] {
            RolloutRecord::Response(response) => {
                map_response(response, &mut out, &mut slots);
            },
            RolloutRecord::AgentMessage { message } => {
                assert(known(message@) == texts@.contains(message@));
                map_event(&texts, NormalizedEntryType::AssistantMessage, message, &mut out);
            },
            RolloutRecord::UserMessage { message } => {
                assert(known(message@) == texts@.contains(message@));
                map_event(&texts, NormalizedEntryType::UserMessage, message, &mut out);
            },
            RolloutRecord::TokenCount(Some(count)) => {
                push_entry(&mut out, token_usage(count));
            },
            RolloutRecord::Compacted { message } => {
                push_entry(
                    &mut out,
                    NormalizedEntry::plain(NormalizedEntryType::SystemMessage, message.clone()),
                );
            },
            _ => {},
        }
        i = i + 1;
    }
    assert(all.take(all.len() as int) =~= all);
    settle(&mut out);
    out
}

// ---------------------------------------------------------------------------
// Laws of the mapping
// ---------------------------------------------------------------------------

/// No conversation shows a tool call as still running: each has succeeded or
/// failed, whatever its id, those without an output having failed.
pub proof fn law_every_call_has_an_outcome(items: Seq<RolloutView>)
    ensures
        forall|k: int|
            0 <= k < rollout_entries(items).len() ==> !is_created(
                #[trigger] rollout_entries(items)[k],
            ),
{
    lemma_settled_entries(
        transcript(items, |text: Seq<char>| is_response_text(items, text)).entries,
    );
}

/// Whether an item is an event message with that text.
pub open spec fn is_event_message(item: RolloutView, message: Seq<char>) -> bool {
    item == (RolloutView::AgentMessage { message }) || item == (RolloutView::UserMessage {
        message,
    })
}

proof fn lemma_skipped_event(
    items: Seq<RolloutView>,
    at: int,
    message: Seq<char>,
    known: spec_fn(Seq<char>) -> bool,
)
    requires
        0 <= at < items.len(),
        is_event_message(items[at], message),
        known(message),
    ensures
        transcript(items, known) == transcript(items.remove(at), known),
    decreases items.len(),
{
    if at == items.len() - 1 {
        assert(items.remove(at) =~= items.drop_last());
    } else {
        lemma_skipped_event(items.drop_last(), at, message, known);
        assert(items.remove(at).drop_last() =~= items.drop_last().remove(at));
        assert(items.remove(at).last() == items.last());
    }
}

proof fn lemma_same_texts(items: Seq<RolloutView>, at: int, message: Seq<char>)
    requires
        0 <= at < items.len(),
        is_event_message(items[at], message),
    ensures
        forall|text: Seq<char>|
            is_response_text(items, text) == is_response_text(items.remove(at), text),
{
    let rest = items.remove(at);
    assert forall|text: Seq<char>| is_response_text(items, text) == is_response_text(
        rest,
        text,
    ) by {
        if is_response_text(items, text) {
            let k = choose|k: int|
                0 <= k < items.len() && has_message_text(#[trigger] items[k], text);
            assert(k != at);
            let moved = if k < at {
                k
            } else {
                k - 1
            };
            assert(rest[moved] == items[k]);
            assert(has_message_text(rest[moved], text));
        }
        if is_response_text(rest, text) {
            let k = choose|k: int|
                0 <= k < rest.len() && has_message_text(#[trigger] rest[k], text);
            let from = if k < at {
                k
            } else {
                k + 1
            };
            assert(rest[k] == items[from]);
            assert(has_message_text(items[from], text));
        }
    }
}

/// Open calls whose entries, from `from` on, stand one place later.
spec fn moved_calls(open: Seq<SlotView>, from: int) -> Seq<SlotView> {
    open.map_values(
        |call: SlotView|
            SlotView {
                position: if call.position < from {
                    call.position
                } else {
                    call.position + 1
                },
                ..call
            },
    )
}

proof fn lemma_moved_index(open: Seq<SlotView>, from: int, id: Seq<char>)
    ensures
        slot_index(moved_calls(open, from), id) == slot_index(open, id),
    decreases open.len(),
{
    if open.len() > 0 {
        assert(moved_calls(open, from).drop_last() =~= moved_calls(open.drop_last(), from));
        lemma_moved_index(open.drop_last(), from, id);
    }
}

/// Whether a conversation is another with one more entry at `place`.
spec fn has_one_more(
    longer: Transcript,
    shorter: Transcript,
    place: int,
    entry: EntryView,
) -> bool {
    &&& 0 <= place <= shorter.entries.len()
    &&& slots_fit(shorter.open, shorter.entries.len())
    &&& longer.entries == shorter.entries.insert(place, entry)
    &&& longer.open == moved_calls(shorter.open, place)
}

proof fn lemma_one_more_push(
    longer: Transcript,
    shorter: Transcript,
    place: int,
    entry: EntryView,
    added: EntryView,
)
    requires
        has_one_more(longer, shorter, place, entry),
    ensures
        has_one_more(
            Transcript { entries: longer.entries.push(added), ..longer },
            Transcript { entries: shorter.entries.push(added), ..shorter },
            place,
            entry,
        ),
{
    assert(longer.entries.push(added) =~= shorter.entries.push(added).insert(place, entry));
}

proof fn lemma_one_more_call(
    longer: Transcript,
    shorter: Transcript,
    place: int,
    entry: EntryView,
    call_id: Seq<char>,
    added: EntryView,
)
    requires
        has_one_more(longer, shorter, place, entry),
    ensures
        has_one_more(
            call_step(longer, call_id, added),
            call_step(shorter, call_id, added),
            place,
            entry,
        ),
{
    let more = call_step(longer, call_id, added);
    let less = call_step(shorter, call_id, added);
    lemma_moved_index(shorter.open, place, call_id);
    lemma_slot_index(shorter.open, call_id);
    assert(more.entries =~= less.entries.insert(place, entry));
    assert(more.open =~= moved_calls(less.open, place));
    assert forall|k: int| 0 <= k < less.open.len() implies 0 <= (#[trigger] less.open[k]).position
        < less.entries.len() by {
        if k < less.open.len() - 1 {
            let from = match slot_index(shorter.open, call_id) {
                Some(i) => if k < i {
                    k
                } else {
                    k + 1
                },
                None => k,
            };
            assert(less.open[k] == shorter.open[from]);
        }
    }
}

proof fn lemma_one_more_result(
    longer: Transcript,
    shorter: Transcript,
    place: int,
    entry: EntryView,
    call_id: Seq<char>,
    text: Seq<char>,
    success: bool,
)
    requires
        has_one_more(longer, shorter, place, entry),
    ensures
        has_one_more(
            result_step(longer, call_id, text, success),
            result_step(shorter, call_id, text, success),
            place,
            entry,
        ),
{
    let more = result_step(longer, call_id, text, success);
    let less = result_step(shorter, call_id, text, success);
    lemma_moved_index(shorter.open, place, call_id);
    lemma_slot_index(shorter.open, call_id);
    if let Some(i) = slot_index(shorter.open, call_id) {
        assert(shorter.open[i].position < shorter.entries.len());
        assert(more.entries =~= less.entries.insert(place, entry));
        assert(more.open =~= moved_calls(less.open, place));
        assert forall|k: int| 0 <= k < less.open.len() implies 0 <= (
        #[trigger] less.open[k]).position < less.entries.len() by {
            let from = if k < i {
                k
            } else {
                k + 1
            };
            assert(less.open[k] == shorter.open[from]);
        }
    }
}

proof fn lemma_one_more_item(
    longer: Transcript,
    shorter: Transcript,
    place: int,
    entry: EntryView,
    known: spec_fn(Seq<char>) -> bool,
    item: RolloutView,
)
    requires
        has_one_more(longer, shorter, place, entry),
    ensures
        has_one_more(
            item_step(longer, known, item),
            item_step(shorter, known, item),
            place,
            entry,
        ),
{
    match item {
        RolloutView::Response(ResponseView::FunctionCall { name, arguments, call_id }) => {
            let added = call_entry(name, arguments, json_outcome(arguments));
            lemma_one_more_call(longer, shorter, place, entry, call_id, added);
        },
        RolloutView::Response(ResponseView::CustomToolCall { name, input, call_id }) => {
            let added = custom_call_entry(name, input);
            lemma_one_more_call(longer, shorter, place, entry, call_id, added);
        },
        RolloutView::Response(ResponseView::FunctionCallOutput { call_id, output }) => {
            let text = payload_text(output);
            let success = output.success != Some(false);
            lemma_one_more_result(longer, shorter, place, entry, call_id, text, success);
        },
        RolloutView::Response(ResponseView::CustomToolCallOutput { call_id, output }) => {
            lemma_one_more_result(longer, shorter, place, entry, call_id, output, true);
        },
        _ => {
            let less = item_step(shorter, known, item);
            if less.entries != shorter.entries {
                lemma_one_more_push(longer, shorter, place, entry, less.entries.last());
            }
        },
    }
}

proof fn lemma_calls_fit(items: Seq<RolloutView>, known: spec_fn(Seq<char>) -> bool)
    ensures
        slots_fit(transcript(items, known).open, transcript(items, known).entries.len()),
    decreases items.len(),
{
    if items.len() > 0 {
        let before = transcript(items.drop_last(), known);
        lemma_calls_fit(items.drop_last(), known);
        let entry = plain_entry(EntryKind::SystemMessage, Seq::empty());
        let place = before.entries.len() as int;
        let longer = Transcript {
            entries: before.entries.insert(place, entry),
            open: moved_calls(before.open, place),
        };
        lemma_one_more_item(longer, before, place, entry, known, items.last());
    }
}

proof fn lemma_inserted_event(
    items: Seq<RolloutView>,
    at: int,
    event: RolloutView,
    message: Seq<char>,
    known: spec_fn(Seq<char>) -> bool,
)
    requires
        0 <= at <= items.len(),
        is_event_message(event, message),
        message.len() > 0,
        !known(message),
    ensures
        has_one_more(
            transcript(items.insert(at, event), known),
            transcript(items, known),
            transcript(items.take(at), known).entries.len() as int,
            event_entry(event, message),
        ),
    decreases items.len(),
{
    let with = items.insert(at, event);
    let place = transcript(items.take(at), known).entries.len() as int;
    let entry = event_entry(event, message);
    if at == items.len() {
        let before = transcript(items, known);
        assert(with.drop_last() =~= items);
        assert(with.last() == event);
        assert(items.take(at) =~= items);
        lemma_calls_fit(items, known);
        assert(before.entries.push(entry) =~= before.entries.insert(place, entry));
        assert(before.open =~= moved_calls(before.open, place)) by {
            assert forall|k: int| 0 <= k < before.open.len() implies before.open[k] == moved_calls(
                before.open,
                place,
            )[k] by {
                assert(before.open[k].position < place);
            }
        }
    } else {
        let rest = items.drop_last();
        lemma_inserted_event(rest, at, event, message, known);
        assert(rest.take(at) =~= items.take(at));
        assert(with.drop_last() =~= rest.insert(at, event));
        assert(with.last() == items.last());
        lemma_one_more_item(
            transcript(rest.insert(at, event), known),
            transcript(rest, known),
            place,
            entry,
            known,
            items.last(),
        );
    }
}

/// The entry that shows an event message.
pub open spec fn event_entry(event: RolloutView, message: Seq<char>) -> EntryView {
    plain_entry(
        if event is AgentMessage {
            EntryKind::AssistantMessage
        } else {
            EntryKind::UserMessage
        },
        message,
    )
}

/// Nothing is shown twice and nothing is lost: wherever an event message with a
/// text stands, it makes no difference where a response message has that text,
/// and otherwise adds exactly one entry, which shows it. The place of that entry
/// is given.
pub proof fn law_events_are_shown_once(
    items: Seq<RolloutView>,
    at: int,
    event: RolloutView,
    message: Seq<char>,
) -> (place: int)
    requires
        0 <= at <= items.len(),
        is_event_message(event, message),
        message.len() > 0,
    ensures
        is_response_text(items, message) ==> rollout_entries(items.insert(at, event))
            == rollout_entries(items),
        !is_response_text(items, message) ==> 0 <= place <= rollout_entries(items).len()
            && rollout_entries(items.insert(at, event)) == rollout_entries(items).insert(
            place,
            event_entry(event, message),
        ),
{
    let with = items.insert(at, event);
    let known = |text: Seq<char>| is_response_text(items, text);
    let known_with = |text: Seq<char>| is_response_text(with, text);
    assert(with.remove(at) =~= items);
    lemma_same_texts(with, at, message);
    assert(known =~= known_with);
    let place = transcript(items.take(at), known).entries.len() as int;
    if is_response_text(items, message) {
        lemma_skipped_event(with, at, message, known);
    } else {
        lemma_inserted_event(items, at, event, message, known);
        let longer = transcript(with, known).entries;
        let shorter = transcript(items, known).entries;
        let entry = event_entry(event, message);
        assert(settled(entry) == entry);
        assert(settled_entries(shorter.insert(place, entry)) =~= settled_entries(shorter).insert(
            place,
            entry,
        ));
    }
    place
}

/// Whether an item calls a tool under an id.
pub open spec fn calls(item: RolloutView, id: Seq<char>) -> bool {
    match item {
        RolloutView::Response(ResponseView::FunctionCall { call_id, .. }) => call_id == id,
        RolloutView::Response(ResponseView::CustomToolCall { call_id, .. }) => call_id == id,
        _ => false,
    }
}

/// Whether an item is the output of the call with an id, with that text, of a
/// call that succeeded or did not. A function says so only where it failed.
pub open spec fn brings(item: RolloutView, id: Seq<char>, text: Seq<char>, success: bool) -> bool {
    match item {
        RolloutView::Response(ResponseView::FunctionCallOutput { call_id, output }) => call_id == id
            && text == payload_text(output) && success == (output.success != Some(false)),
        RolloutView::Response(ResponseView::CustomToolCallOutput { call_id, output }) => call_id
            == id && text == output && success,
        _ => false,
    }
}

/// Whether an item is an output of the call with an id.
pub open spec fn answers(item: RolloutView, id: Seq<char>) -> bool {
    exists|text: Seq<char>, success: bool| brings(item, id, text, success)
}

/// Whether no item from `from` up to but not including `to` calls a tool under
/// an id, or brings its output.
pub open spec fn nothing_said(items: Seq<RolloutView>, id: Seq<char>, from: int, to: int) -> bool {
    forall|k: int| from <= k < to ==> !calls(#[trigger] items[k], id) && !answers(items[k], id)
}

/// Whether an item of a rollout has an entry of its own.
pub open spec fn stands_alone(items: Seq<RolloutView>, item: RolloutView) -> bool {
    match item {
        RolloutView::Response(ResponseView::Message { role, content }) => (role == "user"@
            && text_of_message(content, true).len() > 0) || (role == "assistant"@
            && text_of_message(content, false).len() > 0),
        RolloutView::Response(ResponseView::Reasoning { summary, content }) => reasoning_text(
            summary,
            content,
        ).len() > 0,
        RolloutView::Response(ResponseView::FunctionCall { .. }) => true,
        RolloutView::Response(ResponseView::CustomToolCall { .. }) => true,
        RolloutView::AgentMessage { message } => message.len() > 0 && !is_response_text(
            items,
            message,
        ),
        RolloutView::UserMessage { message } => message.len() > 0 && !is_response_text(
            items,
            message,
        ),
        RolloutView::TokenCount(count) => count is Some,
        RolloutView::Compacted { .. } => true,
        _ => false,
    }
}

/// How many of the first `to` items have an entry of their own.
pub open spec fn shown_before(items: Seq<RolloutView>, to: int) -> int
    decreases to,
{
    if to <= 0 {
        0
    } else if stands_alone(items, items[to - 1]) {
        shown_before(items, to - 1) + 1
    } else {
        shown_before(items, to - 1)
    }
}

spec fn plain_part(kind: EntryKind, content: Seq<char>) -> Part<(), (Seq<char>, bool)> {
    if content.len() == 0 {
        Part::Hidden
    } else {
        Part::Shown { entry: plain_entry(kind, content) }
    }
}

spec fn part_of(known: spec_fn(Seq<char>) -> bool, item: RolloutView) -> Part<
    (),
    (Seq<char>, bool),
> {
    match item {
        RolloutView::Response(ResponseView::Message { role, content }) => if role == "user"@ {
            plain_part(EntryKind::UserMessage, text_of_message(content, true))
        } else if role == "assistant"@ {
            plain_part(EntryKind::AssistantMessage, text_of_message(content, false))
        } else {
            Part::Hidden
        },
        RolloutView::Response(ResponseView::Reasoning { summary, content }) => plain_part(
            EntryKind::Thinking,
            reasoning_text(summary, content),
        ),
        RolloutView::Response(ResponseView::FunctionCall { name, arguments, call_id }) =>
            Part::Call {
                id: call_id,
                entry: call_entry(name, arguments, json_outcome(arguments)),
                call: (),
            },
        RolloutView::Response(ResponseView::CustomToolCall { name, input, call_id }) =>
            Part::Call { id: call_id, entry: custom_call_entry(name, input), call: () },
        RolloutView::Response(ResponseView::FunctionCallOutput { call_id, output }) =>
            Part::Answer {
                id: call_id,
                answer: (payload_text(output), output.success != Some(false)),
            },
        RolloutView::Response(ResponseView::CustomToolCallOutput { call_id, output }) =>
            Part::Answer { id: call_id, answer: (output, true) },
        RolloutView::AgentMessage { message } => if known(message) {
            Part::Hidden
        } else {
            plain_part(EntryKind::AssistantMessage, message)
        },
        RolloutView::UserMessage { message } => if known(message) {
            Part::Hidden
        } else {
            plain_part(EntryKind::UserMessage, message)
        },
        RolloutView::TokenCount(Some(count)) => Part::Shown { entry: token_entry(count) },
        RolloutView::Compacted { message } => Part::Shown {
            entry: plain_entry(EntryKind::SystemMessage, message),
        },
        _ => Part::Hidden,
    }
}

spec fn completion() -> spec_fn(EntryView, (), (Seq<char>, bool)) -> EntryView {
    |entry: EntryView, call: (), answer: (Seq<char>, bool)|
        entry_with_result(entry, answer.0, answer.1)
}

spec fn parts_of(known: spec_fn(Seq<char>) -> bool, items: Seq<RolloutView>) -> Seq<
    Part<(), (Seq<char>, bool)>,
> {
    items.map_values(|item: RolloutView| part_of(known, item))
}

proof fn lemma_replayed(items: Seq<RolloutView>, known: spec_fn(Seq<char>) -> bool)
    ensures
        transcript(items, known).entries == replay(parts_of(known, items), completion()).entries,
        tracks(
            transcript(items, known).open,
            replay(parts_of(known, items), completion()).open,
        ),
    decreases items.len(),
{
    let parts = parts_of(known, items);
    if items.len() > 0 {
        lemma_replayed(items.drop_last(), known);
        let before = transcript(items.drop_last(), known);
        let state = replay(parts_of(known, items.drop_last()), completion());
        assert(parts.drop_last() =~= parts_of(known, items.drop_last()));
        match parts.last() {
            Part::Call { id, call, .. } => {
                lemma_tracks_insert(before.open, state.open, id, before.entries.len() as int, call);
            },
            Part::Answer { id, .. } => {
                lemma_tracks_find(before.open, state.open, id);
                lemma_tracks_remove(before.open, state.open, id);
            },
            _ => {},
        }
    }
}

spec fn own_parts(items: Seq<RolloutView>) -> Seq<Part<(), (Seq<char>, bool)>> {
    parts_of(|text: Seq<char>| is_response_text(items, text), items)
}

proof fn lemma_places(items: Seq<RolloutView>, to: int)
    requires
        0 <= to <= items.len(),
    ensures
        shown_before(items, to) == entries_before(own_parts(items), to),
    decreases to,
{
    reveal_strlit("user");
    reveal_strlit("assistant");
    assert("user"@.len() == 4 && "assistant"@.len() == 9);
    if to > 0 {
        lemma_places(items, to - 1);
    }
}

proof fn lemma_conversation(items: Seq<RolloutView>)
    ensures
        rollout_entries(items) == settled_entries(
            replay(own_parts(items), completion()).entries,
        ),
{
    lemma_replayed(items, |text: Seq<char>| is_response_text(items, text));
}

proof fn lemma_item_is_shown(items: Seq<RolloutView>, at: int)
    requires
        0 <= at < items.len(),
        own_parts(items)[at] is Shown,
    ensures
        0 <= shown_before(items, at) < rollout_entries(items).len(),
        rollout_entries(items)[shown_before(items, at)] == settled(
            own_parts(items)[at]->Shown_entry,
        ),
{
    lemma_conversation(items);
    lemma_places(items, at);
    lemma_shown(own_parts(items), at, completion());
}

/// A conversation has one entry for each item that is shown, in their order,
/// and no other.
pub proof fn law_each_shown_item_has_one_entry(items: Seq<RolloutView>)
    ensures
        rollout_entries(items).len() == shown_before(items, items.len() as int),
{
    lemma_conversation(items);
    lemma_places(items, items.len() as int);
    lemma_entry_count(own_parts(items), completion());
}

/// What the user and the assistant said is shown as theirs: of the user the
/// input texts, of the assistant the output texts.
pub proof fn law_messages_are_shown(
    items: Seq<RolloutView>,
    at: int,
    role: Seq<char>,
    content: Seq<ContentView>,
)
    requires
        0 <= at < items.len(),
        items[at] == RolloutView::Response(ResponseView::Message { role, content }),
    ensures
        role == "user"@ && text_of_message(content, true).len() > 0 ==> 0 <= shown_before(items, at)
            < rollout_entries(items).len() && rollout_entries(items)[shown_before(items, at)] == (
        EntryView {
            timestamp: None,
            kind: EntryKind::UserMessage,
            content: text_of_message(content, true),
            metadata: None,
        }),
        role == "assistant"@ && text_of_message(content, false).len() > 0 ==> 0 <= shown_before(
            items,
            at,
        ) < rollout_entries(items).len() && rollout_entries(items)[shown_before(items, at)] == (
        EntryView {
            timestamp: None,
            kind: EntryKind::AssistantMessage,
            content: text_of_message(content, false),
            metadata: None,
        }),
{
    reveal_strlit("user");
    reveal_strlit("assistant");
    assert("user"@.len() == 4 && "assistant"@.len() == 9);
    if own_parts(items)[at] is Shown {
        lemma_item_is_shown(items, at);
    }
}

/// An event message repeats a response message exactly where it is not empty and
/// is what such a message holds of input or of output.
pub proof fn law_repeated_texts_are_known(
    items: Seq<RolloutView>,
    at: int,
    role: Seq<char>,
    content: Seq<ContentView>,
    text: Seq<char>,
)
    ensures
        0 <= at < items.len() && items[at] == RolloutView::Response(
            ResponseView::Message { role, content },
        ) && text.len() > 0 && (text_of_message(content, true) == text || text_of_message(
            content,
            false,
        ) == text) ==> is_response_text(items, text),
        text.len() == 0 ==> !is_response_text(items, text),
        is_response_text(items, text) ==> exists|i: int|
            0 <= i < items.len() && (#[trigger] items[i] matches RolloutView::Response(
                ResponseView::Message { content: own, .. },
            ) && (text_of_message(own, true) == text || text_of_message(own, false) == text)),
{
    if is_response_text(items, text) {
        let i = choose|i: int| 0 <= i < items.len() && has_message_text(#[trigger] items[i], text);
        assert(items[i] matches RolloutView::Response(ResponseView::Message { content: own, .. })
            && (text_of_message(own, true) == text || text_of_message(own, false) == text));
    }
    if 0 <= at < items.len() && items[at] == RolloutView::Response(
        ResponseView::Message { role, content },
    ) && (text_of_message(content, true) == text || text_of_message(content, false) == text) {
        assert(has_message_text(items[at], text));
    }
}

/// An event message that repeats none is shown as what the assistant or the user
/// said.
pub proof fn law_events_of_their_own_are_shown(
    items: Seq<RolloutView>,
    at: int,
    message: Seq<char>,
)
    requires
        0 <= at < items.len(),
        message.len() > 0,
        !is_response_text(items, message),
    ensures
        items[at] == (RolloutView::AgentMessage { message }) ==> 0 <= shown_before(items, at)
            < rollout_entries(items).len() && rollout_entries(items)[shown_before(items, at)] == (
        EntryView {
            timestamp: None,
            kind: EntryKind::AssistantMessage,
            content: message,
            metadata: None,
        }),
        items[at] == (RolloutView::UserMessage { message }) ==> 0 <= shown_before(items, at)
            < rollout_entries(items).len() && rollout_entries(items)[shown_before(items, at)] == (
        EntryView {
            timestamp: None,
            kind: EntryKind::UserMessage,
            content: message,
            metadata: None,
        }),
{
    if own_parts(items)[at] is Shown {
        lemma_item_is_shown(items, at);
    }
}

/// Reasoning is shown: what was thought where that is on record, and its
/// summary, a line each, where it is not.
pub proof fn law_reasoning_is_shown(
    items: Seq<RolloutView>,
    at: int,
    summary: Seq<Seq<char>>,
    content: Option<Seq<Seq<char>>>,
    shown: Seq<char>,
)
    requires
        0 <= at < items.len(),
        items[at] == RolloutView::Response(ResponseView::Reasoning { summary, content }),
        shown.len() > 0,
        content matches Some(blocks) && joined(blocks, ""@).len() > 0 ==> shown == joined(
            content->0,
            ""@,
        ),
        !(content matches Some(blocks) && joined(blocks, ""@).len() > 0) ==> shown == joined(
            summary,
            "\n"@,
        ),
    ensures
        0 <= shown_before(items, at) < rollout_entries(items).len(),
        rollout_entries(items)[shown_before(items, at)] == (EntryView {
            timestamp: None,
            kind: EntryKind::Thinking,
            content: shown,
            metadata: None,
        }),
{
    lemma_item_is_shown(items, at);
}

/// Compactions and token counts are shown; a count is shown as 32 bits hold it,
/// and a negative one as none.
pub proof fn law_compactions_and_counts_are_shown(items: Seq<RolloutView>, at: int)
    requires
        0 <= at < items.len(),
    ensures
        items[at] matches RolloutView::Compacted { message } ==> 0 <= shown_before(items, at)
            < rollout_entries(items).len() && rollout_entries(items)[shown_before(items, at)] == (
        EntryView {
            timestamp: None,
            kind: EntryKind::SystemMessage,
            content: message,
            metadata: None,
        }),
        items[at] matches RolloutView::TokenCount(Some(count)) ==> 0 <= shown_before(items, at)
            < rollout_entries(items).len() && ({
            let entry = rollout_entries(items)[shown_before(items, at)];
            let window = match count.model_context_window {
                Some(window) => window,
                None => 0,
            };
            &&& entry.content == "Tokens used: "@ + signed_decimal(count.total_tokens as int)
                + " / Context window: "@ + signed_decimal(window as int)
            &&& entry.kind matches EntryKind::TokenUsageInfo(info)
            &&& 0 <= count.total_tokens <= u32::MAX ==> info.total_tokens == count.total_tokens
            &&& count.total_tokens < 0 ==> info.total_tokens == 0
            &&& 0 <= window <= u32::MAX ==> info.model_context_window == window
            &&& window < 0 ==> info.model_context_window == 0
        }),
{
    if own_parts(items)[at] is Shown {
        lemma_item_is_shown(items, at);
    }
}

proof fn lemma_silent(items: Seq<RolloutView>, id: Seq<char>, from: int, to: int)
    requires
        0 <= from,
        to <= items.len(),
        nothing_said(items, id, from, to),
    ensures
        is_silent(own_parts(items), id, from, to),
{
    let parts = own_parts(items);
    assert forall|k: int| from <= k < to implies !speaks_of(#[trigger] parts[k], id) by {
        let item = items[k];
        assert(!calls(item, id) && !answers(item, id));
        match parts[k] {
            Part::Answer { id: own, answer } => {
                assert(brings(item, own, answer.0, answer.1));
            },
            _ => {},
        }
    }
}

/// A function call whose output is on record, with no other call or output
/// under its id in between, is shown with the text of that output. It has
/// failed exactly where the output says so.
pub proof fn law_answered_function_call(
    items: Seq<RolloutView>,
    at: int,
    output: int,
    name: Seq<char>,
    arguments: Seq<char>,
    id: Seq<char>,
    text: Seq<char>,
    success: bool,
)
    requires
        0 <= at < output < items.len(),
        items[at] == RolloutView::Response(
            ResponseView::FunctionCall { name, arguments, call_id: id },
        ),
        brings(items[output], id, text, success),
        nothing_said(items, id, at + 1, output),
    ensures
        0 <= shown_before(items, at) < rollout_entries(items).len(),
        ({
            let command = command_of(arguments, json_outcome(arguments));
            let shell = name == "exec_command"@ || name == "shell"@ || name == "local_shell_exec"@
                || name == "container.exec"@;
            rollout_entries(items)[shown_before(items, at)] == (EntryView {
                timestamp: None,
                kind: EntryKind::ToolUse {
                    tool_name: name,
                    action: if shell {
                        ActionView::CommandRun {
                            command,
                            result: Some(RunResultView { exit_status: None, output: Some(text) }),
                        }
                    } else {
                        ActionView::Tool {
                            tool_name: name,
                            arguments: match json_outcome(arguments) {
                                Ok(value) => Some(value),
                                Err(_) => None,
                            },
                            result: Some(
                                ToolResultView {
                                    value_type: ToolResultValueType::Markdown,
                                    value: JsonView::Text(text),
                                },
                            ),
                        }
                    },
                    status: if success {
                        ToolStatus::Success
                    } else {
                        ToolStatus::Failed
                    },
                },
                content: if shell {
                    command
                } else {
                    name
                },
                metadata: None,
            })
        }),
{
    lemma_conversation(items);
    lemma_places(items, at);
    lemma_silent(items, id, at + 1, output);
    lemma_answered(own_parts(items), at, output, completion());
}

/// A custom tool call whose output is on record, with no other call or output
/// under its id in between, is shown with that output. It has failed exactly
/// where a function output under its id says so.
pub proof fn law_answered_custom_call(
    items: Seq<RolloutView>,
    at: int,
    output: int,
    name: Seq<char>,
    input: Seq<char>,
    id: Seq<char>,
    text: Seq<char>,
    success: bool,
)
    requires
        0 <= at < output < items.len(),
        items[at] == RolloutView::Response(
            ResponseView::CustomToolCall { name, input, call_id: id },
        ),
        brings(items[output], id, text, success),
        nothing_said(items, id, at + 1, output),
    ensures
        0 <= shown_before(items, at) < rollout_entries(items).len(),
        rollout_entries(items)[shown_before(items, at)] == (EntryView {
            timestamp: None,
            kind: EntryKind::ToolUse {
                tool_name: name,
                action: ActionView::Tool {
                    tool_name: name,
                    arguments: Some(JsonView::Text(input)),
                    result: Some(
                        ToolResultView {
                            value_type: ToolResultValueType::Markdown,
                            value: JsonView::Text(text),
                        },
                    ),
                },
                status: if success {
                    ToolStatus::Success
                } else {
                    ToolStatus::Failed
                },
            },
            content: name,
            metadata: None,
        }),
{
    lemma_conversation(items);
    lemma_places(items, at);
    lemma_silent(items, id, at + 1, output);
    lemma_answered(own_parts(items), at, output, completion());
}

/// A custom tool never says that it failed: with its own output on record, and
/// no other call or output under its id in between, it is shown as a success
/// with that output as Markdown.
pub proof fn law_custom_output_is_a_success(
    items: Seq<RolloutView>,
    at: int,
    output: int,
    name: Seq<char>,
    input: Seq<char>,
    id: Seq<char>,
    text: Seq<char>,
)
    requires
        0 <= at < output < items.len(),
        items[at] == RolloutView::Response(
            ResponseView::CustomToolCall { name, input, call_id: id },
        ),
        items[output] == RolloutView::Response(
            ResponseView::CustomToolCallOutput { call_id: id, output: text },
        ),
        forall|k: int| at < k < output ==> !calls(#[trigger] items[k], id) && !answers(items[k], id),
    ensures
        0 <= shown_before(items, at) < rollout_entries(items).len(),
        rollout_entries(items)[shown_before(items, at)].kind matches EntryKind::ToolUse {
            tool_name,
            action,
            status,
        } && tool_name == name && status == ToolStatus::Success && action == (ActionView::Tool {
            tool_name: name,
            arguments: Some(JsonView::Text(input)),
            result: Some(
                ToolResultView {
                    value_type: ToolResultValueType::Markdown,
                    value: JsonView::Text(text),
                },
            ),
        }),
{
    law_answered_custom_call(items, at, output, name, input, id, text, true);
}

/// A call under whose id no output comes before the id is used again, or at
/// all, is shown as failed and without a result.
pub proof fn law_unanswered_call_has_failed(
    items: Seq<RolloutView>,
    at: int,
    id: Seq<char>,
    until: int,
)
    requires
        0 <= at < until <= items.len(),
        calls(items[at], id),
        nothing_said(items, id, at + 1, until),
        until < items.len() ==> calls(items[until], id),
    ensures
        0 <= shown_before(items, at) < rollout_entries(items).len(),
        rollout_entries(items)[shown_before(items, at)].kind matches EntryKind::ToolUse {
            tool_name,
            action,
            status,
        } && status == ToolStatus::Failed && match action {
            ActionView::CommandRun { command, result } => result is None
                && rollout_entries(items)[shown_before(items, at)].content == command,
            ActionView::Tool { tool_name: own, result, .. } => result is None && own == tool_name
                && rollout_entries(items)[shown_before(items, at)].content == tool_name,
            _ => false,
        },
        items[at] matches RolloutView::Response(ResponseView::FunctionCall { name, .. }) ==> (
        rollout_entries(items)[shown_before(items, at)].kind matches EntryKind::ToolUse {
            tool_name,
            ..
        } && tool_name == name),
        items[at] matches RolloutView::Response(ResponseView::CustomToolCall { name, input, .. })
            ==> (rollout_entries(items)[shown_before(items, at)].kind matches EntryKind::ToolUse {
            action,
            ..
        } && action == (ActionView::Tool {
            tool_name: name,
            arguments: Some(JsonView::Text(input)),
            result: None,
        })),
{
    lemma_conversation(items);
    lemma_places(items, at);
    lemma_silent(items, id, at + 1, until);
    if until < items.len() {
        lemma_superseded(own_parts(items), at, until, completion());
    } else {
        lemma_unanswered(own_parts(items), at, completion());
    }
}

/// The text of a message is the texts of its parts, one after the other: of the
/// input texts or of the output texts, never of both, and of no image.
pub proof fn law_message_text_is_its_parts(
    first: Seq<ContentView>,
    second: Seq<ContentView>,
    text: Seq<char>,
    want_input: bool,
)
    ensures
        text_of_message(first + second, want_input) == text_of_message(first, want_input)
            + text_of_message(second, want_input),
        text_of_message(seq![ContentView::InputText { text }], true) == text,
        text_of_message(seq![ContentView::OutputText { text }], false) == text,
        text_of_message(seq![ContentView::InputText { text }], false).len() == 0,
        text_of_message(seq![ContentView::OutputText { text }], true).len() == 0,
        text_of_message(seq![ContentView::InputImage { image_url: text }], want_input).len() == 0,
{
    reveal_with_fuel(selected_texts, 2);
    reveal_strlit("");
    assert(seq![ContentView::InputText { text }].drop_last() =~= Seq::empty());
    assert(seq![ContentView::OutputText { text }].drop_last() =~= Seq::empty());
    assert(seq![ContentView::InputImage { image_url: text }].drop_last() =~= Seq::empty());
    lemma_selected_concat(first, second, want_input);
    lemma_joined_concat(selected_texts(first, want_input), selected_texts(second, want_input));
}

proof fn lemma_selected_concat(first: Seq<ContentView>, second: Seq<ContentView>, want_input: bool)
    ensures
        selected_texts(first + second, want_input) == selected_texts(first, want_input)
            + selected_texts(second, want_input),
    decreases second.len(),
{
    if second.len() == 0 {
        assert(first + second =~= first);
        assert(selected_texts(first, want_input) + Seq::empty() =~= selected_texts(
            first,
            want_input,
        ));
    } else {
        lemma_selected_concat(first, second.drop_last(), want_input);
        assert((first + second).drop_last() =~= first + second.drop_last());
        let before = selected_texts(first, want_input);
        let rest = selected_texts(second.drop_last(), want_input);
        assert forall|text: Seq<char>| (#[trigger] (before + rest).push(text)) == before
            + rest.push(text) by {
            assert((before + rest).push(text) =~= before + rest.push(text));
        }
    }
}

proof fn lemma_joined_concat(first: Seq<Seq<char>>, second: Seq<Seq<char>>)
    ensures
        joined(first + second, ""@) == joined(first, ""@) + joined(second, ""@),
    decreases second.len(),
{
    reveal_strlit("");
    assert(""@ =~= Seq::empty());
    if second.len() == 0 {
        assert(first + second =~= first);
        assert(joined(first, ""@) + Seq::empty() =~= joined(first, ""@));
    } else {
        let rest = second.drop_last();
        let last = second.last();
        lemma_joined_concat(first, rest);
        assert((first + second).drop_last() =~= first + rest);
        assert((first + second).last() == last);
        if first.len() + second.len() == 1 {
            assert(first + second =~= second);
            assert(joined(first, ""@) =~= Seq::empty());
            assert(joined(first, ""@) + joined(second, ""@) =~= joined(second, ""@));
        } else if second.len() == 1 {
            assert(first + rest =~= first);
            assert(joined(first + second, ""@) =~= joined(first, ""@) + last);
        } else {
            assert(joined(first + second, ""@) =~= joined(first, ""@) + (joined(rest, ""@) + ""@
                + last));
        }
    }
}

/// The text of a function's output is its content where it has no parts, and
/// each further text among its parts stands on a line of its own; images are
/// left out.
pub proof fn law_output_text_is_content_and_parts(
    content: Seq<char>,
    items: Seq<OutputView>,
    item: OutputView,
    success: Option<bool>,
)
    ensures
        payload_text(PayloadView { content, content_items: None, success }) == content,
        payload_text(PayloadView { content, content_items: Some(Seq::empty()), success })
            == content,
        ({
            let before = payload_text(PayloadView { content, content_items: Some(items), success });
            let after = payload_text(
                PayloadView { content, content_items: Some(items.push(item)), success },
            );
            match item {
                OutputView::InputText { text } => after == before + "\n"@ + text,
                OutputView::InputImage { .. } => after == before,
            }
        }),
{
    assert(items.push(item).drop_last() =~= items);
    let first = seq![content];
    assert(first + Seq::<Seq<char>>::empty() =~= first);
    if let OutputView::InputText { text } = item {
        let parts = first + output_texts(items);
        assert(first + output_texts(items).push(text) =~= parts.push(text));
        assert(parts.push(text).drop_last() =~= parts);
    }
}

/// The command of a shell call is its `cmd`, else its `command`: a string as it
/// is, strings with a space between each two. Without either it is the
/// arguments as they came, and so where these are no JSON.
pub proof fn law_command_is_cmd_or_command(arguments: Seq<char>, args: JsonView, command: Seq<char>)
    ensures
        field(args, "cmd"@) == Some(JsonView::Text(command)) ==> command_of(arguments, Ok(args))
            == command,
        !(field(args, "cmd"@) matches Some(JsonView::Text(_))) && !(field(args, "cmd"@) matches Some(
            JsonView::Array(_),
        )) && field(args, "command"@) == Some(JsonView::Text(command)) ==> command_of(
            arguments,
            Ok(args),
        ) == command,
        field(args, "cmd"@) matches Some(JsonView::Array(words)) ==> (forall|i: int|
            0 <= i < words.len() ==> #[trigger] words[i] is Text) ==> command_of(
            arguments,
            Ok(args),
        ) == joined(words.map_values(|word: JsonView| word->Text_0), " "@),
        field(args, "cmd"@) is None && (field(args, "command"@) matches Some(
            JsonView::Array(words),
        )) ==> (forall|i: int|
            0 <= i < field(args, "command"@)->0->Array_0.len() ==> #[trigger] field(
                args,
                "command"@,
            )->0->Array_0[i] is Text) ==> command_of(arguments, Ok(args)) == joined(
            field(args, "command"@)->0->Array_0.map_values(|word: JsonView| word->Text_0),
            " "@,
        ),
        field(args, "cmd"@) is None && field(args, "command"@) is None ==> command_of(
            arguments,
            Ok(args),
        ) == arguments,
        forall|message: Seq<char>| #[trigger] command_of(arguments, Err(message)) == arguments,
{
    if let Some(JsonView::Array(words)) = field(args, "cmd"@) {
        if forall|i: int| 0 <= i < words.len() ==> #[trigger] words[i] is Text {
            lemma_strings(words);
        }
    }
    if let Some(JsonView::Array(words)) = field(args, "command"@) {
        if forall|i: int| 0 <= i < words.len() ==> #[trigger] words[i] is Text {
            lemma_strings(words);
        }
    }
}

proof fn lemma_strings(words: Seq<JsonView>)
    requires
        forall|i: int| 0 <= i < words.len() ==> #[trigger] words[i] is Text,
    ensures
        strings_in(words) == words.map_values(|word: JsonView| word->Text_0),
    decreases words.len(),
{
    if words.len() > 0 {
        let rest = words.drop_last();
        assert forall|i: int| 0 <= i < rest.len() implies #[trigger] rest[i] is Text by {
            assert(rest[i] == words[i]);
        }
        lemma_strings(rest);
        assert(words[words.len() - 1] is Text);
        assert(words.map_values(|word: JsonView| word->Text_0) =~= rest.map_values(
            |word: JsonView| word->Text_0,
        ).push(words.last()->Text_0));
    } else {
        assert(words.map_values(|word: JsonView| word->Text_0) =~= Seq::empty());
    }
}

// ---------------------------------------------------------------------------
// Decoding
// ---------------------------------------------------------------------------

/// The model of a decoding outcome.
pub open spec fn item_outcome(outcome: Result<RolloutRecord, String>) -> Result<
    RolloutView,
    Seq<char>,
> {
    match outcome {
        Ok(item) => Ok(item@),
        Err(message) => Err(message@),
    }
}

/// The models of decoding outcomes.
pub open spec fn item_outcomes(outcomes: Seq<Result<RolloutRecord, String>>) -> Seq<
    Result<RolloutView, Seq<char>>,
> {
    outcomes.map_values(|outcome: Result<RolloutRecord, String>| item_outcome(outcome))
}

/// What `serde_json::from_str` makes of a text as a Codex rollout item: the
/// item, or the message of the error.
pub uninterp spec fn rollout_outcome(text: Seq<char>) -> Result<RolloutView, Seq<char>>;

/// What decoding each of the lines gives.
pub open spec fn rollout_outcomes(lines: Seq<Seq<char>>) -> Seq<Result<RolloutView, Seq<char>>> {
    lines.map_values(|line: Seq<char>| rollout_outcome(line))
}

/// Codex's rollout item, opaque.
#[verifier::external_type_specification]
#[verifier::external_body]
pub struct ExRolloutItem(codex_protocol::protocol::RolloutItem);

/// Codex's event, opaque.
#[verifier::external_type_specification]
#[verifier::external_body]
pub struct ExEventMsg(codex_protocol::protocol::EventMsg);

/// Codex's response item, opaque.
#[verifier::external_type_specification]
#[verifier::external_body]
pub struct ExResponseItem(codex_protocol::models::ResponseItem);

/// Codex's message part, opaque.
#[verifier::external_type_specification]
#[verifier::external_body]
pub struct ExContentItem(codex_protocol::models::ContentItem);

/// Codex's reasoning part, opaque.
#[verifier::external_type_specification]
#[verifier::external_body]
pub struct ExReasoningItemContent(codex_protocol::models::ReasoningItemContent);

/// Codex's function output, opaque.
#[verifier::external_type_specification]
#[verifier::external_body]
pub struct ExFunctionCallOutputPayload(codex_protocol::models::FunctionCallOutputPayload);

/// Converts a part of a message, variant by variant.
#[verifier::external_body]
fn from_content(part: models::ContentItem) -> MessagePart {
    match part {
        models::ContentItem::InputText { text } => MessagePart::InputText { text },
        models::ContentItem::InputImage { image_url } => MessagePart::InputImage { image_url },
        models::ContentItem::OutputText { text } => MessagePart::OutputText { text },
    }
}

/// Converts a part of a reasoning item to its text.
#[verifier::external_body]
fn from_reasoning(part: models::ReasoningItemContent) -> String {
    match part {
        models::ReasoningItemContent::ReasoningText { text } => text,
        models::ReasoningItemContent::Text { text } => text,
    }
}

/// Converts the output of a function, field by field.
#[verifier::external_body]
fn from_payload(payload: models::FunctionCallOutputPayload) -> CallOutput {
    CallOutput {
        content: payload.content,
        content_items: payload.content_items.map(|items| items.into_iter().map(|item| match item {
            models::FunctionCallOutputContentItem::InputText { text } => OutputPart::InputText { text },
            models::FunctionCallOutputContentItem::InputImage { image_url } => OutputPart::InputImage { image_url },
        }).collect()),
        success: payload.success,
    }
}

/// Converts a call or its output, variant by variant.
#[verifier::external_body]
fn from_call(item: ResponseItem) -> ResponseRecord {
    match item {
        ResponseItem::FunctionCall { name, arguments, call_id, .. } =>
            ResponseRecord::FunctionCall { name, arguments, call_id },
        ResponseItem::FunctionCallOutput { call_id, output } =>
            ResponseRecord::FunctionCallOutput { call_id, output: from_payload(output) },
        ResponseItem::CustomToolCall { name, input, call_id, .. } =>
            ResponseRecord::CustomToolCall { name, input, call_id },
        ResponseItem::CustomToolCallOutput { call_id, output } =>
            ResponseRecord::CustomToolCallOutput { call_id, output },
        ResponseItem::Message { .. } | ResponseItem::Reasoning { .. }
            | ResponseItem::LocalShellCall { .. } | ResponseItem::WebSearchCall { .. }
            | ResponseItem::GhostSnapshot { .. } | ResponseItem::CompactionSummary { .. }
            | ResponseItem::Other => ResponseRecord::Other,
    }
}

/// Converts a response item, variant by variant.
#[verifier::external_body]
fn from_response(item: models::ResponseItem) -> ResponseRecord {
    match item {
        models::ResponseItem::Message { role, content, .. } => ResponseRecord::Message {
            role,
            content: content.into_iter().map(from_content).collect(),
        },
        models::ResponseItem::Reasoning { summary, content, .. } => ResponseRecord::Reasoning {
            summary: summary.into_iter()
                .map(|models::ReasoningItemReasoningSummary::SummaryText { text }| text).collect(),
            content: content.map(|parts| parts.into_iter().map(from_reasoning).collect()),
        },
        other => from_call(other),
    }
}

/// Converts an event, variant by variant.
#[verifier::external_body]
fn from_event(event: protocol::EventMsg) -> RolloutRecord {
    match event {
        protocol::EventMsg::AgentMessage(event) => RolloutRecord::AgentMessage { message: event.message },
        protocol::EventMsg::UserMessage(event) => RolloutRecord::UserMessage { message: event.message },
        protocol::EventMsg::TokenCount(event) => RolloutRecord::TokenCount(event.info.map(|info| TokenCount {
            total_tokens: info.total_token_usage.total_tokens,
            model_context_window: info.model_context_window,
        })),
        _ => RolloutRecord::Other,
    }
}

/// Converts a rollout item, variant by variant.
#[verifier::external_body]
fn from_item(item: protocol::RolloutItem) -> RolloutRecord {
    match item {
        protocol::RolloutItem::SessionMeta(line) => RolloutRecord::SessionMeta { id: line.meta.id.to_string() },
        protocol::RolloutItem::ResponseItem(response) => RolloutRecord::Response(from_response(response)),
        protocol::RolloutItem::Compacted(compacted) => RolloutRecord::Compacted { message: compacted.message },
        protocol::RolloutItem::EventMsg(event) => from_event(event),
        protocol::RolloutItem::TurnContext(_) => RolloutRecord::Other,
    }
}

/// Decodes a rollout line with
/// `serde_json::from_str::<codex_protocol::protocol::RolloutItem>`. The outcome
/// depends on the text alone.
#[verifier::external_body]
pub(crate) fn parse_rollout_line(text: &str) -> (outcome: Result<RolloutRecord, String>)
    ensures
        item_outcome(outcome) == rollout_outcome(text@),
{
    serde_json::from_str::<protocol::RolloutItem>(text).map(from_item).map_err(|error| error.to_string())
}

/// Decodes each of the lines.
pub fn parse_rollout_lines(lines: &Vec<String>) -> (outcomes: Vec<Result<RolloutRecord, String>>)
    ensures
        item_outcomes(outcomes@) == rollout_outcomes(views(lines@)),
{
    let mut outcomes: Vec<Result<RolloutRecord, String>> = Vec::new();
    let mut i: usize = 0;
    while i < lines.len()
        invariant
            i <= lines@.len(),
            outcomes@.len() == i,
            forall|k: int|
                0 <= k < i ==> item_outcome(#[trigger] outcomes@[k]) == rollout_outcome(
                    lines@[k]@,
                ),
        decreases lines@.len() - i,
    {
        outcomes.push(parse_rollout_line(&lines[i]));
        i = i + 1;
    }
    assert(item_outcomes(outcomes@) =~= rollout_outcomes(views(lines@)));
    outcomes
}

// ---------------------------------------------------------------------------
// Rollout files
// ---------------------------------------------------------------------------

/// Whether a decoded first line is the header of a session.
pub open spec fn is_header_of(outcome: Result<RolloutView, Seq<char>>, session_id: Seq<char>) -> bool {
    outcome == Ok::<RolloutView, Seq<char>>(RolloutView::SessionMeta { id: session_id })
}

/// Whether a decoded first line is the header of a session.
pub fn is_session_header(outcome: &Result<RolloutRecord, String>, session_id: &str) -> (matching: bool)
    ensures
        matching == is_header_of(item_outcome(*outcome), session_id@),
{
    match outcome {
        Ok(RolloutRecord::SessionMeta { id }) => same(id, session_id),
        _ => false,
    }
}

/// Whether a rollout file actually belongs to a session: forking a rollout
/// rewrites ids, and matching the file name alone can pick the wrong one.
pub fn header_matches_session(first_line: &str, session_id: &str) -> (matching: bool)
    ensures
        matching == is_header_of(rollout_outcome(trimmed(first_line@)), session_id@),
{
    let line = trim(first_line);
    is_session_header(&parse_rollout_line(&line), session_id)
}

/// What looking for a rollout file by name found.
#[derive(Debug)]
pub enum RolloutLookup {
    /// A file, and whether its header belongs to the session.
    Found { path: String, header_matches: bool },
    /// No file; `root` is where it was looked for.
    NotFound { root: String },
    /// The search failed.
    Failed { message: String },
}

/// Where a session is, or why it cannot be found.
pub open spec fn located(session_id: Seq<char>, lookup: RolloutLookup) -> Result<
    Seq<char>,
    HistoryFailure,
> {
    match lookup {
        RolloutLookup::Found { path, header_matches } => if header_matches {
            Ok(path@)
        } else {
            Err(
                HistoryFailure::Corrupt {
                    path: path@,
                    reason: "rollout filename matches but session_meta id differs"@,
                },
            )
        },
        RolloutLookup::NotFound { root } => Err(
            HistoryFailure::FileNotFound { session_id, root: root@ },
        ),
        RolloutLookup::Failed { message } => Err(HistoryFailure::FormatUnsupported(message@)),
    }
}

/// What is wrong with the first line that is no rollout item.
pub open spec fn first_bad_line(outcomes: Seq<Result<RolloutView, Seq<char>>>) -> Option<Seq<char>>
    decreases outcomes.len(),
{
    if outcomes.len() == 0 {
        None
    } else {
        match first_bad_line(outcomes.drop_last()) {
            Some(reason) => Some(reason),
            None => match outcomes.last() {
                Err(message) => Some(
                    "line "@ + decimal(outcomes.len()) + " is not a valid rollout item: "@ + message,
                ),
                Ok(_) => None,
            },
        }
    }
}

/// The decoded items of outcomes.
pub open spec fn decoded_items(outcomes: Seq<Result<RolloutView, Seq<char>>>) -> Seq<RolloutView> {
    outcomes.map_values(
        |outcome: Result<RolloutView, Seq<char>>|
            match outcome {
                Ok(item) => item,
                Err(_) => RolloutView::Other,
            },
    )
}

/// The id in the first header among items.
pub open spec fn first_session_id(items: Seq<RolloutView>) -> Option<Seq<char>>
    decreases items.len(),
{
    if items.len() == 0 {
        None
    } else {
        match first_session_id(items.drop_last()) {
            Some(id) => Some(id),
            None => match items.last() {
                RolloutView::SessionMeta { id } => Some(id),
                _ => None,
            },
        }
    }
}

/// The history that decoded lines are: the first bad line decides, and then
/// whether there is a header.
pub open spec fn history_of_lines(
    path: Seq<char>,
    outcomes: Seq<Result<RolloutView, Seq<char>>>,
    fingerprint: FileFingerprint,
    partial_tail: bool,
) -> Result<HistoryView, HistoryFailure> {
    match first_bad_line(outcomes) {
        Some(reason) => Err(HistoryFailure::Corrupt { path, reason }),
        None => match first_session_id(decoded_items(outcomes)) {
            Some(session_id) => Ok(
                HistoryView {
                    agent: BaseCodingAgent::Codex,
                    session_id,
                    entries: rollout_entries(decoded_items(outcomes)),
                    fingerprint,
                    partial_tail,
                },
            ),
            None => Err(
                HistoryFailure::Corrupt { path, reason: "rollout has no session_meta line"@ },
            ),
        },
    }
}

proof fn lemma_first_bad_line_stays(outcomes: Seq<Result<RolloutView, Seq<char>>>, seen: int)
    requires
        0 <= seen <= outcomes.len(),
        first_bad_line(outcomes.take(seen)) is Some,
    ensures
        first_bad_line(outcomes) == first_bad_line(outcomes.take(seen)),
    decreases outcomes.len(),
{
    if seen == outcomes.len() {
        assert(outcomes.take(seen) =~= outcomes);
    } else {
        assert(outcomes.drop_last().take(seen) =~= outcomes.take(seen));
        lemma_first_bad_line_stays(outcomes.drop_last(), seen);
    }
}

fn collect_items(path: &str, outcomes: Vec<Result<RolloutRecord, String>>) -> (items: Result<
    Vec<RolloutRecord>,
    NativeHistoryError,
>)
    ensures
        match items {
            Ok(items) => first_bad_line(item_outcomes(outcomes@)) is None && rollout_views(items@)
                == decoded_items(item_outcomes(outcomes@)),
            Err(error) => first_bad_line(item_outcomes(outcomes@)) matches Some(reason) && error@
                == (HistoryFailure::Corrupt { path: path@, reason }),
        },
{
    let ghost all = item_outcomes(outcomes@);
    let len: usize = outcomes.len();
    let mut items: Vec<RolloutRecord> = Vec::new();
    let mut line: usize = 0;
    assert(rollout_views(items@) =~= decoded_items(all.take(0)));
    for outcome in it: outcomes
        invariant
            it.seq() == outcomes@,
            all == item_outcomes(outcomes@),
            line == it.index(),
            len == outcomes@.len(),
            first_bad_line(all.take(line as int)) is None,
            rollout_views(items@) == decoded_items(all.take(line as int)),
    {
        let ghost seen = all.take(line + 1);
        proof {
            assert(seen.drop_last() =~= all.take(line as int));
            assert(seen.last() == item_outcome(outcome));
            if first_bad_line(seen) is Some {
                lemma_first_bad_line_stays(all, line + 1);
            }
        }
        match outcome {
            Err(message) => {
                let number = decimal_text((line + 1) as u64);
                let reason = concat4("line ", &number, " is not a valid rollout item: ", &message);
                return Err(NativeHistoryError::corrupt(path, &reason));
            },
            Ok(item) => {
                let ghost before = items@;
                items.push(item);
                assert(rollout_views(items@) =~= rollout_views(before).push(item@));
                assert(decoded_items(seen) =~= decoded_items(all.take(line as int)).push(item@));
            },
        }
        line = line + 1;
    }
    assert(all.take(all.len() as int) =~= all);
    Ok(items)
}

fn find_session_id(items: &Vec<RolloutRecord>) -> (id: Option<String>)
    ensures
        opt_view(id) == first_session_id(rollout_views(items@)),
{
    let mut found: Option<String> = None;
    let mut i: usize = 0;
    while i < items.len()
        invariant
            i <= items@.len(),
            opt_view(found) == first_session_id(rollout_views(items@).take(i as int)),
        decreases items@.len() - i,
    {
        proof {
            let seen = rollout_views(items@).take(i + 1);
            assert(seen.drop_last() =~= rollout_views(items@).take(i as int));
            assert(seen.last() == items@[i as int]@);
        }
        if found.is_none() {
            if let RolloutRecord::SessionMeta { id } = &items[i] {
                found = Some(id.clone());
            }
        }
        i = i + 1;
    }
    assert(rollout_views(items@).take(items@.len() as int) =~= rollout_views(items@));
    found
}

impl CodexNativeSessionHistory {
    /// Where a session is.
    pub fn locate(session_id: &str, lookup: RolloutLookup) -> (path: Result<
        String,
        NativeHistoryError,
    >)
        ensures
            match path {
                Ok(path) => located(session_id@, lookup) == Ok::<Seq<char>, HistoryFailure>(path@),
                Err(error) => located(session_id@, lookup) == Err::<Seq<char>, HistoryFailure>(
                    error@,
                ),
            },
    {
        match lookup {
            RolloutLookup::Found { path, header_matches } => {
                if header_matches {
                    Ok(path)
                } else {
                    Err(
                        NativeHistoryError::corrupt(
                            &path,
                            "rollout filename matches but session_meta id differs",
                        ),
                    )
                }
            },
            RolloutLookup::NotFound { root } => Err(
                NativeHistoryError::FileNotFound { session_id: session_id.to_owned(), root },
            ),
            RolloutLookup::Failed { message } => Err(
                NativeHistoryError::FormatUnsupported(message),
            ),
        }
    }

    /// Reads the decoded lines of a rollout file.
    pub fn read_lines(
        path: &str,
        outcomes: Vec<Result<RolloutRecord, String>>,
        fingerprint: FileFingerprint,
        partial_tail: bool,
    ) -> (history: Result<NativeSessionHistory, NativeHistoryError>)
        ensures
            history_outcome(history) == history_of_lines(
                path@,
                item_outcomes(outcomes@),
                fingerprint,
                partial_tail,
            ),
    {
        let items = match collect_items(path, outcomes) {
            Ok(items) => items,
            Err(error) => {
                return Err(error);
            },
        };
        match find_session_id(&items) {
            None => Err(NativeHistoryError::corrupt(path, "rollout has no session_meta line")),
            Some(session_id) => Ok(
                NativeSessionHistory {
                    agent: BaseCodingAgent::Codex,
                    session_id,
                    entries: map_rollout_items(&items),
                    fingerprint,
                    partial_tail,
                },
            ),
        }
    }

    /// Reads the bytes of a rollout file.
    pub fn read(path: &str, bytes: Vec<u8>, fingerprint: FileFingerprint, tail: TailPolicy) -> (history:
        Result<NativeSessionHistory, NativeHistoryError>)
        ensures
            history_outcome(history) == match jsonl_outcome(path@, bytes@, tail) {
                Ok(content) => history_of_lines(
                    path@,
                    rollout_outcomes(content.lines),
                    fingerprint,
                    content.partial_tail,
                ),
                Err(failure) => Err(failure),
            },
    {
        match read_native_jsonl(path, bytes, tail) {
            Err(error) => Err(error),
            Ok(content) => {
                let outcomes = parse_rollout_lines(&content.lines);
                Self::read_lines(path, outcomes, fingerprint, content.partial_tail)
            },
        }
    }
}

// ---------------------------------------------------------------------------
// Laws of rollout files
// ---------------------------------------------------------------------------

/// A rollout belongs to the session that its first line names, and to no other.
pub proof fn law_header_names_the_session(
    id: Seq<char>,
    session_id: Seq<char>,
    item: RolloutView,
    message: Seq<char>,
)
    ensures
        is_header_of(Ok((RolloutView::SessionMeta { id })), session_id) <==> id == session_id,
        !(item is SessionMeta) ==> !is_header_of(Ok(item), session_id),
        !is_header_of(Err(message), session_id),
{
}

/// A rollout file is used only where its header belongs to the session, whatever
/// its name is. Where there is none, the directory that was searched is told, and
/// where the search failed, why.
pub proof fn law_only_confirmed_rollouts_are_located(
    session_id: Seq<char>,
    path: String,
    root: String,
    message: String,
)
    ensures
        located(session_id, (RolloutLookup::Found { path, header_matches: true })) == Ok::<
            Seq<char>,
            HistoryFailure,
        >(path@),
        located(session_id, (RolloutLookup::Found { path, header_matches: false })) == Err::<
            Seq<char>,
            HistoryFailure,
        >(
            (HistoryFailure::Corrupt {
                path: path@,
                reason: "rollout filename matches but session_meta id differs"@,
            }),
        ),
        located(session_id, (RolloutLookup::NotFound { root })) == Err::<
            Seq<char>,
            HistoryFailure,
        >((HistoryFailure::FileNotFound { session_id, root: root@ })),
        located(session_id, (RolloutLookup::Failed { message })) == Err::<
            Seq<char>,
            HistoryFailure,
        >(HistoryFailure::FormatUnsupported(message@)),
{
}

/// A rollout whose lines are all items is shown from all of them, under the
/// session that its first header names. Without a header it is corrupt.
pub proof fn law_history_is_of_every_line(
    path: Seq<char>,
    outcomes: Seq<Result<RolloutView, Seq<char>>>,
    items: Seq<RolloutView>,
    fingerprint: FileFingerprint,
    partial_tail: bool,
    at: int,
)
    requires
        items.len() == outcomes.len(),
        forall|i: int|
            0 <= i < items.len() ==> #[trigger] outcomes[i] == Ok::<RolloutView, Seq<char>>(
                items[i],
            ),
    ensures
        0 <= at < items.len() && (forall|i: int| 0 <= i < at ==> !((#[trigger] items[i])
            is SessionMeta)) ==> (items[at] matches RolloutView::SessionMeta { id }
            ==> history_of_lines(path, outcomes, fingerprint, partial_tail) == Ok::<
            HistoryView,
            HistoryFailure,
        >(
            HistoryView {
                agent: BaseCodingAgent::Codex,
                session_id: id,
                entries: rollout_entries(items),
                fingerprint,
                partial_tail,
            },
        )),
        (forall|i: int| 0 <= i < items.len() ==> !((#[trigger] items[i]) is SessionMeta))
            ==> history_of_lines(path, outcomes, fingerprint, partial_tail) == Err::<
            HistoryView,
            HistoryFailure,
        >((HistoryFailure::Corrupt { path, reason: "rollout has no session_meta line"@ })),
{
    assert forall|i: int| 0 <= i < outcomes.len() implies (#[trigger] outcomes[i]) is Ok by {
        assert(outcomes[i] == Ok::<RolloutView, Seq<char>>(items[i]));
    }
    lemma_no_bad_line(outcomes);
    assert(decoded_items(outcomes) =~= items);
    if 0 <= at < items.len() && (forall|i: int|
        0 <= i < at ==> !((#[trigger] items[i]) is SessionMeta)) && items[at] is SessionMeta {
        lemma_first_header(items, at);
    }
    if forall|i: int| 0 <= i < items.len() ==> !((#[trigger] items[i]) is SessionMeta) {
        lemma_no_header(items);
    }
}

proof fn lemma_no_bad_line(outcomes: Seq<Result<RolloutView, Seq<char>>>)
    requires
        forall|i: int| 0 <= i < outcomes.len() ==> (#[trigger] outcomes[i]) is Ok,
    ensures
        first_bad_line(outcomes) is None,
    decreases outcomes.len(),
{
    if outcomes.len() > 0 {
        let rest = outcomes.drop_last();
        assert(forall|i: int| 0 <= i < rest.len() ==> #[trigger] rest[i] == outcomes[i]);
        lemma_no_bad_line(rest);
        assert(outcomes[outcomes.len() - 1] is Ok);
    }
}

proof fn lemma_no_header(items: Seq<RolloutView>)
    requires
        forall|i: int| 0 <= i < items.len() ==> !((#[trigger] items[i]) is SessionMeta),
    ensures
        first_session_id(items) is None,
    decreases items.len(),
{
    if items.len() > 0 {
        let rest = items.drop_last();
        assert(forall|i: int| 0 <= i < rest.len() ==> #[trigger] rest[i] == items[i]);
        lemma_no_header(rest);
        assert(!(items[items.len() - 1] is SessionMeta));
    }
}

proof fn lemma_first_header(items: Seq<RolloutView>, at: int)
    requires
        0 <= at < items.len(),
        items[at] is SessionMeta,
        forall|i: int| 0 <= i < at ==> !((#[trigger] items[i]) is SessionMeta),
    ensures
        items[at] matches RolloutView::SessionMeta { id } && first_session_id(items) == Some(id),
    decreases items.len(),
{
    let rest = items.drop_last();
    assert(forall|i: int| 0 <= i < rest.len() ==> #[trigger] rest[i] == items[i]);
    if at < rest.len() {
        lemma_first_header(rest, at);
    } else {
        lemma_no_header(rest);
    }
}

/// The first line that is no item makes a rollout corrupt: the reason gives its
/// number and what is wrong with it.
pub proof fn law_first_bad_line_makes_a_rollout_corrupt(
    path: Seq<char>,
    outcomes: Seq<Result<RolloutView, Seq<char>>>,
    fingerprint: FileFingerprint,
    partial_tail: bool,
    at: int,
    message: Seq<char>,
)
    requires
        0 <= at < outcomes.len(),
        outcomes[at] == Err::<RolloutView, Seq<char>>(message),
        forall|i: int| 0 <= i < at ==> (#[trigger] outcomes[i]) is Ok,
    ensures
        history_of_lines(path, outcomes, fingerprint, partial_tail) == Err::<
            HistoryView,
            HistoryFailure,
        >(
            (HistoryFailure::Corrupt {
                path,
                reason: "line "@ + decimal((at + 1) as nat) + " is not a valid rollout item: "@
                    + message,
            }),
        ),
{
    let seen = outcomes.take(at + 1);
    let before = seen.drop_last();
    assert(forall|i: int| 0 <= i < before.len() ==> #[trigger] before[i] == outcomes[i]);
    lemma_no_bad_line(before);
    assert(seen.last() == outcomes[at]);
    lemma_first_bad_line_stays(outcomes, at + 1);
}

/// The model of [`MessagePart`] holds what the value does, part by part.
pub proof fn law_model_of_message_part(value: MessagePart)
    ensures
        match value {
            MessagePart::InputText { text } => value@ == (ContentView::InputText { text: text@ }),
            MessagePart::InputImage { image_url } => value@ == (ContentView::InputImage {
                image_url: image_url@,
            }),
            MessagePart::OutputText { text } => value@ == (ContentView::OutputText { text: text@ }),
        },
{
}

/// The model of [`OutputPart`] holds what the value does, part by part.
pub proof fn law_model_of_output_part(value: OutputPart)
    ensures
        match value {
            OutputPart::InputText { text } => value@ == (OutputView::InputText { text: text@ }),
            OutputPart::InputImage { image_url } => value@ == (OutputView::InputImage {
                image_url: image_url@,
            }),
        },
{
}

/// The model of [`CallOutput`] holds what the value does, part by part.
pub proof fn law_model_of_call_output(value: CallOutput)
    ensures
        value@.content == value.content@,
        value.content_items matches Some(items) ==> value@.content_items == Some(
            output_views(items@),
        ),
        value.content_items is None ==> value@.content_items is None,
        value@.success == value.success,
{
}

/// The model of [`ResponseRecord`] holds what the value does, part by part.
pub proof fn law_model_of_response_record(value: ResponseRecord)
    ensures
        match value {
            ResponseRecord::Message { role, content } => value@ == (ResponseView::Message {
                role: role@,
                content: content_views(content@),
            }),
            ResponseRecord::Reasoning { summary, content } => value@ == (ResponseView::Reasoning {
                summary: views(summary@),
                content: match content { Some(blocks) => Some(views(blocks@)), None => None, },
            }),
            ResponseRecord::FunctionCall { name, arguments, call_id } =>
                value@ == (ResponseView::FunctionCall {
                    name: name@,
                    arguments: arguments@,
                    call_id: call_id@,
                }),
            ResponseRecord::FunctionCallOutput { call_id, output } =>
                value@ == (ResponseView::FunctionCallOutput {
                    call_id: call_id@,
                    output: output@,
                }),
            ResponseRecord::CustomToolCall { name, input, call_id } =>
                value@ == (ResponseView::CustomToolCall {
                    name: name@,
                    input: input@,
                    call_id: call_id@,
                }),
            ResponseRecord::CustomToolCallOutput { call_id, output } =>
                value@ == (ResponseView::CustomToolCallOutput {
                    call_id: call_id@,
                    output: output@,
                }),
            ResponseRecord::Other => value@ == ResponseView::Other,
        },
{
}

/// The model of [`RolloutRecord`] holds what the value does, part by part.
pub proof fn law_model_of_rollout_record(value: RolloutRecord)
    ensures
        match value {
            RolloutRecord::SessionMeta { id } => value@ == (RolloutView::SessionMeta { id: id@ }),
            RolloutRecord::Response(response) => value@ == RolloutView::Response(response@),
            RolloutRecord::Compacted { message } => value@ == (RolloutView::Compacted {
                message: message@,
            }),
            RolloutRecord::AgentMessage { message } => value@ == (RolloutView::AgentMessage {
                message: message@,
            }),
            RolloutRecord::UserMessage { message } => value@ == (RolloutView::UserMessage {
                message: message@,
            }),
            RolloutRecord::TokenCount(count) => value@ == RolloutView::TokenCount(count),
            RolloutRecord::Other => value@ == RolloutView::Other,
        },
{
}

} // verus!
