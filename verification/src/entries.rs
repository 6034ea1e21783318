//! Normalized conversation entries: the one format that every agent's
//! history and live output is turned into.

use vstd::prelude::*;

use crate::json::{copy_all, copy_opt, json_views, opt_json, Json, JsonView};
use crate::text::{copy_text, opt_view};

verus! {

/// The agents whose sessions the board can run and read.
#[derive(Clone, Copy, Debug, PartialEq, Eq, Hash, Structural)]
pub enum BaseCodingAgent {
    Pi,
    Codex,
    ClaudeCode,
}

/// How far a tool call has come.
#[derive(Clone, Copy, Debug, PartialEq, Eq, Structural)]
pub enum ToolStatus {
    Created,
    Success,
    Failed,
}

/// Kind of an error entry.
#[derive(Clone, Copy, Debug, PartialEq, Eq, Structural)]
pub enum NormalizedEntryError {
    SetupRequired,
    Other,
}

/// How a command ended.
#[derive(Clone, Copy, Debug, PartialEq, Eq, Structural)]
pub enum CommandExitStatus {
    ExitCode { code: i32 },
    Success { success: bool },
}

/// How a tool result is to be shown.
#[derive(Clone, Copy, Debug, PartialEq, Eq, Structural)]
pub enum ToolResultValueType {
    Markdown,
    Json,
}

/// Tokens used so far and the model's window.
#[derive(Clone, Copy, Debug, PartialEq, Eq, Structural)]
pub struct TokenUsageInfo {
    pub total_tokens: u32,
    pub model_context_window: u32,
}

/// What a command gave back.
#[derive(Debug, PartialEq, Eq)]
pub struct CommandRunResult {
    pub exit_status: Option<CommandExitStatus>,
    pub output: Option<String>,
}

/// What a tool gave back.
#[derive(Debug, PartialEq, Eq)]
pub struct ToolResult {
    pub value_type: ToolResultValueType,
    pub value: Json,
}

/// What a tool call does. `Other` carries an action that the library passes
/// through unread, in its JSON form.
#[allow(inconsistent_fields)]
#[derive(Debug, PartialEq, Eq)]
pub enum ActionType {
    FileRead { path: String },
    FileEdit { path: String, changes: Vec<Json> },
    CommandRun { command: String, result: Option<CommandRunResult> },
    Search { query: String },
    Tool { tool_name: String, arguments: Option<Json>, result: Option<ToolResult> },
    TaskCreate { description: String, result: Option<ToolResult> },
    Other { action: Json },
}

/// What an entry is.
#[derive(Debug, PartialEq, Eq)]
pub enum NormalizedEntryType {
    UserMessage,
    AssistantMessage,
    SystemMessage,
    Thinking,
    ErrorMessage { error_type: NormalizedEntryError },
    ToolUse { tool_name: String, action_type: ActionType, status: ToolStatus },
    TokenUsageInfo(TokenUsageInfo),
}

/// One entry of a conversation.
#[derive(Debug, PartialEq, Eq)]
pub struct NormalizedEntry {
    pub timestamp: Option<String>,
    pub entry_type: NormalizedEntryType,
    pub content: String,
    pub metadata: Option<Json>,
}

/// Model of [`CommandRunResult`].
pub struct RunResultView {
    pub exit_status: Option<CommandExitStatus>,
    pub output: Option<Seq<char>>,
}

/// Model of [`ToolResult`].
pub struct ToolResultView {
    pub value_type: ToolResultValueType,
    pub value: JsonView,
}

/// Model of [`ActionType`].
#[allow(inconsistent_fields)]
pub enum ActionView {
    FileRead { path: Seq<char> },
    FileEdit { path: Seq<char>, changes: Seq<JsonView> },
    CommandRun { command: Seq<char>, result: Option<RunResultView> },
    Search { query: Seq<char> },
    Tool { tool_name: Seq<char>, arguments: Option<JsonView>, result: Option<ToolResultView> },
    TaskCreate { description: Seq<char>, result: Option<ToolResultView> },
    Other { action: JsonView },
}

/// Model of [`NormalizedEntryType`].
pub enum EntryKind {
    UserMessage,
    AssistantMessage,
    SystemMessage,
    Thinking,
    ErrorMessage { error_type: NormalizedEntryError },
    ToolUse { tool_name: Seq<char>, action: ActionView, status: ToolStatus },
    TokenUsageInfo(TokenUsageInfo),
}

/// Model of [`NormalizedEntry`].
pub struct EntryView {
    pub timestamp: Option<Seq<char>>,
    pub kind: EntryKind,
    pub content: Seq<char>,
    pub metadata: Option<JsonView>,
}

impl View for CommandRunResult {
    type V = RunResultView;

    open spec fn view(&self) -> RunResultView {
        RunResultView { exit_status: self.exit_status, output: opt_view(self.output) }
    }
}

impl View for ToolResult {
    type V = ToolResultView;

    open spec fn view(&self) -> ToolResultView {
        ToolResultView { value_type: self.value_type, value: self.value@ }
    }
}

/// The model of an optional command result.
pub open spec fn opt_run_result(result: Option<CommandRunResult>) -> Option<RunResultView> {
    match result {
        Some(result) => Some(result@),
        None => None,
    }
}

/// The model of an optional tool result.
pub open spec fn opt_tool_result(result: Option<ToolResult>) -> Option<ToolResultView> {
    match result {
        Some(result) => Some(result@),
        None => None,
    }
}

impl View for ActionType {
    type V = ActionView;

    open spec fn view(&self) -> ActionView {
        match self {
            ActionType::FileRead { path } => ActionView::FileRead { path: path@ },
            ActionType::FileEdit { path, changes } => ActionView::FileEdit {
                path: path@,
                changes: json_views(changes@),
            },
            ActionType::CommandRun { command, result } => ActionView::CommandRun {
                command: command@,
                result: opt_run_result(*result),
            },
            ActionType::Search { query } => ActionView::Search { query: query@ },
            ActionType::Tool { tool_name, arguments, result } => ActionView::Tool {
                tool_name: tool_name@,
                arguments: opt_json(*arguments),
                result: opt_tool_result(*result),
            },
            ActionType::TaskCreate { description, result } => ActionView::TaskCreate {
                description: description@,
                result: opt_tool_result(*result),
            },
            ActionType::Other { action } => ActionView::Other { action: action@ },
        }
    }
}

impl View for NormalizedEntryType {
    type V = EntryKind;

    open spec fn view(&self) -> EntryKind {
        match self {
            NormalizedEntryType::UserMessage => EntryKind::UserMessage,
            NormalizedEntryType::AssistantMessage => EntryKind::AssistantMessage,
            NormalizedEntryType::SystemMessage => EntryKind::SystemMessage,
            NormalizedEntryType::Thinking => EntryKind::Thinking,
            NormalizedEntryType::ErrorMessage { error_type } => EntryKind::ErrorMessage {
                error_type: *error_type,
            },
            NormalizedEntryType::ToolUse { tool_name, action_type, status } => EntryKind::ToolUse {
                tool_name: tool_name@,
                action: action_type@,
                status: *status,
            },
            NormalizedEntryType::TokenUsageInfo(info) => EntryKind::TokenUsageInfo(*info),
        }
    }
}

impl View for NormalizedEntry {
    type V = EntryView;

    open spec fn view(&self) -> EntryView {
        EntryView {
            timestamp: opt_view(self.timestamp),
            kind: self.entry_type@,
            content: self.content@,
            metadata: opt_json(self.metadata),
        }
    }
}

/// The models of a sequence of entries.
pub open spec fn entry_views(entries: Seq<NormalizedEntry>) -> Seq<EntryView> {
    entries.map_values(|entry: NormalizedEntry| entry@)
}

/// Pushing an entry pushes its model.
pub proof fn lemma_entry_views_push(entries: Seq<NormalizedEntry>, entry: NormalizedEntry)
    ensures
        entry_views(entries.push(entry)) == entry_views(entries).push(entry@),
{
    assert(entry_views(entries.push(entry)) =~= entry_views(entries).push(entry@));
}

/// Replacing an entry replaces its model.
pub proof fn lemma_entry_views_update(
    entries: Seq<NormalizedEntry>,
    position: int,
    entry: NormalizedEntry,
)
    requires
        0 <= position < entries.len(),
    ensures
        entry_views(entries.update(position, entry)) == entry_views(entries).update(
            position,
            entry@,
        ),
{
    assert(entry_views(entries.update(position, entry)) =~= entry_views(entries).update(
        position,
        entry@,
    ));
}

/// An entry with neither timestamp nor metadata.
pub open spec fn plain_entry(kind: EntryKind, content: Seq<char>) -> EntryView {
    EntryView { timestamp: None, kind, content, metadata: None }
}

/// `entries` with one more plain entry, unless its content would be empty.
pub open spec fn push_nonempty(entries: Seq<EntryView>, kind: EntryKind, content: Seq<char>) -> Seq<
    EntryView,
> {
    if content.len() == 0 {
        entries
    } else {
        entries.push(plain_entry(kind, content))
    }
}

/// The entry with another tool status; entries that are no tool use keep none
/// and stay as they are.
pub open spec fn with_status(entry: EntryView, status: ToolStatus) -> EntryView {
    match entry.kind {
        EntryKind::ToolUse { tool_name, action, .. } => EntryView {
            kind: EntryKind::ToolUse { tool_name, action, status },
            ..entry
        },
        _ => entry,
    }
}

/// Whether an entry is a tool call that has neither succeeded nor failed.
pub open spec fn is_created(entry: EntryView) -> bool {
    entry.kind matches EntryKind::ToolUse { status, .. } && status == ToolStatus::Created
}

/// The entries with another tool status at `position`.
pub open spec fn set_status_at(entries: Seq<EntryView>, position: int, status: ToolStatus) -> Seq<
    EntryView,
> {
    entries.update(position, with_status(entries[position], status))
}

impl NormalizedEntry {
    /// An entry with neither timestamp nor metadata.
    pub fn plain(entry_type: NormalizedEntryType, content: String) -> (entry: NormalizedEntry)
        ensures
            entry@ == plain_entry(entry_type@, content@),
    {
        NormalizedEntry { timestamp: None, entry_type, content, metadata: None }
    }

    /// Gives a tool use another status; changes nothing else.
    pub fn set_tool_status(&mut self, status: ToolStatus)
        ensures
            final(self)@ == with_status(old(self)@, status),
    {
        if let NormalizedEntryType::ToolUse { status: current, .. } = &mut self.entry_type {
            *current = status;
        }
    }
}

impl ToolResult {
    /// A result that is shown as Markdown.
    pub fn markdown(text: String) -> (result: ToolResult)
        ensures
            result@ == (ToolResultView {
                value_type: ToolResultValueType::Markdown,
                value: JsonView::Text(text@),
            }),
    {
        ToolResult { value_type: ToolResultValueType::Markdown, value: Json::Text(text) }
    }
}

/// Pushes a plain entry, unless its content is empty.
pub fn push_entry_nonempty(
    entries: &mut Vec<NormalizedEntry>,
    entry_type: NormalizedEntryType,
    content: String,
)
    ensures
        entry_views(final(entries)@) == push_nonempty(
            entry_views(old(entries)@),
            entry_type@,
            content@,
        ),
        final(entries)@.len() >= old(entries)@.len(),
{
    if !crate::text::no_text(&content) {
        let entry = NormalizedEntry::plain(entry_type, content);
        proof {
            lemma_entry_views_push(entries@, entry);
        }
        entries.push(entry);
    }
}

/// Pushes an entry.
pub fn push_entry(entries: &mut Vec<NormalizedEntry>, entry: NormalizedEntry)
    ensures
        entry_views(final(entries)@) == entry_views(old(entries)@).push(entry@),
        final(entries)@.len() == old(entries)@.len() + 1,
{
    proof {
        lemma_entry_views_push(entries@, entry);
    }
    entries.push(entry);
}

/// Gives the entry at `position` another tool status.
pub fn set_status(entries: &mut Vec<NormalizedEntry>, position: usize, status: ToolStatus)
    requires
        position < old(entries)@.len(),
    ensures
        entry_views(final(entries)@) == set_status_at(
            entry_views(old(entries)@),
            position as int,
            status,
        ),
        final(entries)@.len() == old(entries)@.len(),
{
    let ghost before = entries@;
    let entry = &mut entries[position];
    entry.set_tool_status(status);
    proof {
        lemma_entry_views_update(before, position as int, entries@[position as int]);
        assert(entries@ =~= before.update(position as int, entries@[position as int]));
    }
}

/// An entry once nothing more can happen to it: a tool call that has neither
/// succeeded nor failed never completed, so it has failed.
pub open spec fn settled(entry: EntryView) -> EntryView {
    if is_created(entry) {
        with_status(entry, ToolStatus::Failed)
    } else {
        entry
    }
}

/// The entries of a conversation to which nothing more is added.
pub open spec fn settled_entries(entries: Seq<EntryView>) -> Seq<EntryView> {
    entries.map_values(|entry: EntryView| settled(entry))
}

/// Marks every tool call that has neither succeeded nor failed as failed.
pub fn settle(entries: &mut Vec<NormalizedEntry>)
    ensures
        entry_views(final(entries)@) == settled_entries(entry_views(old(entries)@)),
{
    let ghost before = entry_views(entries@);
    let len: usize = entries.len();
    let mut i: usize = 0;
    while i < len
        invariant
            i <= len,
            len == entries@.len(),
            before.len() == len,
            forall|k: int|
                0 <= k < len ==> (#[trigger] entry_views(entries@)[k]) == if k < i {
                    settled(before[k])
                } else {
                    before[k]
                },
        decreases len - i,
    {
        let running = match &entries[i].entry_type {
            NormalizedEntryType::ToolUse { status: ToolStatus::Created, .. } => true,
            _ => false,
        };
        assert(entry_views(entries@)[i as int] == entries@[i as int]@);
        assert(running == is_created(before[i as int]));
        let ghost held = entry_views(entries@);
        if running {
            set_status(entries, i, ToolStatus::Failed);
        }
        assert forall|k: int| 0 <= k < len implies (#[trigger] entry_views(entries@)[k]) == if k < i
            + 1 {
            settled(before[k])
        } else {
            before[k]
        } by {
            assert(held[k] == if k < i {
                settled(before[k])
            } else {
                before[k]
            });
        }
        i = i + 1;
    }
    assert(entry_views(entries@) =~= settled_entries(before));
}

/// Nothing is left running in a conversation to which nothing more is added.
pub proof fn lemma_settled_entries(entries: Seq<EntryView>)
    ensures
        forall|k: int|
            0 <= k < settled_entries(entries).len() ==> !is_created(
                #[trigger] settled_entries(entries)[k],
            ),
{
}

// ---------------------------------------------------------------------------
// Copies
// ---------------------------------------------------------------------------

fn copy_tool_result(result: &Option<ToolResult>) -> (copied: Option<ToolResult>)
    ensures
        opt_tool_result(copied) == opt_tool_result(*result),
{
    match result {
        Some(result) => Some(
            ToolResult { value_type: result.value_type, value: result.value.copy() },
        ),
        None => None,
    }
}

impl ActionType {
    /// A copy of this action.
    pub fn copy(&self) -> (copied: ActionType)
        ensures
            copied@ == self@,
    {
        match self {
            ActionType::FileRead { path } => ActionType::FileRead { path: path.clone() },
            ActionType::FileEdit { path, changes } => ActionType::FileEdit {
                path: path.clone(),
                changes: copy_all(changes),
            },
            ActionType::CommandRun { command, result } => ActionType::CommandRun {
                command: command.clone(),
                result: match result {
                    Some(result) => Some(
                        CommandRunResult {
                            exit_status: result.exit_status,
                            output: copy_text(&result.output),
                        },
                    ),
                    None => None,
                },
            },
            ActionType::Search { query } => ActionType::Search { query: query.clone() },
            ActionType::Tool { tool_name, arguments, result } => ActionType::Tool {
                tool_name: tool_name.clone(),
                arguments: copy_opt(arguments),
                result: copy_tool_result(result),
            },
            ActionType::TaskCreate { description, result } => ActionType::TaskCreate {
                description: description.clone(),
                result: copy_tool_result(result),
            },
            ActionType::Other { action } => ActionType::Other { action: action.copy() },
        }
    }
}

impl NormalizedEntry {
    /// A copy of this entry.
    pub fn copy(&self) -> (copied: NormalizedEntry)
        ensures
            copied@ == self@,
    {
        let entry_type = match &self.entry_type {
            NormalizedEntryType::UserMessage => NormalizedEntryType::UserMessage,
            NormalizedEntryType::AssistantMessage => NormalizedEntryType::AssistantMessage,
            NormalizedEntryType::SystemMessage => NormalizedEntryType::SystemMessage,
            NormalizedEntryType::Thinking => NormalizedEntryType::Thinking,
            NormalizedEntryType::ErrorMessage { error_type } => NormalizedEntryType::ErrorMessage {
                error_type: *error_type,
            },
            NormalizedEntryType::ToolUse { tool_name, action_type, status } =>
                NormalizedEntryType::ToolUse {
                tool_name: tool_name.clone(),
                action_type: action_type.copy(),
                status: *status,
            },
            NormalizedEntryType::TokenUsageInfo(info) => NormalizedEntryType::TokenUsageInfo(*info),
        };
        NormalizedEntry {
            timestamp: copy_text(&self.timestamp),
            entry_type,
            content: self.content.clone(),
            metadata: copy_opt(&self.metadata),
        }
    }
}

/// Copies of entries.
pub fn copy_entries(entries: &Vec<NormalizedEntry>) -> (copied: Vec<NormalizedEntry>)
    ensures
        entry_views(copied@) == entry_views(entries@),
{
    let mut copied: Vec<NormalizedEntry> = Vec::new();
    let mut i: usize = 0;
    while i < entries.len()
        invariant
            i <= entries@.len(),
            copied@.len() == i,
            forall|k: int| 0 <= k < i ==> (#[trigger] copied@[k])@ == entries@[k]@,
        decreases entries@.len() - i,
    {
        copied.push(entries[i].copy());
        i = i + 1;
    }
    assert(entry_views(copied@) =~= entry_views(entries@));
    copied
}

/// The model of [`CommandRunResult`] holds what the value does, part by part.
pub proof fn law_model_of_command_run_result(value: CommandRunResult)
    ensures
        value@.exit_status == value.exit_status,
        value@.output == opt_view(value.output),
{
}

/// The model of [`ToolResult`] holds what the value does, part by part.
pub proof fn law_model_of_tool_result(value: ToolResult)
    ensures
        value@.value_type == value.value_type,
        value@.value == value.value@,
{
}

/// The model of [`ActionType`] holds what the value does, part by part.
pub proof fn law_model_of_action_type(value: ActionType)
    ensures
        match value {
            ActionType::FileRead { path } => value@ == (ActionView::FileRead { path: path@ }),
            ActionType::FileEdit { path, changes } => value@ == (ActionView::FileEdit {
                path: path@,
                changes: json_views(changes@),
            }),
            ActionType::CommandRun { command, result } => value@ == (ActionView::CommandRun {
                command: command@,
                result: opt_run_result(result),
            }),
            ActionType::Search { query } => value@ == (ActionView::Search { query: query@ }),
            ActionType::Tool { tool_name, arguments, result } => value@ == (ActionView::Tool {
                tool_name: tool_name@,
                arguments: opt_json(arguments),
                result: opt_tool_result(result),
            }),
            ActionType::TaskCreate { description, result } => value@ == (ActionView::TaskCreate {
                description: description@,
                result: opt_tool_result(result),
            }),
            ActionType::Other { action } => value@ == (ActionView::Other { action: action@ }),
        },
{
}

/// The model of [`NormalizedEntryType`] holds what the value does, part by part.
pub proof fn law_model_of_normalized_entry_type(value: NormalizedEntryType)
    ensures
        match value {
            NormalizedEntryType::UserMessage => value@ == EntryKind::UserMessage,
            NormalizedEntryType::AssistantMessage => value@ == EntryKind::AssistantMessage,
            NormalizedEntryType::SystemMessage => value@ == EntryKind::SystemMessage,
            NormalizedEntryType::Thinking => value@ == EntryKind::Thinking,
            NormalizedEntryType::ErrorMessage { error_type } => value@ == (EntryKind::ErrorMessage {
                error_type,
            }),
            NormalizedEntryType::ToolUse { tool_name, action_type, status } =>
                value@ == (EntryKind::ToolUse {
                    tool_name: tool_name@,
                    action: action_type@,
                    status,
                }),
            NormalizedEntryType::TokenUsageInfo(info) => value@ == EntryKind::TokenUsageInfo(info),
        },
{
}

/// The model of [`NormalizedEntry`] holds what the value does, part by part.
pub proof fn law_model_of_normalized_entry(value: NormalizedEntry)
    ensures
        value@.timestamp == opt_view(value.timestamp),
        value@.kind == value.entry_type@,
        value@.content == value.content@,
        value@.metadata == opt_json(value.metadata),
{
}

/// A text is shown as one more entry, with neither timestamp nor metadata; an
/// empty one is not shown.
pub proof fn law_texts_are_shown_unless_empty(
    entries: Seq<EntryView>,
    kind: EntryKind,
    content: Seq<char>,
)
    ensures
        content.len() > 0 ==> push_nonempty(entries, kind, content) == entries.push(
            (EntryView { timestamp: None, kind, content, metadata: None }),
        ),
        content.len() == 0 ==> push_nonempty(entries, kind, content) == entries,
        plain_entry(kind, content) == (EntryView {
            timestamp: None,
            kind,
            content,
            metadata: None,
        }),
{
}

/// Another status changes the status of a tool use and nothing else; what is no
/// tool use has none.
pub proof fn law_another_status_changes_nothing_else(entry: EntryView, status: ToolStatus)
    ensures
        entry.kind matches EntryKind::ToolUse { tool_name, action, .. } ==> with_status(
            entry,
            status,
        ) == (EntryView {
            timestamp: entry.timestamp,
            kind: EntryKind::ToolUse { tool_name, action, status },
            content: entry.content,
            metadata: entry.metadata,
        }),
        !(entry.kind is ToolUse) ==> with_status(entry, status) == entry,
{
}

/// Once nothing more is added, a tool call that has neither succeeded nor failed
/// has failed. Every other entry stays as it is, and each stays in its place.
pub proof fn law_unfinished_calls_have_failed_in_the_end(entries: Seq<EntryView>, i: int)
    requires
        0 <= i < entries.len(),
    ensures
        settled_entries(entries).len() == entries.len(),
        entries[i].kind matches EntryKind::ToolUse { tool_name, action, status } ==> (status
            == ToolStatus::Created ==> settled_entries(entries)[i] == EntryView {
            timestamp: entries[i].timestamp,
            kind: EntryKind::ToolUse { tool_name, action, status: ToolStatus::Failed },
            content: entries[i].content,
            metadata: entries[i].metadata,
        }),
        !(entries[i].kind matches EntryKind::ToolUse { status, .. } && status
            == ToolStatus::Created) ==> settled_entries(entries)[i] == entries[i],
{
}

/// The models of entries are those of each of them, in their order, and the model
/// of a result that may be missing is that of the result.
pub proof fn law_models_of_entries_keep_their_order(
    entries: Seq<NormalizedEntry>,
    i: int,
    run: CommandRunResult,
    result: ToolResult,
)
    ensures
        entry_views(entries).len() == entries.len(),
        0 <= i < entries.len() ==> entry_views(entries)[i] == entries[i]@,
        opt_run_result(Some(run)) == Some(run@),
        opt_run_result(None) is None,
        opt_tool_result(Some(result)) == Some(result@),
        opt_tool_result(None) is None,
{
}

} // verus!
