//! History from the session files that PI persists.
//!
//! A session file is a header line and one JSON record per line. A record
//! refers to its parent, so a file can hold branches; those, and compacted
//! sessions, are resolved by PI's own session manager before they are mapped.

use vstd::hash_set::StringHashSet;
use vstd::prelude::*;
use vstd::utf8::{decode_utf8, valid_utf8};

use crate::entries::{
    entry_views, is_created, lemma_entry_views_update, lemma_settled_entries, plain_entry,
    push_entry, push_entry_nonempty, push_nonempty, settle, settled, settled_entries, ActionType,
    ActionView, BaseCodingAgent, CommandExitStatus, CommandRunResult, EntryKind, EntryView,
    NormalizedEntry, NormalizedEntryType, RunResultView, ToolStatus,
};
use crate::history::{
    history_outcome, jsonl_outcome, read_native_jsonl, FileFingerprint, HistoryFailure,
    HistoryView, NativeHistoryError, NativeSessionHistory, NativeSessionHistoryProvider,
    TailPolicy,
};
use crate::json::{
    bool_field, field, int_of, json_outcome, json_views, line_outcomes, opt_json, outcome_view,
    outcome_views, parse_json, parse_lines, string_field, string_field_or_empty, Json, JsonView,
};
use crate::pi::normalize_logs::{
    block_texts, content_text, display_text, display_tool_name, frame_step,
    law_file_tools_name_their_file, message_content_text, shown_tool_name, tool_entry, tool_use,
    truncate_for_display, LogActionView, LogModel, PiFrame, MAX_DISPLAY_CHARS,
};
use crate::replay::{
    entries_before, has_entry, is_silent, lemma_answered, lemma_entry_count, lemma_shown,
    lemma_superseded, lemma_tracks_find, lemma_tracks_insert, lemma_tracks_remove,
    lemma_unanswered, replay, speaks_of, tracks, Part,
};
use crate::text::{
    concat2, concat4, contains, decimal, decimal_text, ends_with, finishes_with, holds_text,
    keep_nonblank, lines, lines_of, nonblank_lines, opt_view, same, trim, trimmed, utf8_text,
};
use crate::tool_slots::{insert_slot, remove_slot, slot_index, SlotView};

verus! {

/// Reads the sessions that PI persists.
#[derive(Debug)]
pub struct PiNativeSessionHistory;

impl NativeSessionHistoryProvider for PiNativeSessionHistory {
    open spec fn served_agent(&self) -> BaseCodingAgent {
        BaseCodingAgent::Pi
    }

    fn agent(&self) -> (agent: BaseCodingAgent) {
        BaseCodingAgent::Pi
    }
}

/// A tool call whose result has not come yet: its id, the position of its
/// entry, the tool and the arguments.
pub struct OpenCall {
    pub id: Seq<char>,
    pub position: int,
    pub name: Seq<char>,
    pub args: Option<JsonView>,
}

/// The entries so far, and the calls among them that are still open.
pub struct Transcript {
    pub entries: Seq<EntryView>,
    pub open: Seq<OpenCall>,
}

/// The first open call with an id.
pub open spec fn call_index(open: Seq<OpenCall>, id: Seq<char>) -> Option<int>
    decreases open.len(),
{
    if open.len() == 0 {
        None
    } else {
        match call_index(open.drop_last(), id) {
            Some(i) => Some(i),
            None => if open.last().id == id {
                Some(open.len() - 1)
            } else {
                None
            },
        }
    }
}

/// Opens a call: a newer call with the same id takes the place of an older.
pub open spec fn open_call(open: Seq<OpenCall>, call: OpenCall) -> Seq<OpenCall> {
    match call_index(open, call.id) {
        Some(i) => open.remove(i).push(call),
        None => open.push(call),
    }
}

/// One block of an assistant message.
pub open spec fn block_step(before: Transcript, block: JsonView) -> Transcript {
    let kind = string_field(block, "type"@);
    if kind == Some("thinking"@) {
        Transcript {
            entries: push_nonempty(
                before.entries,
                EntryKind::Thinking,
                string_field_or_empty(block, "thinking"@),
            ),
            ..before
        }
    } else if kind == Some("text"@) {
        Transcript {
            entries: push_nonempty(
                before.entries,
                EntryKind::AssistantMessage,
                string_field_or_empty(block, "text"@),
            ),
            ..before
        }
    } else if kind == Some("toolCall"@) {
        let name = string_field_or_empty(block, "name"@);
        let args = field(block, "arguments"@);
        Transcript {
            entries: before.entries.push(tool_entry(name, args, None, ToolStatus::Created)),
            open: match string_field(block, "id"@) {
                Some(id) => open_call(
                    before.open,
                    OpenCall { id, position: before.entries.len() as int, name, args },
                ),
                None => before.open,
            },
        }
    } else {
        before
    }
}

/// The blocks of an assistant message, one after the other.
pub open spec fn blocks_step(before: Transcript, blocks: Seq<JsonView>) -> Transcript
    decreases blocks.len(),
{
    if blocks.len() == 0 {
        before
    } else {
        block_step(blocks_step(before, blocks.drop_last()), blocks.last())
    }
}

/// A tool result: it completes the open call that it names; without one it is
/// dropped.
pub open spec fn result_step(before: Transcript, message: JsonView) -> Transcript {
    match call_index(before.open, string_field_or_empty(message, "toolCallId"@)) {
        Some(i) => {
            let call = before.open[i];
            let status = if bool_field(message, "isError"@) == Some(true) {
                ToolStatus::Failed
            } else {
                ToolStatus::Success
            };
            Transcript {
                entries: before.entries.update(
                    call.position,
                    tool_entry(
                        call.name,
                        call.args,
                        Some(JsonView::Text(content_text(message))),
                        status,
                    ),
                ),
                open: before.open.remove(i),
            }
        },
        None => before,
    }
}

/// The exit code of a shell execution, as 32 bits hold it.
pub open spec fn exit_code(message: JsonView) -> Option<i32> {
    match int_of(field(message, "exitCode"@)) {
        Some(code) => Some((code as i64) as i32),
        None => None,
    }
}

/// The entry of a shell execution.
pub open spec fn bash_entry(message: JsonView) -> EntryView {
    let command = string_field_or_empty(message, "command"@);
    plain_entry(
        EntryKind::ToolUse {
            tool_name: shown_tool_name("bash"@),
            action: ActionView::CommandRun {
                command,
                result: Some(
                    RunResultView {
                        exit_status: match exit_code(message) {
                            Some(code) => Some(CommandExitStatus::ExitCode { code }),
                            None => None,
                        },
                        output: Some(display_text(string_field_or_empty(message, "output"@))),
                    },
                ),
            },
            status: if exit_code(message) == Some(0i32) {
                ToolStatus::Success
            } else {
                ToolStatus::Failed
            },
        },
        command,
    )
}

/// One message record.
pub open spec fn message_step(before: Transcript, message: JsonView) -> Transcript {
    let role = string_field_or_empty(message, "role"@);
    if role == "user"@ {
        Transcript {
            entries: push_nonempty(before.entries, EntryKind::UserMessage, content_text(message)),
            ..before
        }
    } else if role == "assistant"@ {
        match field(message, "content"@) {
            Some(JsonView::Array(blocks)) => blocks_step(before, blocks),
            _ => before,
        }
    } else if role == "toolResult"@ {
        result_step(before, message)
    } else if role == "bashExecution"@ {
        Transcript { entries: before.entries.push(bash_entry(message)), ..before }
    } else {
        before
    }
}

/// Whether a record is one that conversations show: a summary, a custom
/// message or a message.
pub open spec fn is_shown_record(record: JsonView) -> bool {
    let kind = string_field_or_empty(record, "type"@);
    kind == "compaction"@ || kind == "branch_summary"@ || kind == "custom_message"@ || kind
        == "message"@
}

/// One record of a session.
pub open spec fn record_step(before: Transcript, record: JsonView) -> Transcript {
    let kind = string_field_or_empty(record, "type"@);
    if kind == "compaction"@ || kind == "branch_summary"@ {
        Transcript {
            entries: push_nonempty(
                before.entries,
                EntryKind::SystemMessage,
                string_field_or_empty(record, "summary"@),
            ),
            ..before
        }
    } else if kind == "custom_message"@ {
        if bool_field(record, "display"@) == Some(true) {
            Transcript {
                entries: push_nonempty(
                    before.entries,
                    EntryKind::SystemMessage,
                    content_text(record),
                ),
                ..before
            }
        } else {
            before
        }
    } else if kind == "message"@ {
        match field(record, "message"@) {
            Some(message) => message_step(before, message),
            None => before,
        }
    } else {
        before
    }
}

/// What a sequence of records leads to.
pub open spec fn transcript(records: Seq<JsonView>) -> Transcript
    decreases records.len(),
{
    if records.len() == 0 {
        Transcript { entries: Seq::empty(), open: Seq::empty() }
    } else {
        record_step(transcript(records.drop_last()), records.last())
    }
}

/// The conversation that a sequence of records is. Tool calls without a result
/// never completed, so they have failed.
pub open spec fn session_entries(records: Seq<JsonView>) -> Seq<EntryView> {
    settled_entries(transcript(records).entries)
}

/// An open call, as plain values.
struct Slot {
    id: String,
    position: usize,
    name: String,
    args: Option<Json>,
}

impl View for Slot {
    type V = OpenCall;

    closed spec fn view(&self) -> OpenCall {
        OpenCall {
            id: self.id@,
            position: self.position as int,
            name: self.name@,
            args: opt_json(self.args),
        }
    }
}

spec fn slot_views(slots: Seq<Slot>) -> Seq<OpenCall> {
    slots.map_values(|slot: Slot| slot@)
}

spec fn slots_within(slots: Seq<Slot>, len: nat) -> bool {
    forall|i: int| 0 <= i < slots.len() ==> (#[trigger] slots[i]).position < len
}

spec fn state_view(out: Seq<NormalizedEntry>, slots: Seq<Slot>) -> Transcript {
    Transcript { entries: entry_views(out), open: slot_views(slots) }
}

fn find_slot(slots: &Vec<Slot>, id: &String) -> (found: Option<usize>)
    ensures
        match found {
            Some(i) => call_index(slot_views(slots@), id@) == Some(i as int) && i < slots@.len(),
            None => call_index(slot_views(slots@), id@) is None,
        },
{
    let mut found: Option<usize> = None;
    let mut i: usize = 0;
    while i < slots.len()
        invariant
            i <= slots@.len(),
            match found {
                Some(k) => call_index(slot_views(slots@).take(i as int), id@) == Some(k as int) && k
                    < i,
                None => call_index(slot_views(slots@).take(i as int), id@) is None,
            },
        decreases slots@.len() - i,
    {
        proof {
            let seen = slot_views(slots@).take(i + 1);
            assert(seen.drop_last() =~= slot_views(slots@).take(i as int));
            assert(seen.last() == slots@[i as int]@);
        }
        if found.is_none() && slots[i].id == *id {
            found = Some(i);
        }
        i = i + 1;
    }
    assert(slot_views(slots@).take(slots@.len() as int) =~= slot_views(slots@));
    found
}

fn map_block(block: &Json, out: &mut Vec<NormalizedEntry>, slots: &mut Vec<Slot>)
    requires
        slots_within(old(slots)@, old(out)@.len()),
    ensures
        state_view(final(out)@, final(slots)@) == block_step(
            state_view(old(out)@, old(slots)@),
            block@,
        ),
        slots_within(final(slots)@, final(out)@.len()),
{
    if block.field_is("type", "thinking") {
        push_entry_nonempty(
            out,
            NormalizedEntryType::Thinking,
            block.str_field_or_empty("thinking"),
        );
    } else if block.field_is("type", "text") {
        push_entry_nonempty(
            out,
            NormalizedEntryType::AssistantMessage,
            block.str_field_or_empty("text"),
        );
    } else if block.field_is("type", "toolCall") {
        let name = block.str_field_or_empty("name");
        let args = match block.get("arguments") {
            Some(args) => Some(args.copy()),
            None => None,
        };
        let position: usize = out.len();
        let none: Option<Json> = None;
        let entry = tool_use(&name, &args, &none, ToolStatus::Created);
        push_entry(out, entry);
        if let Some(id) = block.str_field("id") {
            let slot = Slot { id: id.clone(), position, name, args };
            let ghost before = slots@;
            match find_slot(slots, id) {
                Some(i) => {
                    slots.remove(i);
                    assert(slot_views(slots@) =~= slot_views(before).remove(i as int));
                },
                None => {},
            }
            let ghost kept = slots@;
            slots.push(slot);
            assert(slot_views(slots@) =~= slot_views(kept).push(slot@));
        }
    }
}

fn map_result(message: &Json, out: &mut Vec<NormalizedEntry>, slots: &mut Vec<Slot>)
    requires
        slots_within(old(slots)@, old(out)@.len()),
    ensures
        state_view(final(out)@, final(slots)@) == result_step(
            state_view(old(out)@, old(slots)@),
            message@,
        ),
        slots_within(final(slots)@, final(out)@.len()),
{
    let id = message.str_field_or_empty("toolCallId");
    if let Some(i) = find_slot(slots, &id) {
        let status = match message.flag_field("isError") {
            Some(true) => ToolStatus::Failed,
            _ => ToolStatus::Success,
        };
        let ghost before = slots@;
        let slot = slots.remove(i);
        assert(slot_views(slots@) =~= slot_views(before).remove(i as int));
        assert(slot@ == slot_views(before)[i as int]);
        let result = Some(Json::Text(message_content_text(message)));
        let entry = tool_use(&slot.name, &slot.args, &result, status);
        proof {
            lemma_entry_views_update(out@, slot.position as int, entry);
        }
        out.set(slot.position, entry);
    }
}

fn bash_execution(message: &Json) -> (entry: NormalizedEntry)
    ensures
        entry@ == bash_entry(message@),
{
    let command = message.str_field_or_empty("command");
    let output = message.str_field_or_empty("output");
    let code: Option<i32> = match message.get("exitCode") {
        Some(value) => match value.as_i64() {
            Some(code) => Some(#[verifier::truncate] (code as i32)),
            None => None,
        },
        None => None,
    };
    let exit_status = match code {
        Some(code) => Some(CommandExitStatus::ExitCode { code }),
        None => None,
    };
    let status = match code {
        Some(0) => ToolStatus::Success,
        _ => ToolStatus::Failed,
    };
    NormalizedEntry::plain(
        NormalizedEntryType::ToolUse {
            tool_name: display_tool_name("bash"),
            action_type: ActionType::CommandRun {
                command: command.clone(),
                result: Some(
                    CommandRunResult { exit_status, output: Some(truncate_for_display(&output)) },
                ),
            },
            status,
        },
        command,
    )
}

fn map_message(message: &Json, out: &mut Vec<NormalizedEntry>, slots: &mut Vec<Slot>)
    requires
        slots_within(old(slots)@, old(out)@.len()),
    ensures
        state_view(final(out)@, final(slots)@) == message_step(
            state_view(old(out)@, old(slots)@),
            message@,
        ),
        slots_within(final(slots)@, final(out)@.len()),
{
    let role = message.str_field_or_empty("role");
    if same(&role, "user") {
        push_entry_nonempty(out, NormalizedEntryType::UserMessage, message_content_text(message));
    } else if same(&role, "assistant") {
        if let Some(content) = message.get("content") {
            if let Some(blocks) = content.as_array() {
                let ghost before = state_view(out@, slots@);
                let mut i: usize = 0;
                while i < blocks.len()
                    invariant
                        i <= blocks@.len(),
                        state_view(out@, slots@) == blocks_step(
                            before,
                            json_views(blocks@).take(i as int),
                        ),
                        slots_within(slots@, out@.len()),
                    decreases blocks@.len() - i,
                {
                    proof {
                        let seen = json_views(blocks@).take(i + 1);
                        assert(seen.drop_last() =~= json_views(blocks@).take(i as int));
                        assert(seen.last() == blocks@[i as int]@);
                    }
                    map_block(&blocks[i], out, slots);
                    i = i + 1;
                }
                assert(json_views(blocks@).take(blocks@.len() as int) =~= json_views(blocks@));
            }
        }
    } else if same(&role, "toolResult") {
        map_result(message, out, slots);
    } else if same(&role, "bashExecution") {
        push_entry(out, bash_execution(message));
    }
}

fn map_record(record: &Json, out: &mut Vec<NormalizedEntry>, slots: &mut Vec<Slot>)
    requires
        slots_within(old(slots)@, old(out)@.len()),
    ensures
        state_view(final(out)@, final(slots)@) == record_step(
            state_view(old(out)@, old(slots)@),
            record@,
        ),
        slots_within(final(slots)@, final(out)@.len()),
{
    let kind = record.str_field_or_empty("type");
    if same(&kind, "compaction") || same(&kind, "branch_summary") {
        push_entry_nonempty(
            out,
            NormalizedEntryType::SystemMessage,
            record.str_field_or_empty("summary"),
        );
    } else if same(&kind, "custom_message") {
        match record.flag_field("display") {
            Some(true) => {
                push_entry_nonempty(
                    out,
                    NormalizedEntryType::SystemMessage,
                    message_content_text(record),
                );
            },
            _ => {},
        }
    } else if same(&kind, "message") {
        if let Some(message) = record.get("message") {
            map_message(message, out, slots);
        }
    }
}

/// The conversation that a sequence of records is.
pub fn map_messages(records: &Vec<Json>) -> (entries: Vec<NormalizedEntry>)
    ensures
        entry_views(entries@) == session_entries(json_views(records@)),
{
    let mut out: Vec<NormalizedEntry> = Vec::new();
    let mut slots: Vec<Slot> = Vec::new();
    let mut i: usize = 0;
    assert(entry_views(out@) =~= Seq::empty());
    assert(slot_views(slots@) =~= Seq::empty());
    while i < records.len()
        invariant
            i <= records@.len(),
            state_view(out@, slots@) == transcript(json_views(records@).take(i as int)),
            slots_within(slots@, out@.len()),
        decreases records@.len() - i,
    {
        proof {
            let seen = json_views(records@).take(i + 1);
            assert(seen.drop_last() =~= json_views(records@).take(i as int));
            assert(seen.last() == records@[i as int]@);
        }
        map_record(&records[i], &mut out, &mut slots);
        i = i + 1;
    }
    assert(json_views(records@).take(records@.len() as int) =~= json_views(records@));
    settle(&mut out);
    out
}

// ---------------------------------------------------------------------------
// Laws of the mapping
// ---------------------------------------------------------------------------

proof fn lemma_hidden_record(first: Seq<JsonView>, hidden: JsonView, rest: Seq<JsonView>)
    requires
        !is_shown_record(hidden),
    ensures
        transcript(first.push(hidden) + rest) == transcript(first + rest),
    decreases rest.len(),
{
    let with_hidden = first.push(hidden) + rest;
    if rest.len() == 0 {
        assert(with_hidden =~= first.push(hidden));
        assert(first.push(hidden).drop_last() =~= first);
        assert(first + rest =~= first);
    } else {
        lemma_hidden_record(first, hidden, rest.drop_last());
        assert(with_hidden.drop_last() =~= first.push(hidden) + rest.drop_last());
        assert((first + rest).drop_last() =~= first + rest.drop_last());
    }
}

/// Records that are no message, custom message or summary (settings, model
/// changes, labels, state) leave no trace in a conversation.
pub proof fn law_hidden_records_leave_no_trace(
    first: Seq<JsonView>,
    hidden: JsonView,
    rest: Seq<JsonView>,
)
    requires
        !is_shown_record(hidden),
    ensures
        session_entries(first.push(hidden) + rest) == session_entries(first + rest),
{
    lemma_hidden_record(first, hidden, rest);
}

/// Blocks of other kinds, such as images, leave no trace: an assistant's block
/// that is no text, thinking or tool call adds nothing, and of a message only
/// the text blocks are shown.
pub proof fn law_other_blocks_are_not_shown(
    before: Transcript,
    blocks: Seq<JsonView>,
    block: JsonView,
)
    requires
        string_field(block, "type"@) != Some("text"@),
    ensures
        block_texts(blocks.push(block)) == block_texts(blocks),
        string_field(block, "type"@) != Some("thinking"@) && string_field(block, "type"@) != Some(
            "toolCall"@,
        ) ==> block_step(before, block) == before,
{
    assert(blocks.push(block).drop_last() =~= blocks);
}

proof fn lemma_call_index_bounds(open: Seq<OpenCall>, id: Seq<char>)
    ensures
        call_index(open, id) matches Some(i) ==> 0 <= i < open.len() && open[i].id == id,
    decreases open.len(),
{
    if open.len() > 0 {
        lemma_call_index_bounds(open.drop_last(), id);
    }
}

/// No conversation shows a tool call as still running: each has succeeded or
/// failed, whatever its id, those without a result having failed.
pub proof fn law_every_call_has_an_outcome(records: Seq<JsonView>)
    ensures
        forall|k: int|
            0 <= k < session_entries(records).len() ==> !is_created(
                #[trigger] session_entries(records)[k],
            ),
{
    lemma_settled_entries(transcript(records).entries);
}

/// Whether a record is the result of a tool.
pub open spec fn is_result_record(record: JsonView) -> bool {
    string_field_or_empty(record, "type"@) == "message"@ && (field(
        record,
        "message"@,
    ) matches Some(message) && string_field_or_empty(message, "role"@) == "toolResult"@)
}

/// The records without the results of tools.
pub open spec fn without_results(records: Seq<JsonView>) -> Seq<JsonView>
    decreases records.len(),
{
    if records.len() == 0 {
        records
    } else if is_result_record(records.last()) {
        without_results(records.drop_last())
    } else {
        without_results(records.drop_last()).push(records.last())
    }
}

/// Whether two entries are of one kind, with the same content; tool uses are
/// those of one tool.
pub open spec fn is_same_kind(left: EntryView, right: EntryView) -> bool {
    &&& left.content == right.content
    &&& match (left.kind, right.kind) {
        (EntryKind::ToolUse { tool_name, .. }, EntryKind::ToolUse { tool_name: other, .. }) =>
            tool_name == other,
        (kind, other) => kind == other,
    }
}

/// Whether two conversations have entries of the same kinds, one by one.
pub open spec fn are_same_kinds(left: Seq<EntryView>, right: Seq<EntryView>) -> bool {
    left.len() == right.len() && forall|k: int|
        0 <= k < left.len() ==> is_same_kind(#[trigger] left[k], right[k])
}

/// Every open call has an entry, which shows the call.
spec fn calls_are_shown(state: Transcript) -> bool {
    forall|k: int|
        0 <= k < state.open.len() ==> {
            let call = #[trigger] state.open[k];
            &&& 0 <= call.position < state.entries.len()
            &&& is_same_kind(
                state.entries[call.position],
                tool_entry(call.name, call.args, None, ToolStatus::Created),
            )
        }
}

proof fn lemma_push_same(with: Transcript, without: Transcript, entry: EntryView)
    requires
        are_same_kinds(with.entries, without.entries),
        calls_are_shown(with),
    ensures
        are_same_kinds(with.entries.push(entry), without.entries.push(entry)),
        calls_are_shown(Transcript { entries: with.entries.push(entry), ..with }),
{
    let after = Transcript { entries: with.entries.push(entry), ..with };
    assert forall|k: int| 0 <= k < after.open.len() implies {
        let call = #[trigger] after.open[k];
        &&& 0 <= call.position < after.entries.len()
        &&& is_same_kind(
            after.entries[call.position],
            tool_entry(call.name, call.args, None, ToolStatus::Created),
        )
    } by {
        assert(after.open[k] == with.open[k]);
    }
}

proof fn lemma_block_same(with: Transcript, without: Transcript, block: JsonView)
    requires
        are_same_kinds(with.entries, without.entries),
        calls_are_shown(with),
    ensures
        are_same_kinds(block_step(with, block).entries, block_step(without, block).entries),
        calls_are_shown(block_step(with, block)),
{
    let after = block_step(with, block);
    let other = block_step(without, block);
    if after.entries.len() > with.entries.len() {
        let entry = after.entries.last();
        assert(after.entries =~= with.entries.push(entry));
        assert(other.entries =~= without.entries.push(entry));
        lemma_push_same(with, without, entry);
        if after.open != with.open {
            let id = string_field(block, "id"@)->0;
            lemma_call_index_bounds(with.open, id);
            assert forall|k: int| 0 <= k < after.open.len() implies {
                let call = #[trigger] after.open[k];
                &&& 0 <= call.position < after.entries.len()
                &&& is_same_kind(
                    after.entries[call.position],
                    tool_entry(call.name, call.args, None, ToolStatus::Created),
                )
            } by {
                if k < after.open.len() - 1 {
                    let from = match call_index(with.open, id) {
                        Some(i) => if k < i {
                            k
                        } else {
                            k + 1
                        },
                        None => k,
                    };
                    assert(after.open[k] == with.open[from]);
                }
            }
        }
    } else {
        assert(after == with);
        assert(other == without);
    }
}

proof fn lemma_blocks_same(with: Transcript, without: Transcript, blocks: Seq<JsonView>)
    requires
        are_same_kinds(with.entries, without.entries),
        calls_are_shown(with),
    ensures
        are_same_kinds(blocks_step(with, blocks).entries, blocks_step(without, blocks).entries),
        calls_are_shown(blocks_step(with, blocks)),
    decreases blocks.len(),
{
    if blocks.len() > 0 {
        lemma_blocks_same(with, without, blocks.drop_last());
        lemma_block_same(
            blocks_step(with, blocks.drop_last()),
            blocks_step(without, blocks.drop_last()),
            blocks.last(),
        );
    }
}

proof fn lemma_result_same(with: Transcript, without: Transcript, message: JsonView)
    requires
        are_same_kinds(with.entries, without.entries),
        calls_are_shown(with),
    ensures
        are_same_kinds(result_step(with, message).entries, without.entries),
        calls_are_shown(result_step(with, message)),
{
    let id = string_field_or_empty(message, "toolCallId"@);
    lemma_call_index_bounds(with.open, id);
    let after = result_step(with, message);
    if let Some(i) = call_index(with.open, id) {
        let call = with.open[i];
        assert forall|k: int| 0 <= k < after.open.len() implies {
            let open = #[trigger] after.open[k];
            &&& 0 <= open.position < after.entries.len()
            &&& is_same_kind(
                after.entries[open.position],
                tool_entry(open.name, open.args, None, ToolStatus::Created),
            )
        } by {
            let from = if k < i {
                k
            } else {
                k + 1
            };
            assert(after.open[k] == with.open[from]);
        }
        assert(is_same_kind(with.entries[call.position], without.entries[call.position]));
    }
}

proof fn lemma_record_same(with: Transcript, without: Transcript, record: JsonView)
    requires
        are_same_kinds(with.entries, without.entries),
        calls_are_shown(with),
    ensures
        calls_are_shown(record_step(with, record)),
        if is_result_record(record) {
            are_same_kinds(record_step(with, record).entries, without.entries)
        } else {
            are_same_kinds(record_step(with, record).entries, record_step(without, record).entries)
        },
{
    reveal_strlit("compaction");
    reveal_strlit("branch_summary");
    reveal_strlit("custom_message");
    reveal_strlit("message");
    reveal_strlit("user");
    reveal_strlit("assistant");
    reveal_strlit("toolResult");
    assert("message"@.len() == 7 && "compaction"@.len() == 10 && "branch_summary"@.len() == 14
        && "custom_message"@.len() == 14);
    assert("toolResult"@.len() == 10 && "user"@.len() == 4 && "assistant"@.len() == 9);
    let kind = string_field_or_empty(record, "type"@);
    let after = record_step(with, record);
    let other = record_step(without, record);
    let message = field(record, "message"@);
    let role = match message {
        Some(message) => string_field_or_empty(message, "role"@),
        None => Seq::empty(),
    };
    if kind == "message"@ && message is Some && role == "assistant"@ {
        if let Some(JsonView::Array(blocks)) = field(message->0, "content"@) {
            lemma_blocks_same(with, without, blocks);
        }
    } else if is_result_record(record) {
        lemma_result_same(with, without, message->0);
    } else if after.entries != with.entries {
        let entry = after.entries.last();
        assert(after.entries =~= with.entries.push(entry));
        assert(other.entries =~= without.entries.push(entry));
        lemma_push_same(with, without, entry);
    } else {
        assert(other.entries == without.entries);
    }
}

proof fn lemma_session_same(records: Seq<JsonView>)
    ensures
        are_same_kinds(
            transcript(records).entries,
            transcript(without_results(records)).entries,
        ),
        calls_are_shown(transcript(records)),
    decreases records.len(),
{
    if records.len() > 0 {
        let rest = records.drop_last();
        lemma_session_same(rest);
        lemma_record_same(
            transcript(rest),
            transcript(without_results(rest)),
            records.last(),
        );
        if !is_result_record(records.last()) {
            assert(without_results(records).drop_last() =~= without_results(rest));
        }
    }
}

/// The result of a tool is shown in the entry of its call, and adds, moves or
/// removes none: with and without the results, a conversation has as many
/// entries, each of the same kind and with the same content.
pub proof fn law_results_change_no_place(records: Seq<JsonView>)
    ensures
        are_same_kinds(session_entries(records), session_entries(without_results(records))),
{
    lemma_session_same(records);
    let with = transcript(records).entries;
    let without = transcript(without_results(records)).entries;
    assert forall|k: int| 0 <= k < session_entries(records).len() implies is_same_kind(
        #[trigger] session_entries(records)[k],
        session_entries(without_results(records))[k],
    ) by {
        assert(is_same_kind(with[k], without[k]));
    }
}

/// Whether no two open calls have the same id.
pub open spec fn ids_differ(open: Seq<OpenCall>) -> bool {
    forall|i: int, j: int|
        0 <= i < j < open.len() ==> (#[trigger] open[i]).id != (#[trigger] open[j]).id
}

/// The open calls without the one that has an id.
pub open spec fn without_call(open: Seq<OpenCall>, id: Seq<char>) -> Seq<OpenCall> {
    match call_index(open, id) {
        Some(i) => open.remove(i),
        None => open,
    }
}

proof fn lemma_no_call(open: Seq<OpenCall>, id: Seq<char>)
    ensures
        call_index(open, id) is None <==> forall|k: int|
            0 <= k < open.len() ==> (#[trigger] open[k]).id != id,
    decreases open.len(),
{
    if open.len() > 0 {
        let rest = open.drop_last();
        lemma_no_call(rest, id);
        lemma_call_index_bounds(rest, id);
        if call_index(open, id) is None {
            assert forall|k: int| 0 <= k < open.len() implies (#[trigger] open[k]).id != id by {
                if k < rest.len() {
                    assert(rest[k] == open[k]);
                }
            }
        } else if call_index(rest, id) is Some {
            assert(open[call_index(rest, id)->0].id == id);
        } else {
            assert(open[open.len() - 1].id == id);
        }
    }
}

proof fn lemma_without_call(open: Seq<OpenCall>, id: Seq<char>)
    requires
        ids_differ(open),
    ensures
        ids_differ(without_call(open, id)),
        call_index(without_call(open, id), id) is None,
{
    let rest = without_call(open, id);
    lemma_call_index_bounds(open, id);
    lemma_no_call(open, id);
    if let Some(at) = call_index(open, id) {
        assert forall|k: int| 0 <= k < rest.len() implies (#[trigger] rest[k]).id != id by {
            if k < at {
                assert(rest[k] == open[k] && open[at].id == id);
            } else {
                assert(rest[k] == open[k + 1] && open[at].id == id);
            }
        }
        assert forall|i: int, j: int| 0 <= i < j < rest.len() implies (#[trigger] rest[i]).id != (
        #[trigger] rest[j]).id by {
            let from = if i < at {
                i
            } else {
                i + 1
            };
            let to = if j < at {
                j
            } else {
                j + 1
            };
            assert(rest[i] == open[from] && rest[j] == open[to]);
        }
        lemma_no_call(rest, id);
    }
}

proof fn lemma_blocks_keep_ids(before: Transcript, blocks: Seq<JsonView>)
    requires
        ids_differ(before.open),
    ensures
        ids_differ(blocks_step(before, blocks).open),
    decreases blocks.len(),
{
    if blocks.len() > 0 {
        lemma_blocks_keep_ids(before, blocks.drop_last());
        let middle = blocks_step(before, blocks.drop_last());
        let after = block_step(middle, blocks.last());
        if after.open != middle.open {
            let id = string_field(blocks.last(), "id"@)->0;
            lemma_without_call(middle.open, id);
            lemma_no_call(without_call(middle.open, id), id);
            assert(after.open =~= without_call(middle.open, id).push(after.open.last()));
        }
    }
}

/// At most one open call has any given id, whatever the records say.
pub proof fn law_open_calls_have_different_ids(records: Seq<JsonView>)
    ensures
        ids_differ(transcript(records).open),
    decreases records.len(),
{
    if records.len() > 0 {
        let before = transcript(records.drop_last());
        let record = records.last();
        law_open_calls_have_different_ids(records.drop_last());
        if let Some(message) = field(record, "message"@) {
            if let Some(JsonView::Array(blocks)) = field(message, "content"@) {
                lemma_blocks_keep_ids(before, blocks);
            }
            lemma_without_call(before.open, string_field_or_empty(message, "toolCallId"@));
        }
    }
}

/// The result of a call lands in the call's own entry: after a tool call and
/// the result that names it, that entry shows the call with its result, and
/// no call with that id is open.
pub proof fn law_result_completes_its_call(before: Transcript, block: JsonView, message: JsonView)
    requires
        ids_differ(before.open),
        string_field(block, "type"@) == Some("toolCall"@),
        string_field(block, "id"@) is Some,
        string_field(message, "toolCallId"@) == string_field(block, "id"@),
    ensures
        ({
            let after = result_step(block_step(before, block), message);
            &&& after.open == without_call(before.open, string_field(block, "id"@)->0)
            &&& after.entries == before.entries.push(
                tool_entry(
                    string_field_or_empty(block, "name"@),
                    field(block, "arguments"@),
                    Some(JsonView::Text(content_text(message))),
                    if bool_field(message, "isError"@) == Some(true) {
                        ToolStatus::Failed
                    } else {
                        ToolStatus::Success
                    },
                ),
            )
        }),
{
    reveal_strlit("toolCall");
    reveal_strlit("thinking");
    reveal_strlit("text");
    assert("toolCall"@[0] == 't' && "toolCall"@[1] == 'o');
    assert("thinking"@[1] == 'h');
    assert("text"@[1] == 'e');
    let called = block_step(before, block);
    let call = called.open.last();
    let others = without_call(before.open, call.id);
    lemma_without_call(before.open, call.id);
    assert(called.open =~= others.push(call));
    assert(called.open.drop_last() =~= others);
    assert(call_index(called.open, call.id) == Some(others.len() as int));
    let after = result_step(called, message);
    assert(after.open =~= others);
    assert(after.entries =~= before.entries.push(after.entries.last()));
}

/// A tool call and its result look the same live and afterwards: the entry
/// that the session file gives for them is the one that the live frames of the
/// same call left.
pub proof fn law_live_and_native_calls_agree(
    before: Transcript,
    block: JsonView,
    message: JsonView,
    state: LogModel,
    id: String,
    name: String,
    args: Option<Json>,
    result: Json,
    is_error: bool,
    index: usize,
)
    requires
        ids_differ(before.open),
        string_field(block, "type"@) == Some("toolCall"@),
        string_field(block, "id"@) is Some,
        string_field(message, "toolCallId"@) == string_field(block, "id"@),
        name@ == string_field_or_empty(block, "name"@),
        opt_json(args) == field(block, "arguments"@),
        result@ == JsonView::Text(content_text(message)),
        is_error == (bool_field(message, "isError"@) == Some(true)),
    ensures
        ({
            let native = result_step(block_step(before, block), message).entries.last();
            let started = frame_step(
                state,
                (PiFrame::ToolStart { tool_call_id: id, tool_name: name, args }),
                index as int,
            ).0;
            let live = frame_step(
                started,
                (PiFrame::ToolEnd {
                    tool_call_id: id,
                    tool_name: name,
                    result: Some(result),
                    is_error,
                }),
                index as int,
            ).1;
            live == Some(LogActionView::Replace { index: index as int, entry: native })
        }),
{
    law_result_completes_its_call(before, block, message);
}

/// What a conversation shows of assistants, one text after the other.
pub open spec fn assistant_text(entries: Seq<EntryView>) -> Seq<char>
    decreases entries.len(),
{
    if entries.len() == 0 {
        Seq::empty()
    } else {
        let before = assistant_text(entries.drop_last());
        if entries.last().kind is AssistantMessage {
            before + entries.last().content
        } else {
            before
        }
    }
}

proof fn lemma_block_text(before: Transcript, block: JsonView)
    ensures
        assistant_text(block_step(before, block).entries) == assistant_text(before.entries)
            + block_texts(seq![block]),
{
    reveal_strlit("toolCall");
    reveal_strlit("thinking");
    reveal_strlit("text");
    assert("toolCall"@[1] == 'o' && "thinking"@[1] == 'h' && "text"@[1] == 'e');
    let after = block_step(before, block);
    reveal_with_fuel(block_texts, 2);
    assert(seq![block].drop_last() =~= Seq::empty());
    let added = block_texts(seq![block]);
    if after.entries != before.entries {
        let entry = after.entries.last();
        assert(after.entries =~= before.entries.push(entry));
        assert(after.entries.drop_last() =~= before.entries);
        assert(Seq::<char>::empty() + string_field_or_empty(block, "text"@)
            =~= string_field_or_empty(block, "text"@));
    }
    if added.len() == 0 {
        assert(assistant_text(before.entries) + added =~= assistant_text(before.entries));
    }
}

/// What a session file shows of an assistant message is the text that the end
/// of the message shows live.
pub proof fn law_live_and_native_texts_agree(before: Transcript, blocks: Seq<JsonView>)
    ensures
        assistant_text(blocks_step(before, blocks).entries) == assistant_text(before.entries)
            + block_texts(blocks),
    decreases blocks.len(),
{
    if blocks.len() == 0 {
        assert(assistant_text(before.entries) + Seq::<char>::empty() =~= assistant_text(
            before.entries,
        ));
    } else {
        let rest = blocks.drop_last();
        law_live_and_native_texts_agree(before, rest);
        lemma_block_text(blocks_step(before, rest), blocks.last());
        reveal_with_fuel(block_texts, 2);
        assert(seq![blocks.last()].drop_last() =~= Seq::empty());
        let last = block_texts(seq![blocks.last()]);
        assert(block_texts(blocks) =~= block_texts(rest) + last);
        assert(assistant_text(before.entries) + block_texts(rest) + last =~= assistant_text(
            before.entries,
        ) + (block_texts(rest) + last));
    }
}

/// A part of a session: a block of an assistant message, or any other record.
pub enum SessionPart {
    Block(JsonView),
    Record(JsonView),
}

/// The parts that a record is: the blocks of an assistant message, else the
/// record itself.
pub open spec fn record_parts(record: JsonView) -> Seq<SessionPart> {
    if string_field(record, "type"@) == Some("message"@) {
        match field(record, "message"@) {
            Some(message) => if string_field(message, "role"@) == Some("assistant"@) {
                match field(message, "content"@) {
                    Some(JsonView::Array(blocks)) => blocks.map_values(
                        |block: JsonView| SessionPart::Block(block),
                    ),
                    _ => seq![SessionPart::Record(record)],
                }
            } else {
                seq![SessionPart::Record(record)]
            },
            None => seq![SessionPart::Record(record)],
        }
    } else {
        seq![SessionPart::Record(record)]
    }
}

/// The parts of a session, one after the other.
pub open spec fn session_parts(records: Seq<JsonView>) -> Seq<SessionPart>
    decreases records.len(),
{
    if records.len() == 0 {
        Seq::empty()
    } else {
        session_parts(records.drop_last()) + record_parts(records.last())
    }
}

/// Whether a part is the message of a role.
pub open spec fn is_message(part: SessionPart, role: Seq<char>, message: JsonView) -> bool {
    part matches SessionPart::Record(record) && string_field(record, "type"@) == Some("message"@)
        && field(record, "message"@) == Some(message) && string_field(message, "role"@) == Some(
        role,
    )
}

/// Whether a part is a block of a kind in an assistant message.
pub open spec fn is_block(part: SessionPart, kind: Seq<char>) -> bool {
    part matches SessionPart::Block(block) && string_field(block, "type"@) == Some(kind)
}

/// Whether a part has an entry of its own: texts and thoughts that are not
/// empty, tool calls, shell executions, summaries and custom messages for
/// display.
pub open spec fn stands_alone(part: SessionPart) -> bool {
    match part {
        SessionPart::Block(block) => {
            ||| string_field(block, "type"@) == Some("toolCall"@)
            ||| string_field(block, "type"@) == Some("text"@) && string_field_or_empty(
                block,
                "text"@,
            ).len() > 0
            ||| string_field(block, "type"@) == Some("thinking"@) && string_field_or_empty(
                block,
                "thinking"@,
            ).len() > 0
        },
        SessionPart::Record(record) => {
            let kind = string_field(record, "type"@);
            ||| (kind == Some("compaction"@) || kind == Some("branch_summary"@))
                && string_field_or_empty(record, "summary"@).len() > 0
            ||| kind == Some("custom_message"@) && field(record, "display"@) == Some(
                JsonView::Bool(true),
            ) && content_text(record).len() > 0
            ||| kind == Some("message"@) && (field(record, "message"@) matches Some(message) && (
            string_field(message, "role"@) == Some("bashExecution"@) || (string_field(
                message,
                "role"@,
            ) == Some("user"@) && content_text(message).len() > 0)))
        },
    }
}

/// How many of the first `to` parts have an entry of their own.
pub open spec fn shown_before(parts: Seq<SessionPart>, to: int) -> int
    decreases to,
{
    if to <= 0 {
        0
    } else if stands_alone(parts[to - 1]) {
        shown_before(parts, to - 1) + 1
    } else {
        shown_before(parts, to - 1)
    }
}

/// Whether a part is a tool call with an id.
pub open spec fn calls(part: SessionPart, id: Seq<char>) -> bool {
    is_block(part, "toolCall"@) && string_field(part->Block_0, "id"@) == Some(id)
}

/// Whether a part is a tool result for an id. One that names no call is for the
/// empty id.
pub open spec fn answers(part: SessionPart, id: Seq<char>) -> bool {
    part matches SessionPart::Record(record) && string_field(record, "type"@) == Some("message"@)
        && (field(record, "message"@) matches Some(message) && string_field(message, "role"@)
        == Some("toolResult"@) && string_field_or_empty(message, "toolCallId"@) == id)
}

/// Whether no part from `from` up to but not including `to` calls a tool under
/// an id, or is its result.
pub open spec fn nothing_said(parts: Seq<SessionPart>, id: Seq<char>, from: int, to: int) -> bool {
    forall|k: int| from <= k < to ==> !calls(#[trigger] parts[k], id) && !answers(parts[k], id)
}

spec fn plain_part(kind: EntryKind, content: Seq<char>) -> Part<
    (Seq<char>, Option<JsonView>),
    JsonView,
> {
    if content.len() == 0 {
        Part::Hidden
    } else {
        Part::Shown { entry: plain_entry(kind, content) }
    }
}

spec fn block_part(block: JsonView) -> Part<(Seq<char>, Option<JsonView>), JsonView> {
    let kind = string_field(block, "type"@);
    let name = string_field_or_empty(block, "name"@);
    let args = field(block, "arguments"@);
    if kind == Some("thinking"@) {
        plain_part(EntryKind::Thinking, string_field_or_empty(block, "thinking"@))
    } else if kind == Some("text"@) {
        plain_part(EntryKind::AssistantMessage, string_field_or_empty(block, "text"@))
    } else if kind == Some("toolCall"@) {
        let entry = tool_entry(name, args, None, ToolStatus::Created);
        match string_field(block, "id"@) {
            Some(id) => Part::Call { id, entry, call: (name, args) },
            None => Part::Shown { entry },
        }
    } else {
        Part::Hidden
    }
}

spec fn record_part(record: JsonView) -> Part<(Seq<char>, Option<JsonView>), JsonView> {
    let kind = string_field_or_empty(record, "type"@);
    if kind == "compaction"@ || kind == "branch_summary"@ {
        plain_part(EntryKind::SystemMessage, string_field_or_empty(record, "summary"@))
    } else if kind == "custom_message"@ {
        if bool_field(record, "display"@) == Some(true) {
            plain_part(EntryKind::SystemMessage, content_text(record))
        } else {
            Part::Hidden
        }
    } else if kind == "message"@ && field(record, "message"@) is Some {
        let message = field(record, "message"@)->0;
        let role = string_field_or_empty(message, "role"@);
        if role == "user"@ {
            plain_part(EntryKind::UserMessage, content_text(message))
        } else if role == "toolResult"@ {
            Part::Answer { id: string_field_or_empty(message, "toolCallId"@), answer: message }
        } else if role == "bashExecution"@ {
            Part::Shown { entry: bash_entry(message) }
        } else {
            Part::Hidden
        }
    } else {
        Part::Hidden
    }
}

spec fn part_of(part: SessionPart) -> Part<(Seq<char>, Option<JsonView>), JsonView> {
    match part {
        SessionPart::Block(block) => block_part(block),
        SessionPart::Record(record) => record_part(record),
    }
}

spec fn parts_of(parts: Seq<SessionPart>) -> Seq<Part<(Seq<char>, Option<JsonView>), JsonView>> {
    parts.map_values(|part: SessionPart| part_of(part))
}

spec fn completion() -> spec_fn(
    EntryView,
    (Seq<char>, Option<JsonView>),
    JsonView,
) -> EntryView {
    |entry: EntryView, call: (Seq<char>, Option<JsonView>), message: JsonView|
        tool_entry(
            call.0,
            call.1,
            Some(JsonView::Text(content_text(message))),
            if bool_field(message, "isError"@) == Some(true) {
                ToolStatus::Failed
            } else {
                ToolStatus::Success
            },
        )
}

spec fn slots_of(open: Seq<OpenCall>) -> Seq<SlotView> {
    open.map_values(|call: OpenCall| SlotView { id: call.id, position: call.position })
}

/// Whether a state of the mapping is what the replay of parts gives.
spec fn is_replay_of(state: Transcript, parts: Seq<SessionPart>) -> bool {
    let replayed = replay(parts_of(parts), completion());
    &&& state.entries == replayed.entries
    &&& tracks(slots_of(state.open), replayed.open)
    &&& forall|i: int|
        0 <= i < state.open.len() ==> replayed.open[(#[trigger] state.open[i]).id].1 == (
            state.open[i].name,
            state.open[i].args,
        )
}

proof fn lemma_same_index(open: Seq<OpenCall>, id: Seq<char>)
    ensures
        slot_index(slots_of(open), id) == call_index(open, id),
    decreases open.len(),
{
    if open.len() > 0 {
        assert(slots_of(open).drop_last() =~= slots_of(open.drop_last()));
        lemma_same_index(open.drop_last(), id);
    }
}

proof fn lemma_part_replayed(before: Transcript, parts: Seq<SessionPart>, part: SessionPart, after: Transcript)
    requires
        is_replay_of(before, parts),
        match part {
            SessionPart::Block(block) => after == block_step(before, block),
            SessionPart::Record(record) => record_parts(record) == seq![part] && after
                == record_step(before, record),
        },
    ensures
        is_replay_of(after, parts.push(part)),
{
    let all = parts_of(parts.push(part));
    let state = replay(parts_of(parts), completion());
    let next = replay(all, completion());
    assert(all.drop_last() =~= parts_of(parts));
    reveal_strlit("compaction");
    reveal_strlit("branch_summary");
    reveal_strlit("custom_message");
    reveal_strlit("message");
    reveal_strlit("user");
    reveal_strlit("assistant");
    reveal_strlit("toolResult");
    reveal_strlit("bashExecution");
    reveal_strlit("toolCall");
    reveal_strlit("thinking");
    reveal_strlit("text");
    assert("toolCall"@[1] == 'o' && "thinking"@[1] == 'h' && "text"@[1] == 'e');
    assert("message"@.len() == 7 && "compaction"@.len() == 10 && "branch_summary"@.len() == 14
        && "custom_message"@.len() == 14);
    assert("branch_summary"@[0] == 'b' && "custom_message"@[0] == 'c');
    assert("toolResult"@.len() == 10 && "user"@.len() == 4 && "assistant"@.len() == 9
        && "bashExecution"@.len() == 13);
    if let SessionPart::Record(record) = part {
        assert(record_parts(record)[0] == part);
        assert(record_parts(record).len() == 1);
        if string_field_or_empty(record, "type"@) == "message"@ && field(
            record,
            "message"@,
        ) is Some {
            let message = field(record, "message"@)->0;
            if string_field_or_empty(message, "role"@) == "assistant"@ {
                assert(!(field(message, "content"@) matches Some(JsonView::Array(_))));
            }
        }
    }
    match all.last() {
        Part::Call { id, call, .. } => {
            let slots = slots_of(before.open);
            let position = before.entries.len() as int;
            lemma_same_index(before.open, id);
            lemma_tracks_insert(slots, state.open, id, position, call);
            lemma_call_index_bounds(before.open, id);
            assert(slots_of(after.open) =~= insert_slot(slots, id, position));
            assert forall|i: int| 0 <= i < after.open.len() implies next.open[(
            #[trigger] after.open[i]).id].1 == (after.open[i].name, after.open[i].args) by {
                if i < after.open.len() - 1 {
                    let from = match call_index(before.open, id) {
                        Some(at) => if i < at {
                            i
                        } else {
                            i + 1
                        },
                        None => i,
                    };
                    assert(after.open[i] == before.open[from]);
                    let last = after.open.len() - 1;
                    assert(slots_of(after.open)[i].id != slots_of(after.open)[last].id);
                }
            }
        },
        Part::Answer { id, .. } => {
            let slots = slots_of(before.open);
            lemma_same_index(before.open, id);
            lemma_call_index_bounds(before.open, id);
            lemma_tracks_find(slots, state.open, id);
            lemma_tracks_remove(slots, state.open, id);
            if let Some(at) = call_index(before.open, id) {
                assert(slots_of(after.open) =~= remove_slot(slots, id));
                assert(before.open[at].id == id);
                assert(after.entries == next.entries);
                assert forall|i: int| 0 <= i < after.open.len() implies next.open[(
                #[trigger] after.open[i]).id].1 == (after.open[i].name, after.open[i].args) by {
                    let from = if i < at {
                        i
                    } else {
                        i + 1
                    };
                    assert(after.open[i] == before.open[from]);
                    assert(slots_of(after.open)[i].id == after.open[i].id);
                    assert(slots[from].id != id) by {
                        assert(slots[at].id == id);
                    }
                }
            }
        },
        _ => {},
    }
}

proof fn lemma_blocks_replayed(before: Transcript, parts: Seq<SessionPart>, blocks: Seq<JsonView>)
    requires
        is_replay_of(before, parts),
    ensures
        is_replay_of(
            blocks_step(before, blocks),
            parts + blocks.map_values(|block: JsonView| SessionPart::Block(block)),
        ),
    decreases blocks.len(),
{
    let own = blocks.map_values(|block: JsonView| SessionPart::Block(block));
    if blocks.len() == 0 {
        assert(parts + own =~= parts);
    } else {
        let rest = blocks.drop_last();
        let shorter = rest.map_values(|block: JsonView| SessionPart::Block(block));
        let part = SessionPart::Block(blocks.last());
        lemma_blocks_replayed(before, parts, rest);
        lemma_part_replayed(
            blocks_step(before, rest),
            parts + shorter,
            part,
            blocks_step(before, blocks),
        );
        assert((parts + shorter).push(part) =~= parts + own);
    }
}

proof fn lemma_replayed(records: Seq<JsonView>)
    ensures
        is_replay_of(transcript(records), session_parts(records)),
    decreases records.len(),
{
    if records.len() == 0 {
        assert(parts_of(session_parts(records)) =~= Seq::empty());
        assert(slots_of(transcript(records).open) =~= Seq::empty());
    } else {
        let before = transcript(records.drop_last());
        let parts = session_parts(records.drop_last());
        let record = records.last();
        lemma_replayed(records.drop_last());
        if record_parts(record) == seq![SessionPart::Record(record)] {
            lemma_part_replayed(
                before,
                parts,
                SessionPart::Record(record),
                record_step(before, record),
            );
            assert(parts.push(SessionPart::Record(record)) =~= parts + record_parts(record));
        } else {
            reveal_strlit("compaction");
            reveal_strlit("branch_summary");
            reveal_strlit("custom_message");
            reveal_strlit("message");
            reveal_strlit("user");
            reveal_strlit("assistant");
            assert("message"@.len() == 7 && "compaction"@.len() == 10 && "branch_summary"@.len()
                == 14 && "custom_message"@.len() == 14);
            assert("user"@.len() == 4 && "assistant"@.len() == 9);
            let message = field(record, "message"@)->0;
            let blocks = field(message, "content"@)->0->Array_0;
            lemma_blocks_replayed(before, parts, blocks);
        }
    }
}

proof fn lemma_places(parts: Seq<SessionPart>, to: int)
    requires
        0 <= to <= parts.len(),
    ensures
        shown_before(parts, to) == entries_before(parts_of(parts), to),
    decreases to,
{
    if to > 0 {
        lemma_places(parts, to - 1);
        lemma_stands_alone(parts[to - 1]);
    }
}

proof fn lemma_stands_alone(part: SessionPart)
    ensures
        stands_alone(part) == has_entry(part_of(part)),
{
    reveal_strlit("compaction");
    reveal_strlit("branch_summary");
    reveal_strlit("custom_message");
    reveal_strlit("message");
    reveal_strlit("user");
    reveal_strlit("toolResult");
    reveal_strlit("bashExecution");
    reveal_strlit("toolCall");
    reveal_strlit("thinking");
    reveal_strlit("text");
    assert("toolCall"@[1] == 'o' && "thinking"@[1] == 'h' && "text"@[1] == 'e');
    assert("message"@.len() == 7 && "compaction"@.len() == 10 && "branch_summary"@.len() == 14
        && "custom_message"@.len() == 14);
    assert("branch_summary"@[0] == 'b' && "custom_message"@[0] == 'c');
    assert("toolResult"@.len() == 10 && "user"@.len() == 4 && "bashExecution"@.len() == 13);
}

proof fn lemma_part_is_shown(records: Seq<JsonView>, at: int)
    requires
        0 <= at < session_parts(records).len(),
        part_of(session_parts(records)[at]) is Shown,
    ensures
        0 <= shown_before(session_parts(records), at) < session_entries(records).len(),
        session_entries(records)[shown_before(session_parts(records), at)] == settled(
            part_of(session_parts(records)[at])->Shown_entry,
        ),
{
    let parts = session_parts(records);
    lemma_replayed(records);
    lemma_places(parts, at);
    lemma_shown(parts_of(parts), at, completion());
}

/// A conversation has one entry for each part that is shown, in their order,
/// and no other.
pub proof fn law_each_shown_part_has_one_entry(records: Seq<JsonView>)
    ensures
        session_entries(records).len() == shown_before(
            session_parts(records),
            session_parts(records).len() as int,
        ),
{
    let parts = session_parts(records);
    lemma_replayed(records);
    lemma_places(parts, parts.len() as int);
    lemma_entry_count(parts_of(parts), completion());
}

/// What the user said is shown at its place, as a message of the user.
pub proof fn law_messages_of_the_user_are_shown(records: Seq<JsonView>, at: int, message: JsonView)
    requires
        0 <= at < session_parts(records).len(),
        is_message(session_parts(records)[at], "user"@, message),
        content_text(message).len() > 0,
    ensures
        0 <= shown_before(session_parts(records), at) < session_entries(records).len(),
        session_entries(records)[shown_before(session_parts(records), at)] == (EntryView {
            timestamp: None,
            kind: EntryKind::UserMessage,
            content: content_text(message),
            metadata: None,
        }),
{
    reveal_strlit("compaction");
    reveal_strlit("branch_summary");
    reveal_strlit("custom_message");
    reveal_strlit("message");
    assert("message"@.len() == 7 && "compaction"@.len() == 10 && "branch_summary"@.len() == 14
        && "custom_message"@.len() == 14);
    lemma_part_is_shown(records, at);
}

/// What the assistant said and thought is shown at its place: texts as messages
/// of the assistant, thoughts as thinking.
pub proof fn law_texts_and_thoughts_are_shown(
    records: Seq<JsonView>,
    at: int,
    block: JsonView,
    text: Seq<char>,
)
    requires
        0 <= at < session_parts(records).len(),
        session_parts(records)[at] == SessionPart::Block(block),
        text.len() > 0,
    ensures
        string_field(block, "type"@) == Some("text"@) && string_field(block, "text"@) == Some(text)
            ==> 0 <= shown_before(session_parts(records), at) < session_entries(records).len()
            && session_entries(records)[shown_before(session_parts(records), at)] == (EntryView {
            timestamp: None,
            kind: EntryKind::AssistantMessage,
            content: text,
            metadata: None,
        }),
        string_field(block, "type"@) == Some("thinking"@) && string_field(block, "thinking"@)
            == Some(text) ==> 0 <= shown_before(session_parts(records), at) < session_entries(
            records,
        ).len() && session_entries(records)[shown_before(session_parts(records), at)] == (
        EntryView {
            timestamp: None,
            kind: EntryKind::Thinking,
            content: text,
            metadata: None,
        }),
{
    reveal_strlit("thinking");
    reveal_strlit("text");
    assert("thinking"@.len() == 8 && "text"@.len() == 4);
    if part_of(session_parts(records)[at]) is Shown {
        lemma_part_is_shown(records, at);
    }
}

/// Summaries, and custom messages for display, are shown at their place as
/// messages of the system.
pub proof fn law_summaries_are_shown(records: Seq<JsonView>, at: int, record: JsonView)
    requires
        0 <= at < session_parts(records).len(),
        session_parts(records)[at] == SessionPart::Record(record),
    ensures
        (string_field(record, "type"@) == Some("compaction"@) || string_field(record, "type"@)
            == Some("branch_summary"@)) && (string_field(record, "summary"@) matches Some(summary)
            && summary.len() > 0) ==> 0 <= shown_before(session_parts(records), at)
            < session_entries(records).len() && session_entries(records)[shown_before(
            session_parts(records),
            at,
        )] == (EntryView {
            timestamp: None,
            kind: EntryKind::SystemMessage,
            content: string_field(record, "summary"@)->0,
            metadata: None,
        }),
        string_field(record, "type"@) == Some("custom_message"@) && field(record, "display"@)
            == Some(JsonView::Bool(true)) && content_text(record).len() > 0 ==> 0 <= shown_before(
            session_parts(records),
            at,
        ) < session_entries(records).len() && session_entries(records)[shown_before(
            session_parts(records),
            at,
        )] == (EntryView {
            timestamp: None,
            kind: EntryKind::SystemMessage,
            content: content_text(record),
            metadata: None,
        }),
{
    reveal_strlit("compaction");
    reveal_strlit("branch_summary");
    reveal_strlit("custom_message");
    assert("compaction"@.len() == 10 && "branch_summary"@.len() == 14 && "custom_message"@.len()
        == 14);
    assert("branch_summary"@[0] == 'b' && "custom_message"@[0] == 'c');
    if part_of(session_parts(records)[at]) is Shown {
        lemma_part_is_shown(records, at);
    }
}

/// A shell execution is shown at its place as a command that was run, with its
/// output and its exit code. It succeeded exactly where that code is zero.
pub proof fn law_shell_executions_are_shown(
    records: Seq<JsonView>,
    at: int,
    message: JsonView,
    code: int,
)
    requires
        0 <= at < session_parts(records).len(),
        is_message(session_parts(records)[at], "bashExecution"@, message),
    ensures
        0 <= shown_before(session_parts(records), at) < session_entries(records).len(),
        ({
            let shown = session_entries(records)[shown_before(session_parts(records), at)];
            &&& shown.kind matches EntryKind::ToolUse { tool_name, action, status }
            &&& tool_name == "Bash"@
            &&& action matches ActionView::CommandRun { command, result: Some(result) }
            &&& shown.content == command
            &&& string_field(message, "command"@) matches Some(own) ==> command == own
            &&& string_field(message, "output"@) matches Some(output) ==> (output.len()
                <= MAX_DISPLAY_CHARS ==> result.output == Some(output))
            &&& i32::MIN <= code <= i32::MAX && int_of(field(message, "exitCode"@)) == Some(code)
                ==> (result.exit_status matches Some(CommandExitStatus::ExitCode { code: own })
                && own == code)
            &&& i32::MIN <= code <= i32::MAX && int_of(field(message, "exitCode"@)) == Some(code)
                ==> (status == ToolStatus::Success <==> code == 0)
            &&& int_of(field(message, "exitCode"@)) is None ==> result.exit_status is None && status
                == ToolStatus::Failed
            &&& status != ToolStatus::Success ==> status == ToolStatus::Failed
        }),
{
    reveal_strlit("compaction");
    reveal_strlit("branch_summary");
    reveal_strlit("custom_message");
    reveal_strlit("message");
    reveal_strlit("user");
    reveal_strlit("toolResult");
    reveal_strlit("bashExecution");
    reveal_strlit("bash");
    reveal_strlit("read");
    reveal_strlit("write");
    reveal_strlit("edit");
    assert("message"@.len() == 7 && "compaction"@.len() == 10 && "branch_summary"@.len() == 14
        && "custom_message"@.len() == 14);
    assert("toolResult"@.len() == 10 && "user"@.len() == 4 && "bashExecution"@.len() == 13);
    assert("bash"@[0] == 'b' && "read"@[0] == 'r' && "write"@[0] == 'w' && "edit"@[0] == 'e');
    lemma_part_is_shown(records, at);
}

proof fn lemma_silent(parts: Seq<SessionPart>, id: Seq<char>, from: int, to: int)
    requires
        0 <= from,
        to <= parts.len(),
        nothing_said(parts, id, from, to),
    ensures
        is_silent(parts_of(parts), id, from, to),
{
    reveal_strlit("thinking");
    reveal_strlit("text");
    reveal_strlit("toolCall");
    assert("toolCall"@[1] == 'o' && "thinking"@[1] == 'h' && "text"@[1] == 'e');
    reveal_strlit("message");
    reveal_strlit("toolResult");
    assert("message"@.len() == 7 && "toolResult"@.len() == 10);
    assert forall|k: int| from <= k < to implies !speaks_of(#[trigger] parts_of(parts)[k], id) by {
        assert(!calls(parts[k], id) && !answers(parts[k], id));
    }
}

/// A tool call whose result is on record, with nothing else under its id in
/// between, is shown with the text of that result. It has failed exactly where
/// the result is an error.
pub proof fn law_answered_call(
    records: Seq<JsonView>,
    at: int,
    answer: int,
    id: Seq<char>,
    block: JsonView,
    message: JsonView,
)
    requires
        0 <= at < answer < session_parts(records).len(),
        session_parts(records)[at] == SessionPart::Block(block),
        string_field(block, "type"@) == Some("toolCall"@),
        string_field(block, "id"@) == Some(id),
        is_message(session_parts(records)[answer], "toolResult"@, message),
        string_field_or_empty(message, "toolCallId"@) == id,
        nothing_said(session_parts(records), id, at + 1, answer),
    ensures
        0 <= shown_before(session_parts(records), at) < session_entries(records).len(),
        field(message, "isError"@) == Some(JsonView::Bool(true)) ==> session_entries(
            records,
        )[shown_before(session_parts(records), at)] == tool_entry(
            string_field_or_empty(block, "name"@),
            field(block, "arguments"@),
            Some(JsonView::Text(content_text(message))),
            ToolStatus::Failed,
        ),
        field(message, "isError"@) != Some(JsonView::Bool(true)) ==> session_entries(
            records,
        )[shown_before(session_parts(records), at)] == tool_entry(
            string_field_or_empty(block, "name"@),
            field(block, "arguments"@),
            Some(JsonView::Text(content_text(message))),
            ToolStatus::Success,
        ),
{
    reveal_strlit("compaction");
    reveal_strlit("branch_summary");
    reveal_strlit("custom_message");
    reveal_strlit("message");
    reveal_strlit("user");
    reveal_strlit("toolResult");
    reveal_strlit("thinking");
    reveal_strlit("text");
    reveal_strlit("toolCall");
    assert("toolCall"@[1] == 'o' && "thinking"@[1] == 'h' && "text"@[1] == 'e');
    assert("message"@.len() == 7 && "compaction"@.len() == 10 && "branch_summary"@.len() == 14
        && "custom_message"@.len() == 14);
    assert("toolResult"@.len() == 10 && "user"@.len() == 4);
    let parts = session_parts(records);
    lemma_replayed(records);
    lemma_places(parts, at);
    lemma_silent(parts, id, at + 1, answer);
    lemma_answered(parts_of(parts), at, answer, completion());
}

/// A tool call under whose id no result comes before the id is used again, or
/// at all, and one without an id, is shown as failed and without a result.
pub proof fn law_unanswered_call_has_failed(
    records: Seq<JsonView>,
    at: int,
    block: JsonView,
    until: int,
)
    requires
        0 <= at < until <= session_parts(records).len(),
        session_parts(records)[at] == SessionPart::Block(block),
        string_field(block, "type"@) == Some("toolCall"@),
        string_field(block, "id"@) matches Some(id) ==> nothing_said(
            session_parts(records),
            id,
            at + 1,
            until,
        ) && (until < session_parts(records).len() ==> calls(session_parts(records)[until], id)),
    ensures
        0 <= shown_before(session_parts(records), at) < session_entries(records).len(),
        session_entries(records)[shown_before(session_parts(records), at)] == tool_entry(
            string_field_or_empty(block, "name"@),
            field(block, "arguments"@),
            None,
            ToolStatus::Failed,
        ),
{
    reveal_strlit("thinking");
    reveal_strlit("text");
    reveal_strlit("toolCall");
    assert("toolCall"@[1] == 'o' && "thinking"@[1] == 'h' && "text"@[1] == 'e');
    let parts = session_parts(records);
    lemma_replayed(records);
    lemma_places(parts, at);
    match string_field(block, "id"@) {
        Some(id) => {
            lemma_silent(parts, id, at + 1, until);
            if until < parts.len() {
                lemma_superseded(parts_of(parts), at, until, completion());
            } else {
                lemma_unanswered(parts_of(parts), at, completion());
            }
        },
        None => {
            lemma_part_is_shown(records, at);
        },
    }
}

/// Where the next call or result under an id is, from `from` on; the end where
/// there is none.
proof fn lemma_next_said(parts: Seq<SessionPart>, id: Seq<char>, from: int) -> (until: int)
    requires
        0 <= from <= parts.len(),
    ensures
        from <= until <= parts.len(),
        nothing_said(parts, id, from, until),
        until < parts.len() ==> calls(parts[until], id) || answers(parts[until], id),
    decreases parts.len() - from,
{
    if from == parts.len() || calls(parts[from], id) || answers(parts[from], id) {
        from
    } else {
        let until = lemma_next_said(parts, id, from + 1);
        assert(nothing_said(parts, id, from, until));
        until
    }
}

/// Every tool call is shown at its place as a call of its tool with its
/// arguments, whatever became of it.
pub proof fn law_calls_show_tool_and_arguments(records: Seq<JsonView>, at: int, block: JsonView)
    requires
        0 <= at < session_parts(records).len(),
        session_parts(records)[at] == SessionPart::Block(block),
        string_field(block, "type"@) == Some("toolCall"@),
    ensures
        0 <= shown_before(session_parts(records), at) < session_entries(records).len(),
        exists|result: Option<JsonView>, status: ToolStatus|
            session_entries(records)[shown_before(session_parts(records), at)]
                == #[trigger] tool_entry(
                string_field_or_empty(block, "name"@),
                field(block, "arguments"@),
                result,
                status,
            ),
{
    let parts = session_parts(records);
    match string_field(block, "id"@) {
        None => {
            law_unanswered_call_has_failed(records, at, block, at + 1);
        },
        Some(id) => {
            let until = lemma_next_said(parts, id, at + 1);
            if until < parts.len() && answers(parts[until], id) {
                let message = field(parts[until]->Record_0, "message"@)->0;
                law_answered_call(records, at, until, id, block, message);
            } else {
                law_unanswered_call_has_failed(records, at, block, until);
            }
        },
    }
}

/// The entry of a file tool names the file, whatever became of the call: a
/// `read` with a path is shown as reading that file, a `write` or an `edit` as
/// editing it.
pub proof fn law_file_calls_name_their_file(
    records: Seq<JsonView>,
    at: int,
    block: JsonView,
    args: JsonView,
    path: Seq<char>,
)
    requires
        0 <= at < session_parts(records).len(),
        session_parts(records)[at] == SessionPart::Block(block),
        string_field(block, "type"@) == Some("toolCall"@),
        field(block, "arguments"@) == Some(args),
        string_field(args, "path"@) == Some(path),
    ensures
        0 <= shown_before(session_parts(records), at) < session_entries(records).len(),
        string_field(block, "name"@) == Some("read"@) ==> (session_entries(records)[shown_before(
            session_parts(records),
            at,
        )].kind matches EntryKind::ToolUse { action, .. } && action == (ActionView::FileRead {
            path,
        })),
        string_field(block, "name"@) == Some("write"@) || string_field(block, "name"@) == Some(
            "edit"@,
        ) ==> (session_entries(records)[shown_before(session_parts(records), at)].kind matches
            EntryKind::ToolUse { action, .. } && action == (ActionView::FileEdit {
            path,
            changes: Seq::empty(),
        })),
{
    law_calls_show_tool_and_arguments(records, at, block);
    let name = string_field_or_empty(block, "name"@);
    let (result, status) = choose|result: Option<JsonView>, status: ToolStatus|
        session_entries(records)[shown_before(session_parts(records), at)] == #[trigger] tool_entry(
            name,
            field(block, "arguments"@),
            result,
            status,
        );
    law_file_tools_name_their_file(name, args, path, result, status);
}

// ---------------------------------------------------------------------------
// Session files
// ---------------------------------------------------------------------------

/// The session id in a header record.
pub open spec fn header_id(header: JsonView) -> Option<Seq<char>> {
    if string_field(header, "type"@) == Some("session"@) {
        string_field(header, "id"@)
    } else {
        None
    }
}

/// The session id in the first line of a file.
pub open spec fn first_line_id(outcome: Result<JsonView, Seq<char>>) -> Option<Seq<char>> {
    match outcome {
        Ok(header) => header_id(header),
        Err(_) => None,
    }
}

/// The session id in a header record.
pub fn header_record_id(header: &Json) -> (id: Option<String>)
    ensures
        opt_view(id) == header_id(header@),
{
    if header.field_is("type", "session") {
        match header.str_field("id") {
            Some(id) => Some(id.clone()),
            None => None,
        }
    } else {
        None
    }
}

/// The session id in the first line of a file.
pub fn header_session_id(first_line: &str) -> (id: Option<String>)
    ensures
        opt_view(id) == first_line_id(json_outcome(trimmed(first_line@))),
{
    let line = trim(first_line);
    match parse_json(&line) {
        Ok(header) => header_record_id(&header),
        Err(_) => None,
    }
}

/// Whether a file name can be that of a session.
pub fn is_session_file_name(name: &str, session_id: &str) -> (candidate: bool)
    ensures
        candidate == (holds_text(name@, session_id@) && finishes_with(name@, ".jsonl"@)),
{
    contains(name, session_id) && ends_with(name, ".jsonl")
}

/// What a directory scan finds: a directory, with its entries where it could
/// be read, or a file, with its name where that is text and the session id in
/// its header where it has one.
#[derive(Debug)]
pub enum ScanEntry {
    Directory { entries: Option<Vec<ScanEntry>> },
    File { path: String, name: Option<String>, header_id: Option<String> },
}

/// The path of a file that holds the session: its name mentions the session
/// and its header belongs to it.
pub open spec fn session_file(entry: ScanEntry, session_id: Seq<char>) -> Option<String> {
    match entry {
        ScanEntry::File { path, name: Some(name), header_id: Some(id) } => if holds_text(
            name@,
            session_id,
        ) && finishes_with(name@, ".jsonl"@) && id@ == session_id {
            Some(path)
        } else {
            None
        },
        _ => None,
    }
}

/// The first session file among `entries`, directories searched in place and
/// no deeper than `depth` levels.
pub open spec fn first_session_file(
    entries: Seq<ScanEntry>,
    session_id: Seq<char>,
    depth: nat,
) -> Option<String>
    decreases depth, entries.len(),
{
    if depth == 0 || entries.len() == 0 {
        None
    } else {
        match first_session_file(entries.drop_last(), session_id, depth) {
            Some(path) => Some(path),
            None => match entries.last() {
                ScanEntry::Directory { entries: Some(inner) } => first_session_file(
                    inner@,
                    session_id,
                    (depth - 1) as nat,
                ),
                ScanEntry::Directory { entries: None } => None,
                file => session_file(file, session_id),
            },
        }
    }
}

/// The first session file among the entries of a directory, directories
/// searched in place and no deeper than `depth` levels.
pub fn find_session_file(entries: &Vec<ScanEntry>, session_id: &str, depth: usize) -> (path: Option<
    String,
>)
    ensures
        path == first_session_file(entries@, session_id@, depth as nat),
    decreases depth,
{
    if depth == 0 {
        return None;
    }
    let wanted = session_id.to_owned();
    let mut found: Option<String> = None;
    let mut i: usize = 0;
    while i < entries.len()
        invariant
            i <= entries@.len(),
            depth > 0,
            wanted@ == session_id@,
            found == first_session_file(entries@.take(i as int), session_id@, depth as nat),
        decreases entries@.len() - i,
    {
        proof {
            let seen = entries@.take(i + 1);
            assert(seen.drop_last() =~= entries@.take(i as int));
            assert(seen.last() == entries@[i as int]);
        }
        if found.is_none() {
            match &entries[i] {
                ScanEntry::Directory { entries: Some(inner) } => {
                    found = find_session_file(inner, session_id, depth - 1);
                },
                ScanEntry::Directory { entries: None } => {},
                ScanEntry::File { path, name, header_id } => {
                    match (name, header_id) {
                        (Some(name), Some(id)) => {
                            if is_session_file_name(name, session_id) && *id == wanted {
                                found = Some(path.clone());
                            }
                        },
                        _ => {},
                    }
                },
            }
        }
        i = i + 1;
    }
    assert(entries@.take(entries@.len() as int) =~= entries@);
    found
}

impl PiNativeSessionHistory {
    /// Where the session is: `root` is the sessions directory where a home
    /// directory is known, `found` what the scan of it found.
    pub fn locate(session_id: &str, root: Option<String>, found: Option<String>) -> (path: Result<
        String,
        NativeHistoryError,
    >)
        ensures
            match (root, found) {
                (None, _) => path matches Err(error) && error@ == HistoryFailure::FormatUnsupported(
                    "cannot determine PI sessions root (no home directory)"@,
                ),
                (Some(_), Some(found)) => path == Ok::<String, NativeHistoryError>(found),
                (Some(root), None) => path matches Err(error) && error@ == (
                HistoryFailure::FileNotFound { session_id: session_id@, root: root@ }),
            },
    {
        match root {
            None => Err(
                NativeHistoryError::FormatUnsupported(
                    "cannot determine PI sessions root (no home directory)".to_owned(),
                ),
            ),
            Some(root) => match found {
                Some(path) => Ok(path),
                None => Err(
                    NativeHistoryError::FileNotFound { session_id: session_id.to_owned(), root },
                ),
            },
        }
    }
}

/// A session file taken apart: its id, its records after the header, and
/// whether a partial tail was dropped.
#[derive(Debug, PartialEq, Eq)]
pub struct PiSession {
    pub session_id: String,
    pub records: Vec<Json>,
    pub partial_tail: bool,
}

/// Model of [`PiSession`].
pub struct SessionView {
    pub session_id: Seq<char>,
    pub records: Seq<JsonView>,
    pub partial_tail: bool,
}

impl View for PiSession {
    type V = SessionView;

    open spec fn view(&self) -> SessionView {
        SessionView {
            session_id: self.session_id@,
            records: json_views(self.records@),
            partial_tail: self.partial_tail,
        }
    }
}

/// What is wrong with one line of a session file.
pub open spec fn line_failure(line: int, outcome: Result<JsonView, Seq<char>>) -> Option<Seq<char>> {
    match outcome {
        Err(message) => Some("line "@ + decimal((line + 1) as nat) + " is not valid JSON: "@ + message),
        Ok(value) => if line == 0 && string_field(value, "type"@) != Some("session"@) {
            Some("first line is not a session header"@)
        } else {
            None
        },
    }
}

/// What is wrong with the first bad line.
pub open spec fn first_failure(outcomes: Seq<Result<JsonView, Seq<char>>>) -> Option<Seq<char>>
    decreases outcomes.len(),
{
    if outcomes.len() == 0 {
        None
    } else {
        match first_failure(outcomes.drop_last()) {
            Some(reason) => Some(reason),
            None => line_failure(outcomes.len() - 1, outcomes.last()),
        }
    }
}

/// The decoded records of outcomes.
pub open spec fn decoded(outcomes: Seq<Result<JsonView, Seq<char>>>) -> Seq<JsonView> {
    outcomes.map_values(
        |outcome: Result<JsonView, Seq<char>>|
            match outcome {
                Ok(value) => value,
                Err(_) => JsonView::Null,
            },
    )
}

/// The session that decoded lines are: the first bad line decides, and then
/// whether the header has an id.
pub open spec fn session_of_lines(
    path: Seq<char>,
    outcomes: Seq<Result<JsonView, Seq<char>>>,
    partial_tail: bool,
) -> Result<SessionView, HistoryFailure> {
    match first_failure(outcomes) {
        Some(reason) => Err(HistoryFailure::Corrupt { path, reason }),
        None => if outcomes.len() > 0 && string_field(decoded(outcomes)[0], "id"@) is Some {
            Ok(
                SessionView {
                    session_id: string_field(decoded(outcomes)[0], "id"@)->0,
                    records: decoded(outcomes).skip(1),
                    partial_tail,
                },
            )
        } else {
            Err(HistoryFailure::Corrupt { path, reason: "session header has no id"@ })
        },
    }
}

/// The model of a session that was taken apart or could not be.
pub open spec fn session_outcome(session: Result<PiSession, NativeHistoryError>) -> Result<
    SessionView,
    HistoryFailure,
> {
    match session {
        Ok(session) => Ok(session@),
        Err(error) => Err(error@),
    }
}

/// What is wrong with a line that is not JSON.
pub fn invalid_json_reason(label: &str, line: usize, message: &str) -> (reason: String)
    requires
        line < usize::MAX,
    ensures
        reason@ == label@ + decimal((line + 1) as nat) + " is not valid JSON: "@ + message@,
{
    let number = decimal_text((line + 1) as u64);
    concat4(label, &number, " is not valid JSON: ", message)
}

proof fn lemma_first_failure_stays(outcomes: Seq<Result<JsonView, Seq<char>>>, seen: int)
    requires
        0 <= seen <= outcomes.len(),
        first_failure(outcomes.take(seen)) is Some,
    ensures
        first_failure(outcomes) == first_failure(outcomes.take(seen)),
    decreases outcomes.len(),
{
    if seen == outcomes.len() {
        assert(outcomes.take(seen) =~= outcomes);
    } else {
        assert(outcomes.drop_last().take(seen) =~= outcomes.take(seen));
        lemma_first_failure_stays(outcomes.drop_last(), seen);
    }
}

/// The session that decoded lines are.
pub fn session_from_lines(
    path: &str,
    outcomes: Vec<Result<Json, String>>,
    partial_tail: bool,
) -> (session: Result<PiSession, NativeHistoryError>)
    ensures
        session_outcome(session) == session_of_lines(path@, outcome_views(outcomes@), partial_tail),
{
    let ghost all = outcome_views(outcomes@);
    let len: usize = outcomes.len();
    let mut session_id: Option<String> = None;
    let mut records: Vec<Json> = Vec::new();
    let mut line: usize = 0;
    for outcome in it: outcomes
        invariant
            it.seq() == outcomes@,
            all == outcome_views(outcomes@),
            line == it.index(),
            len == outcomes@.len(),
            first_failure(all.take(line as int)) is None,
            line == 0 ==> records@.len() == 0 && session_id is None,
            line > 0 ==> json_views(records@) == decoded(all.take(line as int)).skip(1),
            line > 0 ==> opt_view(session_id) == string_field(decoded(all)[0], "id"@),
    {
        let ghost seen = all.take(line + 1);
        proof {
            assert(seen.drop_last() =~= all.take(line as int));
            assert(seen.last() == outcome_view(outcome));
            if first_failure(seen) is Some {
                lemma_first_failure_stays(all, line + 1);
            }
        }
        match outcome {
            Err(message) => {
                let reason = invalid_json_reason("line ", line, &message);
                return Err(NativeHistoryError::corrupt(path, &reason));
            },
            Ok(value) => {
                if line == 0 {
                    if !value.field_is("type", "session") {
                        return Err(
                            NativeHistoryError::corrupt(path, "first line is not a session header"),
                        );
                    }
                    session_id = match value.str_field("id") {
                        Some(id) => Some(id.clone()),
                        None => None,
                    };
                    assert(json_views(records@) =~= decoded(seen).skip(1));
                } else {
                    let ghost before = records@;
                    records.push(value);
                    assert(json_views(records@) =~= json_views(before).push(value@));
                    assert(decoded(seen).skip(1) =~= decoded(all.take(line as int)).skip(1).push(
                        value@,
                    ));
                }
            },
        }
        line = line + 1;
    }
    assert(all.take(all.len() as int) =~= all);
    match session_id {
        Some(session_id) => Ok(PiSession { session_id, records, partial_tail }),
        None => Err(NativeHistoryError::corrupt(path, "session header has no id")),
    }
}

/// Whether a record can only be shown by resolving the session tree.
pub open spec fn is_tree_record(record: JsonView) -> bool {
    string_field_or_empty(record, "type"@) == "compaction"@ || string_field_or_empty(
        record,
        "type"@,
    ) == "branch_summary"@
}

/// Whether two records have the same parent.
pub open spec fn are_siblings(left: JsonView, right: JsonView) -> bool {
    string_field(left, "parentId"@) is Some && string_field(left, "parentId"@) == string_field(
        right,
        "parentId"@,
    )
}

/// Whether a session is more than a line of records: something was compacted
/// or summarized, or a record has two children.
pub open spec fn is_tree(records: Seq<JsonView>) -> bool {
    ||| exists|i: int| 0 <= i < records.len() && is_tree_record(#[trigger] records[i])
    ||| exists|i: int, j: int|
        0 <= i < j < records.len() && are_siblings(#[trigger] records[i], #[trigger] records[j])
}

/// PI sessions are trees. Linear files map directly; anything with branches or
/// compaction is resolved by PI's session manager.
pub fn has_tree_features(records: &Vec<Json>) -> (tree: bool)
    ensures
        tree == is_tree(json_views(records@)),
{
    let ghost all = json_views(records@);
    let mut parents = StringHashSet::new();
    let mut i: usize = 0;
    while i < records.len()
        invariant
            i <= records@.len(),
            all == json_views(records@),
            forall|k: int| 0 <= k < i ==> !is_tree_record(#[trigger] all[k]),
            forall|j: int, k: int|
                0 <= j < k < i ==> !are_siblings(#[trigger] all[j], #[trigger] all[k]),
            forall|id: Seq<char>| #[trigger]
                parents@.contains(id) <==> exists|k: int|
                    0 <= k < i && string_field(#[trigger] all[k], "parentId"@) == Some(id),
        decreases records@.len() - i,
    {
        let record = &records[i];
        assert(all[i as int] == record@);
        let kind = record.str_field_or_empty("type");
        if same(&kind, "compaction") || same(&kind, "branch_summary") {
            return true;
        }
        if let Some(parent) = record.str_field("parentId") {
            let ghost before = parents@;
            if !parents.insert(parent.clone()) {
                proof {
                    let k = choose|k: int|
                        0 <= k < i && string_field(#[trigger] all[k], "parentId"@) == Some(
                            parent@,
                        );
                    assert(are_siblings(all[k], all[i as int]));
                }
                return true;
            }
            proof {
                assert forall|j: int, k: int| 0 <= j < k < i + 1 implies !are_siblings(
                    #[trigger] all[j],
                    #[trigger] all[k],
                ) by {
                    if k == i && are_siblings(all[j], all[k]) {
                        assert(before.contains(parent@));
                    }
                }
                assert forall|id: Seq<char>| #[trigger] parents@.contains(id) implies exists|
                    k: int,
                |
                    0 <= k < i + 1 && string_field(#[trigger] all[k], "parentId"@) == Some(id) by {
                    if id == parent@ {
                        assert(string_field(all[i as int], "parentId"@) == Some(id));
                    } else {
                        assert(before.contains(id));
                    }
                }
            }
        }
        i = i + 1;
    }
    false
}

// ---------------------------------------------------------------------------
// The session manager helper
// ---------------------------------------------------------------------------

/// A directory above the `pi` executable: the content of its package manifest
/// where that can be read, and the path of its entry module where that is a
/// file.
#[derive(Debug)]
pub struct PackageDirectory {
    pub manifest: Option<String>,
    pub index: Option<String>,
}

/// Whether a directory is the installed PI package.
pub open spec fn is_pi_package(directory: PackageDirectory) -> bool {
    directory.manifest matches Some(manifest) && holds_text(
        manifest@,
        "@earendil-works/pi-coding-agent"@,
    ) && directory.index is Some
}

/// The entry module of the nearest directory that is the PI package.
pub open spec fn nearest_index(directories: Seq<PackageDirectory>) -> Option<String>
    decreases directories.len(),
{
    if directories.len() == 0 {
        None
    } else {
        match nearest_index(directories.drop_last()) {
            Some(index) => Some(index),
            None => if is_pi_package(directories.last()) {
                directories.last().index
            } else {
                None
            },
        }
    }
}

/// The entry module of the PI package, from the directories above the `pi`
/// executable, nearest first.
pub fn pi_package_index(directories: &Vec<PackageDirectory>) -> (index: Option<String>)
    ensures
        index == nearest_index(directories@),
{
    let mut found: Option<String> = None;
    let mut i: usize = 0;
    while i < directories.len()
        invariant
            i <= directories@.len(),
            found == nearest_index(directories@.take(i as int)),
        decreases directories@.len() - i,
    {
        proof {
            let seen = directories@.take(i + 1);
            assert(seen.drop_last() =~= directories@.take(i as int));
            assert(seen.last() == directories@[i as int]);
        }
        if found.is_none() {
            if let Some(manifest) = &directories[i].manifest {
                if contains(manifest, "@earendil-works/pi-coding-agent") {
                    if let Some(index) = &directories[i].index {
                        found = Some(index.clone());
                    }
                }
            }
        }
        i = i + 1;
    }
    assert(directories@.take(directories@.len() as int) =~= directories@);
    found
}

/// The programs that the helper needs: `node` and the PI package. Without
/// either, branched and compacted sessions cannot be read.
pub fn helper_programs(node: Option<String>, index: Option<String>) -> (programs: Result<
    (String, String),
    NativeHistoryError,
>)
    ensures
        match (node, index) {
            (None, _) => programs matches Err(error) && error@ == HistoryFailure::FormatUnsupported(
                "node executable not found; cannot run the PI SessionManager helper"@,
            ),
            (Some(_), None) => programs matches Err(error) && error@
                == HistoryFailure::FormatUnsupported(
                "installed @earendil-works/pi-coding-agent package not found; cannot resolve branched/compacted sessions"@,
            ),
            (Some(node), Some(index)) => programs == Ok::<(String, String), NativeHistoryError>(
                (node, index),
            ),
        },
{
    match node {
        None => Err(
            NativeHistoryError::FormatUnsupported(
                "node executable not found; cannot run the PI SessionManager helper".to_owned(),
            ),
        ),
        Some(node) => match index {
            None => Err(
                NativeHistoryError::FormatUnsupported(
                    "installed @earendil-works/pi-coding-agent package not found; cannot resolve branched/compacted sessions".to_owned(),
                ),
            ),
            Some(index) => Ok((node, index)),
        },
    }
}

/// How the helper process ended.
#[derive(Debug)]
pub enum HelperRun {
    /// It could not be run: whether permission was denied, and the system's
    /// message.
    Failed { permission_denied: bool, message: String },
    /// It did not end in time.
    TimedOut,
    /// It ended; its error output is decoded.
    Ended { success: bool, stdout: Vec<u8>, stderr: String },
}

/// What is wrong with the first bad line of the helper's output.
pub open spec fn first_bad_output(outcomes: Seq<Result<JsonView, Seq<char>>>) -> Option<Seq<char>>
    decreases outcomes.len(),
{
    if outcomes.len() == 0 {
        None
    } else {
        match first_bad_output(outcomes.drop_last()) {
            Some(reason) => Some(reason),
            None => match outcomes.last() {
                Err(message) => Some(
                    "helper output line "@ + decimal(outcomes.len()) + " is not valid JSON: "@
                        + message,
                ),
                Ok(_) => None,
            },
        }
    }
}

/// The records that decoded lines of helper output are.
pub open spec fn records_of_output(
    path: Seq<char>,
    outcomes: Seq<Result<JsonView, Seq<char>>>,
) -> Result<Seq<JsonView>, HistoryFailure> {
    match first_bad_output(outcomes) {
        Some(reason) => Err(HistoryFailure::Corrupt { path, reason }),
        None => Ok(decoded(outcomes)),
    }
}

/// What a run of the helper gives: the lines to decode, or why there are none.
pub open spec fn helper_lines(path: Seq<char>, run: HelperRun) -> Result<
    Seq<Seq<char>>,
    HistoryFailure,
> {
    match run {
        HelperRun::Failed { permission_denied, message } => if permission_denied {
            Err(HistoryFailure::PermissionDenied { path })
        } else {
            Err(HistoryFailure::Corrupt { path, reason: message@ })
        },
        HelperRun::TimedOut => Err(
            HistoryFailure::FormatUnsupported("PI SessionManager helper timed out"@),
        ),
        HelperRun::Ended { success, stdout, stderr } => if !success {
            Err(
                HistoryFailure::FormatUnsupported(
                    "PI SessionManager helper failed: "@ + trimmed(stderr@),
                ),
            )
        } else if !valid_utf8(stdout@) {
            Err(HistoryFailure::Corrupt { path, reason: "helper output is not valid UTF-8"@ })
        } else {
            Ok(nonblank_lines(lines_of(decode_utf8(stdout@))))
        },
    }
}

/// The model of records that were read or could not be.
pub open spec fn records_outcome(records: Result<Vec<Json>, NativeHistoryError>) -> Result<
    Seq<JsonView>,
    HistoryFailure,
> {
    match records {
        Ok(records) => Ok(json_views(records@)),
        Err(error) => Err(error@),
    }
}

proof fn lemma_first_bad_output_stays(outcomes: Seq<Result<JsonView, Seq<char>>>, seen: int)
    requires
        0 <= seen <= outcomes.len(),
        first_bad_output(outcomes.take(seen)) is Some,
    ensures
        first_bad_output(outcomes) == first_bad_output(outcomes.take(seen)),
    decreases outcomes.len(),
{
    if seen == outcomes.len() {
        assert(outcomes.take(seen) =~= outcomes);
    } else {
        assert(outcomes.drop_last().take(seen) =~= outcomes.take(seen));
        lemma_first_bad_output_stays(outcomes.drop_last(), seen);
    }
}

/// The records that decoded lines of helper output are.
pub fn records_from_output(path: &str, outcomes: Vec<Result<Json, String>>) -> (records: Result<
    Vec<Json>,
    NativeHistoryError,
>)
    ensures
        records_outcome(records) == records_of_output(path@, outcome_views(outcomes@)),
{
    let ghost all = outcome_views(outcomes@);
    let len: usize = outcomes.len();
    let mut records: Vec<Json> = Vec::new();
    let mut line: usize = 0;
    assert(json_views(records@) =~= decoded(all.take(0)));
    for outcome in it: outcomes
        invariant
            it.seq() == outcomes@,
            all == outcome_views(outcomes@),
            line == it.index(),
            len == outcomes@.len(),
            first_bad_output(all.take(line as int)) is None,
            json_views(records@) == decoded(all.take(line as int)),
    {
        let ghost seen = all.take(line + 1);
        proof {
            assert(seen.drop_last() =~= all.take(line as int));
            assert(seen.last() == outcome_view(outcome));
            if first_bad_output(seen) is Some {
                lemma_first_bad_output_stays(all, line + 1);
            }
        }
        match outcome {
            Err(message) => {
                let reason = invalid_json_reason("helper output line ", line, &message);
                return Err(NativeHistoryError::corrupt(path, &reason));
            },
            Ok(value) => {
                let ghost before = records@;
                records.push(value);
                assert(json_views(records@) =~= json_views(before).push(value@));
                assert(decoded(seen) =~= decoded(all.take(line as int)).push(value@));
            },
        }
        line = line + 1;
    }
    assert(all.take(all.len() as int) =~= all);
    Ok(records)
}

/// The records of the active branch, from a run of the helper on `path`.
pub fn resolve_active_branch(path: &str, run: HelperRun) -> (records: Result<
    Vec<Json>,
    NativeHistoryError,
>)
    ensures
        records_outcome(records) == match helper_lines(path@, run) {
            Ok(lines) => records_of_output(path@, line_outcomes(lines)),
            Err(failure) => Err(failure),
        },
{
    match run {
        HelperRun::Failed { permission_denied, message } => Err(
            NativeHistoryError::from_io(permission_denied, &message, path),
        ),
        HelperRun::TimedOut => Err(
            NativeHistoryError::FormatUnsupported("PI SessionManager helper timed out".to_owned()),
        ),
        HelperRun::Ended { success, stdout, stderr } => {
            if !success {
                let reason = trim(&stderr);
                return Err(
                    NativeHistoryError::FormatUnsupported(
                        concat2("PI SessionManager helper failed: ", &reason),
                    ),
                );
            }
            match utf8_text(stdout) {
                None => Err(NativeHistoryError::corrupt(path, "helper output is not valid UTF-8")),
                Some(text) => {
                    let kept = keep_nonblank(lines(&text));
                    let outcomes = parse_lines(&kept);
                    records_from_output(path, outcomes)
                },
            }
        },
    }
}

// ---------------------------------------------------------------------------
// Reading
// ---------------------------------------------------------------------------

/// What reading a session file leads to.
#[derive(Debug, PartialEq, Eq)]
pub enum PiRead {
    /// The conversation.
    Done(NativeSessionHistory),
    /// The session is a tree; the session manager has to resolve its active
    /// branch first.
    ResolveBranch(PiSession),
}

/// Model of [`PiRead`].
pub enum PiReadView {
    Done(HistoryView),
    ResolveBranch(SessionView),
}

/// The model of a read that succeeded or failed.
pub open spec fn read_outcome(read: Result<PiRead, NativeHistoryError>) -> Result<
    PiReadView,
    HistoryFailure,
> {
    match read {
        Ok(PiRead::Done(history)) => Ok(PiReadView::Done(history@)),
        Ok(PiRead::ResolveBranch(session)) => Ok(PiReadView::ResolveBranch(session@)),
        Err(error) => Err(error@),
    }
}

/// The history of a session whose records are `records`.
pub open spec fn history_of(
    session: SessionView,
    records: Seq<JsonView>,
    fingerprint: FileFingerprint,
) -> HistoryView {
    HistoryView {
        agent: BaseCodingAgent::Pi,
        session_id: session.session_id,
        entries: session_entries(records),
        fingerprint,
        partial_tail: session.partial_tail,
    }
}

/// What a session leads to: a line of records is mapped directly, a tree is
/// left to the session manager.
pub open spec fn read_of_session(
    session: Result<SessionView, HistoryFailure>,
    fingerprint: FileFingerprint,
) -> Result<PiReadView, HistoryFailure> {
    match session {
        Ok(session) => if is_tree(session.records) {
            Ok(PiReadView::ResolveBranch(session))
        } else {
            Ok(PiReadView::Done(history_of(session, session.records, fingerprint)))
        },
        Err(failure) => Err(failure),
    }
}

fn session_history(
    session_id: String,
    records: &Vec<Json>,
    fingerprint: FileFingerprint,
    partial_tail: bool,
) -> (history: NativeSessionHistory)
    ensures
        history@ == (HistoryView {
            agent: BaseCodingAgent::Pi,
            session_id: session_id@,
            entries: session_entries(json_views(records@)),
            fingerprint,
            partial_tail,
        }),
{
    NativeSessionHistory {
        agent: BaseCodingAgent::Pi,
        session_id,
        entries: map_messages(records),
        fingerprint,
        partial_tail,
    }
}

impl PiNativeSessionHistory {
    /// Reads the bytes of a session file.
    pub fn read(path: &str, bytes: Vec<u8>, fingerprint: FileFingerprint, tail: TailPolicy) -> (read:
        Result<PiRead, NativeHistoryError>)
        ensures
            read_outcome(read) == match jsonl_outcome(path@, bytes@, tail) {
                Ok(content) => read_of_session(
                    session_of_lines(path@, line_outcomes(content.lines), content.partial_tail),
                    fingerprint,
                ),
                Err(failure) => Err(failure),
            },
    {
        match read_native_jsonl(path, bytes, tail) {
            Err(error) => Err(error),
            Ok(content) => {
                let outcomes = parse_lines(&content.lines);
                Self::read_lines(path, outcomes, content.partial_tail, fingerprint)
            },
        }
    }

    /// Reads the decoded lines of a session file.
    pub fn read_lines(
        path: &str,
        outcomes: Vec<Result<Json, String>>,
        partial_tail: bool,
        fingerprint: FileFingerprint,
    ) -> (read: Result<PiRead, NativeHistoryError>)
        ensures
            read_outcome(read) == read_of_session(
                session_of_lines(path@, outcome_views(outcomes@), partial_tail),
                fingerprint,
            ),
    {
        match session_from_lines(path, outcomes, partial_tail) {
            Err(error) => Err(error),
            Ok(session) => {
                if has_tree_features(&session.records) {
                    Ok(PiRead::ResolveBranch(session))
                } else {
                    let history = session_history(
                        session.session_id,
                        &session.records,
                        fingerprint,
                        session.partial_tail,
                    );
                    Ok(PiRead::Done(history))
                }
            },
        }
    }

    /// Continues a read with the active branch that the session manager
    /// resolved.
    pub fn resume(
        session: PiSession,
        resolved: Result<Vec<Json>, NativeHistoryError>,
        fingerprint: FileFingerprint,
    ) -> (history: Result<NativeSessionHistory, NativeHistoryError>)
        ensures
            history_outcome(history) == match records_outcome(resolved) {
                Ok(records) => Ok(history_of(session@, records, fingerprint)),
                Err(failure) => Err(failure),
            },
    {
        match resolved {
            Err(error) => Err(error),
            Ok(records) => Ok(
                session_history(session.session_id, &records, fingerprint, session.partial_tail),
            ),
        }
    }
}

// ---------------------------------------------------------------------------
// Laws of session files
// ---------------------------------------------------------------------------

/// A file names its session in its first line, which is a record of type
/// `session` with an id.
pub proof fn law_header_names_the_session(header: JsonView, id: Seq<char>, message: Seq<char>)
    ensures
        string_field(header, "type"@) == Some("session"@) && string_field(header, "id"@) == Some(id)
            ==> first_line_id(Ok(header)) == Some(id),
        string_field(header, "type"@) != Some("session"@) ==> first_line_id(Ok(header)) is None,
        string_field(header, "id"@) is None ==> first_line_id(Ok(header)) is None,
        first_line_id(Err(message)) is None,
{
}

/// A file holds a session exactly where its name mentions the session and ends in
/// `.jsonl`, and its header belongs to the session.
pub proof fn law_session_files_are_named_and_headed(
    path: String,
    name: Option<String>,
    header_id: Option<String>,
    session_id: Seq<char>,
)
    ensures
        ({
            let file = ScanEntry::File { path, name, header_id };
            let holds = (name matches Some(name) && holds_text(name@, session_id) && finishes_with(
                name@,
                ".jsonl"@,
            )) && (header_id matches Some(id) && id@ == session_id);
            &&& holds ==> session_file(file, session_id) == Some(path)
            &&& !holds ==> session_file(file, session_id) is None
        }),
{
}

/// Entries are searched one after the other, and the first file that holds the
/// session is the one that is found. A directory is searched where it stands, one
/// level less deep; what cannot be read holds nothing, and no level is searched
/// below the last.
pub proof fn law_first_session_file_is_found(
    entries: Seq<ScanEntry>,
    path: String,
    name: Option<String>,
    header_id: Option<String>,
    inner: Vec<ScanEntry>,
    session_id: Seq<char>,
    depth: nat,
)
    ensures
        first_session_file(entries, session_id, 0) is None,
        first_session_file(Seq::empty(), session_id, depth) is None,
        ({
            let file = ScanEntry::File { path, name, header_id };
            let directory = ScanEntry::Directory { entries: Some(inner) };
            let closed = ScanEntry::Directory { entries: None };
            let before = first_session_file(entries, session_id, depth);
            &&& before is Some ==> first_session_file(entries.push(file), session_id, depth)
                == before
            &&& before is Some ==> first_session_file(entries.push(directory), session_id, depth)
                == before
            &&& before is None && depth > 0 ==> first_session_file(
                entries.push(file),
                session_id,
                depth,
            ) == session_file(file, session_id)
            &&& before is None && depth > 0 ==> first_session_file(
                entries.push(directory),
                session_id,
                depth,
            ) == first_session_file(inner@, session_id, (depth - 1) as nat)
            &&& first_session_file(entries.push(closed), session_id, depth) == before
        }),
{
    let file = ScanEntry::File { path, name, header_id };
    let directory = ScanEntry::Directory { entries: Some(inner) };
    let closed = ScanEntry::Directory { entries: None };
    assert(entries.push(file).drop_last() =~= entries);
    assert(entries.push(directory).drop_last() =~= entries);
    assert(entries.push(closed).drop_last() =~= entries);
}

/// Whether a line of a session file is in order: it is JSON, and the first is the
/// header of a session.
pub open spec fn is_good_line(outcomes: Seq<Result<JsonView, Seq<char>>>, line: int) -> bool {
    outcomes[line] matches Ok(value) && (line == 0 ==> string_field(value, "type"@) == Some(
        "session"@,
    ))
}

/// A session file is read where every line of it is in order: its session is the
/// one that the header names, and its records are the lines after the header, each
/// of them and in their order.
pub proof fn law_session_is_its_lines(
    path: Seq<char>,
    outcomes: Seq<Result<JsonView, Seq<char>>>,
    partial_tail: bool,
    header: JsonView,
)
    requires
        outcomes.len() > 0,
        outcomes[0] == Ok::<JsonView, Seq<char>>(header),
        forall|i: int| 0 <= i < outcomes.len() ==> #[trigger] is_good_line(outcomes, i),
    ensures
        string_field(header, "id"@) matches Some(id) ==> (session_of_lines(
            path,
            outcomes,
            partial_tail,
        ) matches Ok(session) && session.session_id == id && session.partial_tail == partial_tail
            && session.records.len() == outcomes.len() - 1 && forall|i: int|
            1 <= i < outcomes.len() ==> #[trigger] outcomes[i] == Ok::<JsonView, Seq<char>>(
                session.records[i - 1],
            )),
        string_field(header, "id"@) is None ==> session_of_lines(path, outcomes, partial_tail)
            == Err::<SessionView, HistoryFailure>(
            (HistoryFailure::Corrupt { path, reason: "session header has no id"@ }),
        ),
{
    lemma_no_failure(outcomes);
    assert forall|i: int| 1 <= i < outcomes.len() implies #[trigger] outcomes[i] == Ok::<
        JsonView,
        Seq<char>,
    >(decoded(outcomes).skip(1)[i - 1]) by {
        assert(is_good_line(outcomes, i));
    }
}

proof fn lemma_no_failure(outcomes: Seq<Result<JsonView, Seq<char>>>)
    requires
        forall|i: int| 0 <= i < outcomes.len() ==> #[trigger] is_good_line(outcomes, i),
    ensures
        first_failure(outcomes) is None,
    decreases outcomes.len(),
{
    if outcomes.len() > 0 {
        let rest = outcomes.drop_last();
        assert forall|i: int| 0 <= i < rest.len() implies #[trigger] is_good_line(rest, i) by {
            assert(is_good_line(outcomes, i));
        }
        lemma_no_failure(rest);
        assert(is_good_line(outcomes, outcomes.len() - 1));
    }
}

/// The first line that is not in order makes a session file corrupt: the reason
/// gives its number and what is wrong with it.
pub proof fn law_first_bad_line_makes_a_session_corrupt(
    path: Seq<char>,
    outcomes: Seq<Result<JsonView, Seq<char>>>,
    partial_tail: bool,
    at: int,
)
    requires
        0 <= at < outcomes.len(),
        !is_good_line(outcomes, at),
        forall|i: int| 0 <= i < at ==> #[trigger] is_good_line(outcomes, i),
    ensures
        outcomes[at] matches Err(message) ==> session_of_lines(path, outcomes, partial_tail)
            == Err::<SessionView, HistoryFailure>(
            (HistoryFailure::Corrupt {
                path,
                reason: "line "@ + decimal((at + 1) as nat) + " is not valid JSON: "@ + message,
            }),
        ),
        outcomes[at] is Ok ==> session_of_lines(path, outcomes, partial_tail) == Err::<
            SessionView,
            HistoryFailure,
        >((HistoryFailure::Corrupt { path, reason: "first line is not a session header"@ })),
{
    let seen = outcomes.take(at + 1);
    let before = seen.drop_last();
    assert forall|i: int| 0 <= i < before.len() implies #[trigger] is_good_line(before, i) by {
        assert(is_good_line(outcomes, i));
        assert(before[i] == outcomes[i]);
    }
    lemma_no_failure(before);
    assert(seen.last() == outcomes[at]);
    lemma_first_failure_stays(outcomes, at + 1);
}

/// A session file without any line has no header to name its session.
pub proof fn law_empty_session_has_no_id(path: Seq<char>, partial_tail: bool)
    ensures
        session_of_lines(path, Seq::empty(), partial_tail) == Err::<SessionView, HistoryFailure>(
            (HistoryFailure::Corrupt { path, reason: "session header has no id"@ }),
        ),
{
}

/// A session is a tree exactly where something in it was compacted or
/// summarized, or two of its records have one parent. What is no tree is shown
/// from its own records; a tree is left to be resolved, as it is.
pub proof fn law_lines_are_shown_and_trees_resolved(
    session: SessionView,
    fingerprint: FileFingerprint,
    failure: HistoryFailure,
)
    ensures
        ({
            let records = session.records;
            let tree = (exists|i: int|
                0 <= i < records.len() && (string_field(#[trigger] records[i], "type"@) == Some(
                    "compaction"@,
                ) || string_field(records[i], "type"@) == Some("branch_summary"@))) || (exists|
                i: int,
                j: int,
            |
                0 <= i < j < records.len() && string_field(#[trigger] records[i], "parentId"@)
                    is Some && string_field(records[i], "parentId"@) == string_field(
                    #[trigger] records[j],
                    "parentId"@,
                ));
            &&& tree ==> read_of_session(Ok(session), fingerprint) == Ok::<
                PiReadView,
                HistoryFailure,
            >(PiReadView::ResolveBranch(session))
            &&& !tree ==> read_of_session(Ok(session), fingerprint) == Ok::<
                PiReadView,
                HistoryFailure,
            >(
                PiReadView::Done(
                    HistoryView {
                        agent: BaseCodingAgent::Pi,
                        session_id: session.session_id,
                        entries: session_entries(records),
                        fingerprint,
                        partial_tail: session.partial_tail,
                    },
                ),
            )
        }),
        read_of_session(Err(failure), fingerprint) == Err::<PiReadView, HistoryFailure>(failure),
{
    let records = session.records;
    reveal_strlit("compaction");
    reveal_strlit("branch_summary");
    assert("compaction"@.len() == 10 && "branch_summary"@.len() == 14);
    assert(forall|i: int|
        0 <= i < records.len() ==> (is_tree_record(#[trigger] records[i]) <==> (string_field(
            records[i],
            "type"@,
        ) == Some("compaction"@) || string_field(records[i], "type"@) == Some(
            "branch_summary"@,
        ))));
    if exists|i: int| 0 <= i < records.len() && is_tree_record(#[trigger] records[i]) {
        let i = choose|i: int| 0 <= i < records.len() && is_tree_record(#[trigger] records[i]);
        assert(string_field(records[i], "type"@) is Some);
    }
    if exists|i: int, j: int|
        0 <= i < j < records.len() && are_siblings(#[trigger] records[i], #[trigger] records[j]) {
        let (i, j) = choose|i: int, j: int|
            0 <= i < j < records.len() && are_siblings(#[trigger] records[i], #[trigger] records[j]);
        assert(string_field(records[i], "parentId"@) == string_field(records[j], "parentId"@));
    }
    if exists|i: int, j: int|
        0 <= i < j < records.len() && string_field(#[trigger] records[i], "parentId"@) is Some
            && string_field(records[i], "parentId"@) == string_field(
            #[trigger] records[j],
            "parentId"@,
        ) {
        let (i, j) = choose|i: int, j: int|
            0 <= i < j < records.len() && string_field(#[trigger] records[i], "parentId"@) is Some
                && string_field(records[i], "parentId"@) == string_field(
                #[trigger] records[j],
                "parentId"@,
            );
        assert(are_siblings(records[i], records[j]));
    }
}

/// A resolved session is shown from the records of its active branch, under its
/// own id and as far as its file went.
pub proof fn law_resolved_branch_is_shown(
    session: SessionView,
    records: Seq<JsonView>,
    fingerprint: FileFingerprint,
)
    ensures
        history_of(session, records, fingerprint) == (HistoryView {
            agent: BaseCodingAgent::Pi,
            session_id: session.session_id,
            entries: session_entries(records),
            fingerprint,
            partial_tail: session.partial_tail,
        }),
{
}

/// The PI package is the nearest directory with an entry module whose manifest
/// names it.
pub proof fn law_nearest_package_is_used(
    directories: Seq<PackageDirectory>,
    directory: PackageDirectory,
)
    ensures
        nearest_index(Seq::empty()) is None,
        ({
            let before = nearest_index(directories);
            let is_package = (directory.manifest matches Some(manifest) && holds_text(
                manifest@,
                "@earendil-works/pi-coding-agent"@,
            )) && directory.index is Some;
            &&& before is Some ==> nearest_index(directories.push(directory)) == before
            &&& before is None && is_package ==> nearest_index(directories.push(directory))
                == directory.index
            &&& before is None && !is_package ==> nearest_index(directories.push(directory))
                is None
        }),
{
    assert(directories.push(directory).drop_last() =~= directories);
}

/// What the helper prints is read where it ended well and in time. What kept it
/// from that is reported: that it was not permitted, or could not be run, that it
/// did not end, that it failed, and that its output is no text.
pub proof fn law_helper_output_is_read(path: Seq<char>, run: HelperRun)
    ensures
        match run {
            HelperRun::Failed { permission_denied, message } => helper_lines(path, run) == Err::<
                Seq<Seq<char>>,
                HistoryFailure,
            >(
                if permission_denied {
                    HistoryFailure::PermissionDenied { path }
                } else {
                    HistoryFailure::Corrupt { path, reason: message@ }
                },
            ),
            HelperRun::TimedOut => helper_lines(path, run) == Err::<
                Seq<Seq<char>>,
                HistoryFailure,
            >(HistoryFailure::FormatUnsupported("PI SessionManager helper timed out"@)),
            HelperRun::Ended { success, stdout, stderr } => {
                &&& !success ==> helper_lines(path, run) == Err::<Seq<Seq<char>>, HistoryFailure>(
                    HistoryFailure::FormatUnsupported(
                        "PI SessionManager helper failed: "@ + trimmed(stderr@),
                    ),
                )
                &&& success && !valid_utf8(stdout@) ==> helper_lines(path, run) == Err::<
                    Seq<Seq<char>>,
                    HistoryFailure,
                >(
                    (HistoryFailure::Corrupt {
                        path,
                        reason: "helper output is not valid UTF-8"@,
                    }),
                )
                &&& success && valid_utf8(stdout@) ==> helper_lines(path, run) == Ok::<
                    Seq<Seq<char>>,
                    HistoryFailure,
                >(nonblank_lines(lines_of(decode_utf8(stdout@))))
            },
        },
{
}

/// The records that the helper gives are its lines, each of them and in their
/// order; the first line that is no JSON makes them corrupt, and the reason gives
/// its number.
pub proof fn law_helper_lines_are_records(
    path: Seq<char>,
    outcomes: Seq<Result<JsonView, Seq<char>>>,
    at: int,
)
    ensures
        (forall|i: int| 0 <= i < outcomes.len() ==> (#[trigger] outcomes[i]) is Ok) ==> (
        records_of_output(path, outcomes) matches Ok(records) && records.len() == outcomes.len()
            && forall|i: int|
            0 <= i < outcomes.len() ==> #[trigger] outcomes[i] == Ok::<JsonView, Seq<char>>(
                records[i],
            )),
        0 <= at < outcomes.len() && (forall|i: int|
            0 <= i < at ==> (#[trigger] outcomes[i]) is Ok) ==> (outcomes[at] matches Err(message)
            ==> records_of_output(path, outcomes) == Err::<Seq<JsonView>, HistoryFailure>(
            (HistoryFailure::Corrupt {
                path,
                reason: "helper output line "@ + decimal((at + 1) as nat) + " is not valid JSON: "@
                    + message,
            }),
        )),
{
    if forall|i: int| 0 <= i < outcomes.len() ==> (#[trigger] outcomes[i]) is Ok {
        lemma_no_bad_output(outcomes);
    }
    if 0 <= at < outcomes.len() && (forall|i: int| 0 <= i < at ==> (#[trigger] outcomes[i]) is Ok)
        && outcomes[at] is Err {
        let seen = outcomes.take(at + 1);
        let before = seen.drop_last();
        assert(forall|i: int| 0 <= i < before.len() ==> #[trigger] before[i] == outcomes[i]);
        lemma_no_bad_output(before);
        assert(seen.last() == outcomes[at]);
        lemma_first_bad_output_stays(outcomes, at + 1);
    }
}

proof fn lemma_no_bad_output(outcomes: Seq<Result<JsonView, Seq<char>>>)
    requires
        forall|i: int| 0 <= i < outcomes.len() ==> (#[trigger] outcomes[i]) is Ok,
    ensures
        first_bad_output(outcomes) is None,
    decreases outcomes.len(),
{
    if outcomes.len() > 0 {
        let rest = outcomes.drop_last();
        assert(forall|i: int| 0 <= i < rest.len() ==> #[trigger] rest[i] == outcomes[i]);
        lemma_no_bad_output(rest);
        assert(outcomes[outcomes.len() - 1] is Ok);
    }
}

/// The model of [`PiSession`] holds what the value does, part by part.
pub proof fn law_model_of_pi_session(value: PiSession)
    ensures
        value@.session_id == value.session_id@,
        value@.records == json_views(value.records@),
        value@.partial_tail == value.partial_tail,
{
}

} // verus!
