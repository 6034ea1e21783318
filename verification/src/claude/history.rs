//! History from the session files that the `ClaudeCode` agent persists.
//!
//! The main transcript is the chain of records from the last one to the root.
//! How a content block is shown is decided by the mapping that also serves the
//! live view; here its outcomes are put in order and paired with their results.

use vstd::hash_map::StringHashMap;
use vstd::prelude::*;

use crate::entries::{
    entry_views, is_created, lemma_entry_views_update, lemma_settled_entries, plain_entry,
    push_entry, push_entry_nonempty, push_nonempty, settle, settled, settled_entries, with_status,
    ActionType, ActionView, BaseCodingAgent, CommandRunResult, EntryKind, EntryView,
    NormalizedEntry, NormalizedEntryType, RunResultView, ToolResult, ToolResultValueType,
    ToolResultView, ToolStatus,
};
use crate::history::{
    jsonl_outcome, read_native_jsonl, FileFingerprint, HistoryFailure, HistoryView,
    NativeHistoryError, NativeSessionHistory, NativeSessionHistoryProvider, TailPolicy,
};
use crate::json::{
    bool_field, copy_all, field, json_views, line_outcomes, outcome_view, outcome_views,
    parse_lines, pretty_text, print_pretty, string_field, string_field_or_empty, Json, JsonView,
};
use crate::pi::history::invalid_json_reason;
use crate::replay::{
    entries_before, is_done, is_silent, lemma_answered, lemma_entry_count, lemma_shown,
    lemma_superseded, lemma_tracks_find, lemma_tracks_insert, lemma_tracks_remove,
    lemma_unanswered, lemma_waiting_fit, replay, speaks_of, tracks, Part,
};
use crate::text::{concat2, concat3, decimal, opt_view, same};
use crate::tool_slots::{
    fail_open, insert_slot, lemma_slot_index, remove_slot, slot_index, slots_fit, SlotView,
    ToolSlots,
};

verus! {

/// Reads the sessions that the `ClaudeCode` agent persists.
#[derive(Debug)]
pub struct ClaudeNativeSessionHistory;

impl NativeSessionHistoryProvider for ClaudeNativeSessionHistory {
    open spec fn served_agent(&self) -> BaseCodingAgent {
        BaseCodingAgent::ClaudeCode
    }

    fn agent(&self) -> (agent: BaseCodingAgent) {
        BaseCodingAgent::ClaudeCode
    }
}

// ---------------------------------------------------------------------------
// The main chain
// ---------------------------------------------------------------------------

/// The last record with a uuid.
pub open spec fn last_with_uuid(records: Seq<JsonView>, uuid: Seq<char>) -> Option<int>
    decreases records.len(),
{
    if records.len() == 0 {
        None
    } else if string_field(records.last(), "uuid"@) == Some(uuid) {
        Some(records.len() - 1)
    } else {
        last_with_uuid(records.drop_last(), uuid)
    }
}

/// The leaf: the last record that has a uuid.
pub open spec fn leaf_of(records: Seq<JsonView>) -> Option<int>
    decreases records.len(),
{
    if records.len() == 0 {
        None
    } else if string_field(records.last(), "uuid"@) is Some {
        Some(records.len() - 1)
    } else {
        leaf_of(records.drop_last())
    }
}

/// The record that another names as its parent.
pub open spec fn parent_of(records: Seq<JsonView>, at: int) -> Option<int> {
    match string_field(records[at], "parentUuid"@) {
        Some(uuid) => last_with_uuid(records, uuid),
        None => None,
    }
}

/// Whether following parents from `at` ends at a root after at most `steps`
/// records.
pub open spec fn walk_ends(records: Seq<JsonView>, at: int, steps: nat) -> bool
    decreases steps,
{
    steps > 0 && match parent_of(records, at) {
        Some(parent) => walk_ends(records, parent, (steps - 1) as nat),
        None => true,
    }
}

/// The records from the root to `at`, following at most `steps` parents.
pub open spec fn path_to(records: Seq<JsonView>, at: int, steps: nat) -> Seq<int>
    decreases steps,
{
    match parent_of(records, at) {
        Some(parent) => if steps > 0 {
            path_to(records, parent, (steps - 1) as nat).push(at)
        } else {
            seq![at]
        },
        None => seq![at],
    }
}

/// The main chain: the records from the root to the leaf, or all records in
/// file order where none has a uuid. `None` where the parents of the leaf form
/// a cycle.
pub open spec fn chain_of(records: Seq<JsonView>) -> Option<Seq<JsonView>> {
    match leaf_of(records) {
        Some(leaf) => if walk_ends(records, leaf, records.len()) {
            Some(path_to(records, leaf, records.len()).map_values(|at: int| records[at]))
        } else {
            None
        },
        None => Some(records),
    }
}

proof fn lemma_last_with_uuid(records: Seq<JsonView>, uuid: Seq<char>)
    ensures
        last_with_uuid(records, uuid) matches Some(i) ==> 0 <= i < records.len(),
    decreases records.len(),
{
    if records.len() > 0 {
        lemma_last_with_uuid(records.drop_last(), uuid);
    }
}

proof fn lemma_leaf(records: Seq<JsonView>)
    ensures
        leaf_of(records) matches Some(i) ==> 0 <= i < records.len(),
    decreases records.len(),
{
    if records.len() > 0 {
        lemma_leaf(records.drop_last());
    }
}

proof fn lemma_parent(records: Seq<JsonView>, at: int)
    ensures
        parent_of(records, at) matches Some(parent) ==> 0 <= parent < records.len(),
{
    if let Some(uuid) = string_field(records[at], "parentUuid"@) {
        lemma_last_with_uuid(records, uuid);
    }
}

/// The records on the way from `at` towards the root, `at` first.
spec fn climb(records: Seq<JsonView>, at: int, steps: nat) -> int
    decreases steps,
{
    if steps == 0 {
        at
    } else {
        match parent_of(records, at) {
            Some(parent) => climb(records, parent, (steps - 1) as nat),
            None => at,
        }
    }
}

proof fn lemma_walk_of_climb(records: Seq<JsonView>, at: int, steps: nat, taken: nat)
    requires
        walk_ends(records, at, steps),
        steps == 1 || !walk_ends(records, at, (steps - 1) as nat),
        taken < steps,
        0 <= at < records.len(),
    ensures
        walk_ends(records, climb(records, at, taken), (steps - taken) as nat),
        steps - taken == 1 || !walk_ends(
            records,
            climb(records, at, taken),
            (steps - taken - 1) as nat,
        ),
        0 <= climb(records, at, taken) < records.len(),
    decreases taken,
{
    if taken > 0 {
        lemma_parent(records, at);
        match parent_of(records, at) {
            Some(parent) => {
                lemma_walk_of_climb(records, parent, (steps - 1) as nat, (taken - 1) as nat);
            },
            None => {
                assert(walk_ends(records, at, (steps - 1) as nat));
            },
        }
    }
}

proof fn lemma_walk_longer(records: Seq<JsonView>, at: int, steps: nat, more: nat)
    requires
        walk_ends(records, at, steps),
        steps <= more,
    ensures
        walk_ends(records, at, more),
    decreases steps,
{
    if let Some(parent) = parent_of(records, at) {
        lemma_walk_longer(records, parent, (steps - 1) as nat, (more - 1) as nat);
    }
}

proof fn lemma_least_walk(records: Seq<JsonView>, at: int, steps: nat) -> (least: nat)
    requires
        walk_ends(records, at, steps),
    ensures
        walk_ends(records, at, least),
        least == 1 || !walk_ends(records, at, (least - 1) as nat),
        0 < least <= steps,
    decreases steps,
{
    if steps > 1 && walk_ends(records, at, (steps - 1) as nat) {
        lemma_least_walk(records, at, (steps - 1) as nat)
    } else {
        steps
    }
}

/// Following parents either ends within as many steps as there are records, or
/// never: a chain that is refused has a cycle.
pub proof fn law_walk_ends_early_or_never(records: Seq<JsonView>, at: int, steps: nat)
    requires
        0 <= at < records.len(),
        walk_ends(records, at, steps),
    ensures
        walk_ends(records, at, records.len()),
{
    let least = lemma_least_walk(records, at, steps);
    if least > records.len() {
        let visited = Seq::new(least, |k: int| climb(records, at, k as nat));
        assert forall|i: int, j: int| 0 <= i < j < visited.len() implies visited[i] != visited[j] by {
            lemma_walk_of_climb(records, at, least, i as nat);
            lemma_walk_of_climb(records, at, least, j as nat);
            if visited[i] == visited[j] {
                let node = visited[i];
                assert(walk_ends(records, node, (least - j) as nat));
                lemma_walk_longer(records, node, (least - j) as nat, (least - i - 1) as nat);
            }
        }
        assert(visited.no_duplicates());
        visited.unique_seq_to_set();
        let all = vstd::set_lib::set_int_range(0, records.len() as int);
        vstd::set_lib::lemma_int_range(0, records.len() as int);
        assert(visited.to_set().subset_of(all)) by {
            assert forall|x: int| visited.to_set().contains(x) implies all.contains(x) by {
                let k = choose|k: int| 0 <= k < visited.len() && visited[k] == x;
                lemma_walk_of_climb(records, at, least, k as nat);
            }
        }
        vstd::set_lib::lemma_len_subset(visited.to_set(), all);
    } else {
        lemma_walk_longer(records, at, least, records.len());
    }
}

fn find_leaf(records: &Vec<Json>) -> (leaf: Option<usize>)
    ensures
        match leaf {
            Some(leaf) => leaf_of(json_views(records@)) == Some(leaf as int) && leaf
                < records@.len(),
            None => leaf_of(json_views(records@)) is None,
        },
{
    let ghost all = json_views(records@);
    let mut i: usize = records.len();
    assert(all.take(i as int) =~= all);
    while i > 0
        invariant
            i <= records@.len(),
            all == json_views(records@),
            leaf_of(all) == leaf_of(all.take(i as int)),
        decreases i,
    {
        i = i - 1;
        proof {
            let seen = all.take(i + 1);
            assert(seen.drop_last() =~= all.take(i as int));
            assert(seen.last() == records@[i as int]@);
        }
        if records[i].str_field("uuid").is_some() {
            return Some(i);
        }
    }
    None
}

fn index_by_uuid(records: &Vec<Json>) -> (by_uuid: StringHashMap<usize>)
    ensures
        forall|uuid: Seq<char>| #[trigger]
            last_with_uuid(json_views(records@), uuid) == if by_uuid@.contains_key(uuid) {
                Some(by_uuid@[uuid] as int)
            } else {
                None
            },
{
    let ghost all = json_views(records@);
    let mut by_uuid: StringHashMap<usize> = StringHashMap::new();
    let mut i: usize = 0;
    while i < records.len()
        invariant
            i <= records@.len(),
            all == json_views(records@),
            forall|uuid: Seq<char>| #[trigger]
                last_with_uuid(all.take(i as int), uuid) == if by_uuid@.contains_key(uuid) {
                    Some(by_uuid@[uuid] as int)
                } else {
                    None
                },
        decreases records@.len() - i,
    {
        proof {
            let seen = all.take(i + 1);
            assert(seen.drop_last() =~= all.take(i as int));
            assert(seen.last() == records@[i as int]@);
        }
        if let Some(uuid) = records[i].str_field("uuid") {
            by_uuid.insert(uuid.clone(), i);
        }
        proof {
            assert forall|uuid: Seq<char>| #[trigger]
                last_with_uuid(all.take(i + 1), uuid) == if by_uuid@.contains_key(uuid) {
                    Some(by_uuid@[uuid] as int)
                } else {
                    None
                } by {
                let known = last_with_uuid(all.take(i as int), uuid);
                assert(all.take(i + 1).drop_last() =~= all.take(i as int));
            }
        }
        i = i + 1;
    }
    assert(all.take(all.len() as int) =~= all);
    by_uuid
}

spec fn indices(positions: Seq<usize>) -> Seq<int> {
    positions.map_values(|position: usize| position as int)
}

spec fn reversed_indices(positions: Seq<usize>) -> Seq<int> {
    indices(positions).reverse()
}

/// Selects the main chain: from the leaf, follows the parents to the root.
/// Records off the chain, those of abandoned branches, are left out. Without
/// uuids, all records stand in file order. `None` where the parents form a
/// cycle, so that there is no root.
pub fn main_chain(records: &Vec<Json>) -> (chain: Option<Vec<Json>>)
    ensures
        match chain {
            Some(chain) => chain_of(json_views(records@)) == Some(json_views(chain@)),
            None => chain_of(json_views(records@)) is None,
        },
{
    let ghost all = json_views(records@);
    let leaf: usize = match find_leaf(records) {
        Some(leaf) => leaf,
        None => {
            let chain = copy_all(records);
            return Some(chain);
        },
    };
    let by_uuid = index_by_uuid(records);
    let mut climbed: Vec<usize> = Vec::new();
    climbed.push(leaf);
    let mut cursor: usize = leaf;
    let mut left: usize = records.len();
    assert(reversed_indices(climbed@) =~= seq![leaf as int]);
    assert(path_to(all, leaf as int, 0) =~= seq![leaf as int]);
    proof {
        lemma_path_from(all, leaf as int, cursor as int, left as nat, seq![leaf as int]);
    }
    loop
        invariant
            all == json_views(records@),
            0 < left <= records@.len(),
            leaf < records@.len(),
            cursor < records@.len(),
            leaf_of(all) == Some(leaf as int),
            climbed@.len() > 0,
            forall|k: int| 0 <= k < climbed@.len() ==> #[trigger] climbed@[k] < records@.len(),
            climbed@.last() == cursor,
            forall|uuid: Seq<char>| #[trigger]
                last_with_uuid(all, uuid) == if by_uuid@.contains_key(uuid) {
                    Some(by_uuid@[uuid] as int)
                } else {
                    None
                },
            walk_ends(all, leaf as int, all.len()) == walk_ends(all, cursor as int, left as nat),
            path_to(all, leaf as int, all.len()) == path_to(all, cursor as int, left as nat).drop_last()
                + reversed_indices(climbed@),
        ensures
            walk_ends(all, leaf as int, all.len()),
            path_to(all, leaf as int, all.len()) == reversed_indices(climbed@),
            forall|k: int| 0 <= k < climbed@.len() ==> #[trigger] climbed@[k] < records@.len(),
        decreases left,
    {
        proof {
            lemma_parent(all, cursor as int);
            assert(records@[cursor as int]@ == all[cursor as int]);
        }
        let parent: usize = match records[cursor].str_field("parentUuid") {
            Some(uuid) => match by_uuid.get(uuid.as_str()) {
                Some(parent) => *parent,
                None => {
                    assert(path_to(all, cursor as int, left as nat).drop_last() =~= Seq::empty());
                    assert(Seq::empty() + reversed_indices(climbed@) =~= reversed_indices(climbed@));
                    break;
                },
            },
            None => {
                assert(path_to(all, cursor as int, left as nat).drop_last() =~= Seq::empty());
                assert(Seq::empty() + reversed_indices(climbed@) =~= reversed_indices(climbed@));
                break;
            },
        };
        if left == 1 {
            assert(!walk_ends(all, parent as int, 0));
            return None;
        }
        let ghost before = reversed_indices(climbed@);
        let ghost older = path_to(all, parent as int, (left - 1) as nat);
        climbed.push(parent);
        proof {
            assert(path_to(all, cursor as int, left as nat) =~= older.push(cursor as int));
            assert(reversed_indices(climbed@) =~= seq![parent as int] + before);
            lemma_path_last(all, parent as int, (left - 1) as nat);
            assert(older =~= older.drop_last().push(parent as int));
            assert(older + before =~= older.drop_last() + (seq![parent as int] + before));
        }
        cursor = parent;
        left = left - 1;
    }
    let mut chain: Vec<Json> = Vec::new();
    let mut k: usize = climbed.len();
    while k > 0
        invariant
            k <= climbed@.len(),
            all == json_views(records@),
            forall|k: int| 0 <= k < climbed@.len() ==> #[trigger] climbed@[k] < records@.len(),
            chain@.len() == climbed@.len() - k,
            forall|j: int|
                0 <= j < chain@.len() ==> (#[trigger] chain@[j])@ == all[climbed@[climbed@.len() - 1
                    - j] as int],
        decreases k,
    {
        k = k - 1;
        chain.push(records[climbed[k]].copy());
    }
    assert(json_views(chain@) =~= reversed_indices(climbed@).map_values(|at: int| all[at]));
    Some(chain)
}

proof fn lemma_path_last(records: Seq<JsonView>, at: int, steps: nat)
    ensures
        path_to(records, at, steps).len() > 0,
        path_to(records, at, steps).last() == at,
{
}

proof fn lemma_path_from(
    records: Seq<JsonView>,
    leaf: int,
    cursor: int,
    left: nat,
    climbed: Seq<int>,
)
    requires
        leaf == cursor,
        climbed == seq![leaf],
    ensures
        path_to(records, leaf, left) == path_to(records, cursor, left).drop_last() + climbed,
{
    lemma_path_last(records, leaf, left);
    assert(path_to(records, leaf, left) =~= path_to(records, cursor, left).drop_last() + climbed);
}

/// A main chain begins at a record without a known parent, each further record
/// names the one before it as its parent, and the last is the leaf: what was
/// abandoned is not on it.
pub proof fn law_chain_follows_parents(records: Seq<JsonView>, at: int, steps: nat)
    requires
        0 <= at < records.len(),
        walk_ends(records, at, steps),
    ensures
        ({
            let path = path_to(records, at, steps);
            &&& path.len() > 0
            &&& path.last() == at
            &&& parent_of(records, path[0]) is None
            &&& forall|k: int|
                0 < k < path.len() ==> parent_of(records, #[trigger] path[k]) == Some(path[k - 1])
        }),
    decreases steps,
{
    let path = path_to(records, at, steps);
    if let Some(parent) = parent_of(records, at) {
        lemma_parent(records, at);
        law_chain_follows_parents(records, parent, (steps - 1) as nat);
        let before = path_to(records, parent, (steps - 1) as nat);
        assert(path == before.push(at));
        assert forall|k: int| 0 < k < path.len() implies parent_of(records, #[trigger] path[k])
            == Some(path[k - 1]) by {
            if k < before.len() {
                assert(before[k] == path[k]);
            }
        }
    }
}

// ---------------------------------------------------------------------------
// Session files
// ---------------------------------------------------------------------------

/// Whether a decoded line refers to a session.
pub open spec fn refers_to(outcome: Result<JsonView, Seq<char>>, session_id: Seq<char>) -> bool {
    outcome matches Ok(record) && string_field(record, "sessionId"@) == Some(session_id)
}

/// Whether any of the decoded lines refers to a session.
pub open spec fn any_refers_to(outcomes: Seq<Result<JsonView, Seq<char>>>, session_id: Seq<char>) -> bool {
    exists|i: int| 0 <= i < outcomes.len() && refers_to(#[trigger] outcomes[i], session_id)
}

/// Whether any of the decoded lines refers to a session.
pub fn lines_refer_to(outcomes: &Vec<Result<Json, String>>, session_id: &str) -> (found: bool)
    ensures
        found == any_refers_to(outcome_views(outcomes@), session_id@),
{
    let mut i: usize = 0;
    while i < outcomes.len()
        invariant
            i <= outcomes@.len(),
            forall|k: int|
                0 <= k < i ==> !refers_to(
                    #[trigger] outcome_views(outcomes@)[k],
                    session_id@,
                ),
        decreases outcomes@.len() - i,
    {
        assert(outcome_views(outcomes@)[i as int] == outcome_view(outcomes@[i as int]));
        if let Ok(record) = &outcomes[i] {
            if record.field_is("sessionId", session_id) {
                return true;
            }
        }
        i = i + 1;
    }
    false
}

/// Whether the bytes of a file hold a record that refers to a session. Records
/// in a session file carry `sessionId`; a file only contains the session if at
/// least one record references it.
pub fn file_contains_session(path: &str, bytes: Vec<u8>, session_id: &str) -> (found: Result<
    bool,
    NativeHistoryError,
>)
    ensures
        match jsonl_outcome(path@, bytes@, TailPolicy::Running) {
            Ok(content) => found == Ok::<bool, NativeHistoryError>(
                any_refers_to(line_outcomes(content.lines), session_id@),
            ),
            Err(failure) => found matches Err(error) && error@ == failure,
        },
{
    match read_native_jsonl(path, bytes, TailPolicy::Running) {
        Err(error) => Err(error),
        Ok(content) => {
            let outcomes = parse_lines(&content.lines);
            Ok(lines_refer_to(&outcomes, session_id))
        },
    }
}

/// The name of the file of a session.
pub open spec fn session_file(session_id: Seq<char>) -> Seq<char> {
    session_id + ".jsonl"@
}

/// The name of the file of a session.
pub fn session_file_name(session_id: &str) -> (name: String)
    ensures
        name@ == session_file(session_id@),
{
    concat2(session_id, ".jsonl")
}

/// Something in the projects directory: its path, whether it is a directory,
/// and whether a file named after the session is in it.
#[derive(Debug, PartialEq, Eq)]
pub struct ProjectEntry {
    pub path: String,
    pub is_directory: bool,
    pub has_session_file: bool,
}

/// Whether a file named after the session is in a project directory.
pub open spec fn may_hold_session(entry: ProjectEntry) -> bool {
    entry.is_directory && entry.has_session_file
}

/// The path of the file of a session in the first project directory that has
/// one.
pub open spec fn first_session_file(entries: Seq<ProjectEntry>, session_id: Seq<char>) -> Option<
    Seq<char>,
>
    decreases entries.len(),
{
    if entries.len() == 0 {
        None
    } else {
        match first_session_file(entries.drop_last(), session_id) {
            Some(path) => Some(path),
            None => if may_hold_session(entries.last()) {
                Some(entries.last().path@ + "/"@ + session_file(session_id))
            } else {
                None
            },
        }
    }
}

/// Finds the file of a session in the first project directory that has one.
pub fn find_session_file(entries: &Vec<ProjectEntry>, session_id: &str) -> (path: Option<String>)
    ensures
        opt_view(path) == first_session_file(entries@, session_id@),
{
    let mut found: Option<String> = None;
    let mut i: usize = 0;
    while i < entries.len()
        invariant
            i <= entries@.len(),
            opt_view(found) == first_session_file(entries@.take(i as int), session_id@),
        decreases entries@.len() - i,
    {
        proof {
            let seen = entries@.take(i + 1);
            assert(seen.drop_last() =~= entries@.take(i as int));
            assert(seen.last() == entries@[i as int]);
        }
        let entry = &entries[i];
        if found.is_none() && entry.is_directory && entry.has_session_file {
            let name = session_file_name(session_id);
            found = Some(concat3(&entry.path, "/", &name));
        }
        i = i + 1;
    }
    assert(entries@.take(entries@.len() as int) =~= entries@);
    found
}

/// The file named after a session that [`find_session_file`] finds: its path,
/// and whether it contains the session.
#[derive(Debug)]
pub struct SessionCandidate {
    pub path: String,
    pub contains: Result<bool, NativeHistoryError>,
}

/// Where a session is, or why it cannot be found.
pub open spec fn located(
    session_id: Seq<char>,
    root: Option<String>,
    candidate: Option<SessionCandidate>,
) -> Result<Seq<char>, HistoryFailure> {
    match root {
        None => Err(
            HistoryFailure::FormatUnsupported(
                "cannot determine projects root (no home directory)"@,
            ),
        ),
        Some(root) => match candidate {
            Some(candidate) => match candidate.contains {
                Ok(true) => Ok(candidate.path@),
                Ok(false) => Err(
                    HistoryFailure::Corrupt {
                        path: candidate.path@,
                        reason: "filename matches but no record references the session id"@,
                    },
                ),
                Err(error) => Err(error@),
            },
            None => Err(HistoryFailure::FileNotFound { session_id, root: root@ }),
        },
    }
}

/// Whether a record belongs to the main transcript: a user or assistant record
/// that is no sidechain, meta or replay record.
pub open spec fn is_transcript_record(record: JsonView) -> bool {
    let kind = string_field_or_empty(record, "type"@);
    &&& kind == "user"@ || kind == "assistant"@
    &&& bool_field(record, "isSidechain"@) != Some(true)
    &&& bool_field(record, "isMeta"@) != Some(true)
    &&& bool_field(record, "isReplay"@) != Some(true)
}

/// The records of the main transcript among decoded lines.
pub open spec fn transcript_records(outcomes: Seq<Result<JsonView, Seq<char>>>) -> Seq<JsonView>
    decreases outcomes.len(),
{
    if outcomes.len() == 0 {
        Seq::empty()
    } else {
        let before = transcript_records(outcomes.drop_last());
        match outcomes.last() {
            Ok(record) => if is_transcript_record(record) {
                before.push(record)
            } else {
                before
            },
            Err(_) => before,
        }
    }
}

/// The first session id among records.
pub open spec fn first_session_id(records: Seq<JsonView>) -> Option<Seq<char>>
    decreases records.len(),
{
    if records.len() == 0 {
        None
    } else {
        match first_session_id(records.drop_last()) {
            Some(id) => Some(id),
            None => string_field(records.last(), "sessionId"@),
        }
    }
}

/// What is wrong with the first line that is not JSON.
pub open spec fn first_bad_line(outcomes: Seq<Result<JsonView, Seq<char>>>) -> Option<Seq<char>>
    decreases outcomes.len(),
{
    if outcomes.len() == 0 {
        None
    } else {
        match first_bad_line(outcomes.drop_last()) {
            Some(reason) => Some(reason),
            None => match outcomes.last() {
                Err(message) => Some(
                    "line "@ + decimal(outcomes.len()) + " is not valid JSON: "@ + message,
                ),
                Ok(_) => None,
            },
        }
    }
}

/// What a record says.
#[derive(Debug, PartialEq, Eq)]
pub enum RecordContent {
    Text(String),
    Blocks(Vec<Json>),
    Nothing,
}

/// A record of the main transcript: who speaks, in which directory, and what.
#[derive(Debug, PartialEq, Eq)]
pub struct ClaudeRecord {
    pub role: String,
    pub worktree: String,
    pub content: RecordContent,
}

/// Model of [`RecordContent`].
pub enum ContentView {
    Text(Seq<char>),
    Blocks(Seq<JsonView>),
    Nothing,
}

/// Model of [`ClaudeRecord`].
pub struct RecordView {
    pub role: Seq<char>,
    pub worktree: Seq<char>,
    pub content: ContentView,
}

impl View for RecordContent {
    type V = ContentView;

    open spec fn view(&self) -> ContentView {
        match self {
            RecordContent::Text(text) => ContentView::Text(text@),
            RecordContent::Blocks(blocks) => ContentView::Blocks(json_views(blocks@)),
            RecordContent::Nothing => ContentView::Nothing,
        }
    }
}

impl View for ClaudeRecord {
    type V = RecordView;

    open spec fn view(&self) -> RecordView {
        RecordView { role: self.role@, worktree: self.worktree@, content: self.content@ }
    }
}

/// The models of records.
pub open spec fn record_views(records: Seq<ClaudeRecord>) -> Seq<RecordView> {
    records.map_values(|record: ClaudeRecord| record@)
}

/// What a JSON record says.
pub open spec fn record_of(record: JsonView) -> RecordView {
    RecordView {
        role: string_field_or_empty(record, "type"@),
        worktree: string_field_or_empty(record, "cwd"@),
        content: match field(record, "message"@) {
            Some(message) => match field(message, "content"@) {
                Some(JsonView::Text(text)) => ContentView::Text(text),
                Some(JsonView::Array(blocks)) => ContentView::Blocks(blocks),
                _ => ContentView::Nothing,
            },
            None => ContentView::Nothing,
        },
    }
}

/// A session taken apart: its id, the records of its main chain, and whether a
/// partial tail was dropped.
#[derive(Debug, PartialEq, Eq)]
pub struct ClaudeSession {
    pub session_id: String,
    pub records: Vec<ClaudeRecord>,
    pub partial_tail: bool,
}

/// Model of [`ClaudeSession`].
pub struct SessionView {
    pub session_id: Seq<char>,
    pub records: Seq<RecordView>,
    pub partial_tail: bool,
}

impl View for ClaudeSession {
    type V = SessionView;

    open spec fn view(&self) -> SessionView {
        SessionView {
            session_id: self.session_id@,
            records: record_views(self.records@),
            partial_tail: self.partial_tail,
        }
    }
}

/// The session that decoded lines are: the first bad line decides, then
/// whether a record carries the session id, then whether the chain has a root.
pub open spec fn session_of_lines(
    path: Seq<char>,
    outcomes: Seq<Result<JsonView, Seq<char>>>,
    partial_tail: bool,
) -> Result<SessionView, HistoryFailure> {
    let records = transcript_records(outcomes);
    match first_bad_line(outcomes) {
        Some(reason) => Err(HistoryFailure::Corrupt { path, reason }),
        None => match first_session_id(records) {
            None => Err(
                HistoryFailure::Corrupt {
                    path,
                    reason: "no user/assistant record carries a sessionId"@,
                },
            ),
            Some(session_id) => match chain_of(records) {
                None => Err(
                    HistoryFailure::Corrupt { path, reason: "parentUuid links form a cycle"@ },
                ),
                Some(chain) => Ok(
                    SessionView {
                        session_id,
                        records: chain.map_values(|record: JsonView| record_of(record)),
                        partial_tail,
                    },
                ),
            },
        },
    }
}

/// The model of a session that was taken apart or could not be.
pub open spec fn session_outcome(session: Result<ClaudeSession, NativeHistoryError>) -> Result<
    SessionView,
    HistoryFailure,
> {
    match session {
        Ok(session) => Ok(session@),
        Err(error) => Err(error@),
    }
}

proof fn lemma_first_bad_line_stays(outcomes: Seq<Result<JsonView, Seq<char>>>, seen: int)
    requires
        0 <= seen <= outcomes.len(),
        first_bad_line(outcomes.take(seen)) is Some,
    ensures
        first_bad_line(outcomes) == first_bad_line(outcomes.take(seen)),
    decreases outcomes.len(),
{
    if seen == outcomes.len() {
        assert(outcomes.take(seen) =~= outcomes);
    } else {
        assert(outcomes.drop_last().take(seen) =~= outcomes.take(seen));
        lemma_first_bad_line_stays(outcomes.drop_last(), seen);
    }
}

fn in_transcript(record: &Json) -> (kept: bool)
    ensures
        kept == is_transcript_record(record@),
{
    let kind = record.str_field_or_empty("type");
    if !same(&kind, "user") && !same(&kind, "assistant") {
        return false;
    }
    !is_set(record, "isSidechain") && !is_set(record, "isMeta") && !is_set(record, "isReplay")
}

fn is_set(record: &Json, key: &str) -> (set: bool)
    ensures
        set == (bool_field(record@, key@) == Some(true)),
{
    match record.flag_field(key) {
        Some(true) => true,
        _ => false,
    }
}

fn collect_records(path: &str, outcomes: Vec<Result<Json, String>>) -> (records: Result<
    Vec<Json>,
    NativeHistoryError,
>)
    ensures
        match records {
            Ok(records) => first_bad_line(outcome_views(outcomes@)) is None && json_views(records@)
                == transcript_records(outcome_views(outcomes@)),
            Err(error) => first_bad_line(outcome_views(outcomes@)) matches Some(reason) && error@
                == (HistoryFailure::Corrupt { path: path@, reason }),
        },
{
    let ghost all = outcome_views(outcomes@);
    let len: usize = outcomes.len();
    let mut records: Vec<Json> = Vec::new();
    let mut line: usize = 0;
    assert(json_views(records@) =~= Seq::empty());
    for outcome in it: outcomes
        invariant
            it.seq() == outcomes@,
            all == outcome_views(outcomes@),
            line == it.index(),
            len == outcomes@.len(),
            first_bad_line(all.take(line as int)) is None,
            json_views(records@) == transcript_records(all.take(line as int)),
    {
        let ghost seen = all.take(line + 1);
        proof {
            assert(seen.drop_last() =~= all.take(line as int));
            assert(seen.last() == outcome_view(outcome));
            if first_bad_line(seen) is Some {
                lemma_first_bad_line_stays(all, line + 1);
            }
        }
        match outcome {
            Err(message) => {
                let reason = invalid_json_reason("line ", line, &message);
                return Err(NativeHistoryError::corrupt(path, &reason));
            },
            Ok(record) => {
                if in_transcript(&record) {
                    let ghost before = records@;
                    records.push(record);
                    assert(json_views(records@) =~= json_views(before).push(record@));
                }
            },
        }
        line = line + 1;
    }
    assert(all.take(all.len() as int) =~= all);
    Ok(records)
}

fn find_session_id(records: &Vec<Json>) -> (id: Option<String>)
    ensures
        opt_view(id) == first_session_id(json_views(records@)),
{
    let mut found: Option<String> = None;
    let mut i: usize = 0;
    while i < records.len()
        invariant
            i <= records@.len(),
            opt_view(found) == first_session_id(json_views(records@).take(i as int)),
        decreases records@.len() - i,
    {
        proof {
            let seen = json_views(records@).take(i + 1);
            assert(seen.drop_last() =~= json_views(records@).take(i as int));
            assert(seen.last() == records@[i as int]@);
        }
        if found.is_none() {
            if let Some(id) = records[i].str_field("sessionId") {
                found = Some(id.clone());
            }
        }
        i = i + 1;
    }
    assert(json_views(records@).take(records@.len() as int) =~= json_views(records@));
    found
}

fn read_record(record: &Json) -> (read: ClaudeRecord)
    ensures
        read@ == record_of(record@),
{
    let content = match record.get("message") {
        Some(message) => match message.get("content") {
            Some(content) => match content.as_str() {
                Some(text) => RecordContent::Text(text.clone()),
                None => match content.as_array() {
                    Some(blocks) => RecordContent::Blocks(copy_all(blocks)),
                    None => RecordContent::Nothing,
                },
            },
            None => RecordContent::Nothing,
        },
        None => RecordContent::Nothing,
    };
    ClaudeRecord {
        role: record.str_field_or_empty("type"),
        worktree: record.str_field_or_empty("cwd"),
        content,
    }
}

fn read_records(chain: &Vec<Json>) -> (records: Vec<ClaudeRecord>)
    ensures
        record_views(records@) == json_views(chain@).map_values(
            |record: JsonView| record_of(record),
        ),
{
    let mut records: Vec<ClaudeRecord> = Vec::new();
    let mut i: usize = 0;
    while i < chain.len()
        invariant
            i <= chain@.len(),
            records@.len() == i,
            forall|k: int| 0 <= k < i ==> (#[trigger] records@[k])@ == record_of(chain@[k]@),
        decreases chain@.len() - i,
    {
        records.push(read_record(&chain[i]));
        i = i + 1;
    }
    assert(record_views(records@) =~= json_views(chain@).map_values(
        |record: JsonView| record_of(record),
    ));
    records
}

impl ClaudeNativeSessionHistory {
    /// Where a session is: `root` is the projects directory where a home
    /// directory is known, `candidate` the file that [`find_session_file`] finds.
    pub fn locate(session_id: &str, root: Option<String>, candidate: Option<SessionCandidate>) -> (path:
        Result<String, NativeHistoryError>)
        ensures
            match path {
                Ok(path) => located(session_id@, root, candidate) == Ok::<
                    Seq<char>,
                    HistoryFailure,
                >(path@),
                Err(error) => located(session_id@, root, candidate) == Err::<
                    Seq<char>,
                    HistoryFailure,
                >(error@),
            },
    {
        match root {
            None => Err(
                NativeHistoryError::FormatUnsupported(
                    "cannot determine projects root (no home directory)".to_owned(),
                ),
            ),
            Some(root) => match candidate {
                Some(candidate) => match candidate.contains {
                    Ok(true) => Ok(candidate.path),
                    Ok(false) => Err(
                        NativeHistoryError::corrupt(
                            &candidate.path,
                            "filename matches but no record references the session id",
                        ),
                    ),
                    Err(error) => Err(error),
                },
                None => Err(
                    NativeHistoryError::FileNotFound { session_id: session_id.to_owned(), root },
                ),
            },
        }
    }

    /// Takes the decoded lines of a session file apart.
    pub fn open_lines(path: &str, outcomes: Vec<Result<Json, String>>, partial_tail: bool) -> (session:
        Result<ClaudeSession, NativeHistoryError>)
        ensures
            session_outcome(session) == session_of_lines(
                path@,
                outcome_views(outcomes@),
                partial_tail,
            ),
    {
        let records = match collect_records(path, outcomes) {
            Ok(records) => records,
            Err(error) => {
                return Err(error);
            },
        };
        let session_id = match find_session_id(&records) {
            Some(session_id) => session_id,
            None => {
                return Err(
                    NativeHistoryError::corrupt(
                        path,
                        "no user/assistant record carries a sessionId",
                    ),
                );
            },
        };
        match main_chain(&records) {
            Some(chain) => Ok(
                ClaudeSession { session_id, records: read_records(&chain), partial_tail },
            ),
            None => Err(NativeHistoryError::corrupt(path, "parentUuid links form a cycle")),
        }
    }

    /// Takes the bytes of a session file apart. Its content blocks are then to
    /// be mapped one by one before [`Self::finish`].
    pub fn open(path: &str, bytes: Vec<u8>, tail: TailPolicy) -> (session: Result<
        ClaudeSession,
        NativeHistoryError,
    >)
        ensures
            session_outcome(session) == match jsonl_outcome(path@, bytes@, tail) {
                Ok(content) => session_of_lines(
                    path@,
                    line_outcomes(content.lines),
                    content.partial_tail,
                ),
                Err(failure) => Err(failure),
            },
    {
        match read_native_jsonl(path, bytes, tail) {
            Err(error) => Err(error),
            Ok(content) => {
                let outcomes = parse_lines(&content.lines);
                Self::open_lines(path, outcomes, content.partial_tail)
            },
        }
    }
}

// ---------------------------------------------------------------------------
// The mapping
// ---------------------------------------------------------------------------

/// A content block, as far as the mapping tells blocks apart. The value of a
/// tool result is normalized.
#[derive(Debug, PartialEq, Eq)]
pub enum ClaudeItem {
    Text { text: String },
    ToolUse { id: String },
    ToolResult { tool_use_id: String, result: ToolResult, is_error: Option<bool> },
    Other,
}

/// A content block: what it is, where it could be decoded, and the entry that
/// the live mapping makes of it, where it makes one.
#[derive(Debug, PartialEq, Eq)]
pub struct ClaudeBlock {
    pub item: Option<ClaudeItem>,
    pub mapped: Option<NormalizedEntry>,
}

/// What a turn says.
#[derive(Debug, PartialEq, Eq)]
pub enum TurnContent {
    Text(String),
    Blocks(Vec<ClaudeBlock>),
    Nothing,
}

/// A turn of the main chain, its blocks mapped.
#[derive(Debug, PartialEq, Eq)]
pub struct ClaudeTurn {
    pub role: String,
    pub content: TurnContent,
}

/// Model of [`ClaudeItem`].
pub enum ItemView {
    Text { text: Seq<char> },
    ToolUse { id: Seq<char> },
    ToolResult { tool_use_id: Seq<char>, result: ToolResultView, is_error: Option<bool> },
    Other,
}

/// Model of [`ClaudeBlock`].
pub struct BlockView {
    pub item: Option<ItemView>,
    pub mapped: Option<EntryView>,
}

/// Model of [`TurnContent`].
pub enum TurnContentView {
    Text(Seq<char>),
    Blocks(Seq<BlockView>),
    Nothing,
}

/// Model of [`ClaudeTurn`].
pub struct TurnView {
    pub role: Seq<char>,
    pub content: TurnContentView,
}

impl View for ClaudeItem {
    type V = ItemView;

    open spec fn view(&self) -> ItemView {
        match self {
            ClaudeItem::Text { text } => ItemView::Text { text: text@ },
            ClaudeItem::ToolUse { id } => ItemView::ToolUse { id: id@ },
            ClaudeItem::ToolResult { tool_use_id, result, is_error } => ItemView::ToolResult {
                tool_use_id: tool_use_id@,
                result: result@,
                is_error: *is_error,
            },
            ClaudeItem::Other => ItemView::Other,
        }
    }
}

impl View for ClaudeBlock {
    type V = BlockView;

    open spec fn view(&self) -> BlockView {
        BlockView {
            item: match self.item {
                Some(item) => Some(item@),
                None => None,
            },
            mapped: match self.mapped {
                Some(entry) => Some(entry@),
                None => None,
            },
        }
    }
}

/// The models of blocks.
pub open spec fn block_views(blocks: Seq<ClaudeBlock>) -> Seq<BlockView> {
    blocks.map_values(|block: ClaudeBlock| block@)
}

impl View for TurnContent {
    type V = TurnContentView;

    open spec fn view(&self) -> TurnContentView {
        match self {
            TurnContent::Text(text) => TurnContentView::Text(text@),
            TurnContent::Blocks(blocks) => TurnContentView::Blocks(block_views(blocks@)),
            TurnContent::Nothing => TurnContentView::Nothing,
        }
    }
}

impl View for ClaudeTurn {
    type V = TurnView;

    open spec fn view(&self) -> TurnView {
        TurnView { role: self.role@, content: self.content@ }
    }
}

/// The models of turns.
pub open spec fn turn_views(turns: Seq<ClaudeTurn>) -> Seq<TurnView> {
    turns.map_values(|turn: ClaudeTurn| turn@)
}

/// Whether the live mapping is asked about a block: not about text of the
/// user, tool results, and blocks that could not be decoded.
pub open spec fn asks_live_mapping(item: Option<ItemView>, role: Seq<char>) -> bool {
    match item {
        None => false,
        Some(ItemView::Text { .. }) => role != "user"@,
        Some(ItemView::ToolResult { .. }) => false,
        Some(_) => true,
    }
}

/// Whether the live mapping is to be asked about a block.
pub fn wants_live_mapping(item: &Option<ClaudeItem>, role: &str) -> (wanted: bool)
    ensures
        wanted == asks_live_mapping(
            match item {
                Some(item) => Some(item@),
                None => None,
            },
            role@,
        ),
{
    match item {
        None => false,
        Some(ClaudeItem::Text { .. }) => !same(role, "user"),
        Some(ClaudeItem::ToolResult { .. }) => false,
        Some(_) => true,
    }
}

/// The entries so far, and the calls among them that are still open.
pub struct Transcript {
    pub entries: Seq<EntryView>,
    pub open: Seq<SlotView>,
}

/// The text of a tool result.
pub open spec fn result_text(result: ToolResultView) -> Seq<char> {
    match result.value_type {
        ToolResultValueType::Markdown => match result.value {
            JsonView::Text(text) => text,
            _ => Seq::empty(),
        },
        ToolResultValueType::Json => pretty_text(result.value),
    }
}

/// An action with its result.
pub open spec fn action_with_result(action: ActionView, result: ToolResultView) -> ActionView {
    match action {
        ActionView::CommandRun { command, .. } => ActionView::CommandRun {
            command,
            result: Some(RunResultView { exit_status: None, output: Some(result_text(result)) }),
        },
        ActionView::Tool { tool_name, arguments, .. } => ActionView::Tool {
            tool_name,
            arguments,
            result: Some(result),
        },
        ActionView::TaskCreate { description, .. } => ActionView::TaskCreate {
            description,
            result: Some(result),
        },
        other => other,
    }
}

/// An entry with the result of its call; an entry that is no tool use stays as
/// it is.
pub open spec fn entry_with_result(entry: EntryView, result: ToolResultView, is_error: Option<bool>) -> EntryView {
    match entry.kind {
        EntryKind::ToolUse { tool_name, action, .. } => EntryView {
            kind: EntryKind::ToolUse {
                tool_name,
                action: action_with_result(action, result),
                status: if is_error == Some(true) {
                    ToolStatus::Failed
                } else {
                    ToolStatus::Success
                },
            },
            ..entry
        },
        _ => entry,
    }
}

/// A result: it completes the open call that it names; without one it is
/// dropped.
pub open spec fn result_step(
    before: Transcript,
    tool_use_id: Seq<char>,
    result: ToolResultView,
    is_error: Option<bool>,
) -> Transcript {
    match slot_index(before.open, tool_use_id) {
        Some(i) => {
            let position = before.open[i].position;
            Transcript {
                entries: before.entries.update(
                    position,
                    entry_with_result(before.entries[position], result, is_error),
                ),
                open: remove_slot(before.open, tool_use_id),
            }
        },
        None => before,
    }
}

/// One content block.
pub open spec fn block_step(before: Transcript, role: Seq<char>, block: BlockView) -> Transcript {
    match block.item {
        None => before,
        Some(ItemView::Text { text }) if role == "user"@ => Transcript {
            entries: push_nonempty(before.entries, EntryKind::UserMessage, text),
            ..before
        },
        Some(ItemView::ToolUse { id }) => match block.mapped {
            Some(entry) => Transcript {
                entries: before.entries.push(entry),
                open: insert_slot(before.open, id, before.entries.len() as int),
            },
            None => before,
        },
        Some(ItemView::ToolResult { tool_use_id, result, is_error }) => result_step(
            before,
            tool_use_id,
            result,
            is_error,
        ),
        Some(_) => match block.mapped {
            Some(entry) => Transcript { entries: before.entries.push(entry), ..before },
            None => before,
        },
    }
}

/// The blocks of a turn, one after the other.
pub open spec fn blocks_step(before: Transcript, role: Seq<char>, blocks: Seq<BlockView>) -> Transcript
    decreases blocks.len(),
{
    if blocks.len() == 0 {
        before
    } else {
        block_step(blocks_step(before, role, blocks.drop_last()), role, blocks.last())
    }
}

/// One turn.
pub open spec fn turn_step(before: Transcript, turn: TurnView) -> Transcript {
    match turn.content {
        TurnContentView::Text(text) => if turn.role == "user"@ {
            Transcript {
                entries: push_nonempty(before.entries, EntryKind::UserMessage, text),
                ..before
            }
        } else {
            before
        },
        TurnContentView::Blocks(blocks) => blocks_step(before, turn.role, blocks),
        TurnContentView::Nothing => before,
    }
}

/// What a sequence of turns leads to.
pub open spec fn transcript(turns: Seq<TurnView>) -> Transcript
    decreases turns.len(),
{
    if turns.len() == 0 {
        Transcript { entries: Seq::empty(), open: Seq::empty() }
    } else {
        turn_step(transcript(turns.drop_last()), turns.last())
    }
}

/// The conversation that a sequence of turns is. Tool uses without a result
/// never completed, so they have failed.
pub open spec fn turn_entries(turns: Seq<TurnView>) -> Seq<EntryView> {
    let end = transcript(turns);
    settled_entries(fail_open(end.entries, end.open))
}

/// Completes the open call that a result names.
pub fn apply_tool_result(
    out: &mut Vec<NormalizedEntry>,
    slots: &mut ToolSlots,
    tool_use_id: &String,
    result: ToolResult,
    is_error: Option<bool>,
)
    requires
        slots_fit(old(slots)@, old(out)@.len()),
    ensures
        (Transcript { entries: entry_views(final(out)@), open: final(slots)@ }) == result_step(
            Transcript { entries: entry_views(old(out)@), open: old(slots)@ },
            tool_use_id@,
            result@,
            is_error,
        ),
        slots_fit(final(slots)@, final(out)@.len()),
{
    let ghost open = slots@;
    proof {
        lemma_slot_index(open, tool_use_id@);
        if let Some(i) = slot_index(open, tool_use_id@) {
            assert(slots_fit(open.remove(i), out@.len())) by {
                assert forall|k: int| 0 <= k < open.remove(i).len() implies 0 <= (
                #[trigger] open.remove(i)[k]).position < out@.len() by {
                    assert(open.remove(i)[k] == open[if k < i {
                        k
                    } else {
                        k + 1
                    }]);
                }
            }
        }
    }
    if let Some(position) = slots.take(tool_use_id) {
        let ghost before = out@;
        let text = match result.value_type {
            ToolResultValueType::Markdown => match result.value.as_str() {
                Some(text) => text.clone(),
                None => String::new(),
            },
            ToolResultValueType::Json => print_pretty(&result.value),
        };
        let status = match is_error {
            Some(true) => ToolStatus::Failed,
            _ => ToolStatus::Success,
        };
        let entry = &mut out[position];
        if let NormalizedEntryType::ToolUse { action_type, status: current, .. } =
            &mut entry.entry_type {
            match action_type {
                ActionType::CommandRun { result: run_result, .. } => {
                    *run_result = Some(CommandRunResult { exit_status: None, output: Some(text) });
                },
                ActionType::Tool { result: tool_result, .. } => {
                    *tool_result = Some(result);
                },
                ActionType::TaskCreate { result: tool_result, .. } => {
                    *tool_result = Some(result);
                },
                _ => {},
            }
            *current = status;
        }
        proof {
            lemma_entry_views_update(before, position as int, out@[position as int]);
            assert(out@ =~= before.update(position as int, out@[position as int]));
        }
    }
}

/// Adds one content block to the conversation.
pub fn map_content_block(
    block: ClaudeBlock,
    role: &str,
    out: &mut Vec<NormalizedEntry>,
    slots: &mut ToolSlots,
)
    requires
        slots_fit(old(slots)@, old(out)@.len()),
    ensures
        (Transcript { entries: entry_views(final(out)@), open: final(slots)@ }) == block_step(
            Transcript { entries: entry_views(old(out)@), open: old(slots)@ },
            role@,
            block@,
        ),
        slots_fit(final(slots)@, final(out)@.len()),
{
    match block.item {
        None => {},
        Some(ClaudeItem::Text { text }) => {
            if same(role, "user") {
                push_entry_nonempty(out, NormalizedEntryType::UserMessage, text);
            } else if let Some(entry) = block.mapped {
                push_entry(out, entry);
            }
        },
        Some(ClaudeItem::ToolUse { id }) => {
            if let Some(entry) = block.mapped {
                let ghost before = slots@;
                let ghost wanted = id@;
                let position: usize = out.len();
                push_entry(out, entry);
                slots.insert(id, position);
                proof {
                    lemma_slot_index(before, wanted);
                    assert forall|k: int| 0 <= k < slots@.len() implies 0 <= (
                    #[trigger] slots@[k]).position < out@.len() by {
                        if k < slots@.len() - 1 {
                            match slot_index(before, wanted) {
                                Some(i) => {
                                    let from = if k < i {
                                        k
                                    } else {
                                        k + 1
                                    };
                                    assert(slots@[k] == before[from]);
                                },
                                None => {
                                    assert(slots@[k] == before[k]);
                                },
                            }
                        }
                    }
                }
            }
        },
        Some(ClaudeItem::ToolResult { tool_use_id, result, is_error }) => {
            apply_tool_result(out, slots, &tool_use_id, result, is_error);
        },
        Some(ClaudeItem::Other) => {
            if let Some(entry) = block.mapped {
                push_entry(out, entry);
            }
        },
    }
}

fn map_turn(turn: ClaudeTurn, out: &mut Vec<NormalizedEntry>, slots: &mut ToolSlots)
    requires
        slots_fit(old(slots)@, old(out)@.len()),
    ensures
        (Transcript { entries: entry_views(final(out)@), open: final(slots)@ }) == turn_step(
            Transcript { entries: entry_views(old(out)@), open: old(slots)@ },
            turn@,
        ),
        slots_fit(final(slots)@, final(out)@.len()),
{
    let role = turn.role;
    match turn.content {
        TurnContent::Text(text) => {
            if same(&role, "user") {
                push_entry_nonempty(out, NormalizedEntryType::UserMessage, text);
            }
        },
        TurnContent::Blocks(blocks) => {
            let ghost all = block_views(blocks@);
            let ghost before = Transcript { entries: entry_views(out@), open: slots@ };
            assert(all.take(0) =~= Seq::empty());
            for block in it: blocks
                invariant
                    it.seq() == blocks@,
                    all == block_views(blocks@),
                    (Transcript { entries: entry_views(out@), open: slots@ }) == blocks_step(
                        before,
                        role@,
                        all.take(it.index() as int),
                    ),
                    slots_fit(slots@, out@.len()),
            {
                proof {
                    let seen = all.take(it.index() + 1);
                    assert(seen.drop_last() =~= all.take(it.index() as int));
                    assert(seen.last() == block@);
                }
                map_content_block(block, &role, out, slots);
            }
            assert(all.take(all.len() as int) =~= all);
        },
        TurnContent::Nothing => {},
    }
}

/// The conversation that a sequence of turns is.
pub fn map_turns(turns: Vec<ClaudeTurn>) -> (entries: Vec<NormalizedEntry>)
    ensures
        entry_views(entries@) == turn_entries(turn_views(turns@)),
{
    let ghost all = turn_views(turns@);
    let mut out: Vec<NormalizedEntry> = Vec::new();
    let mut slots = ToolSlots::new();
    assert(entry_views(out@) =~= Seq::empty());
    for turn in it: turns
        invariant
            it.seq() == turns@,
            all == turn_views(turns@),
            (Transcript { entries: entry_views(out@), open: slots@ }) == transcript(
                all.take(it.index() as int),
            ),
            slots_fit(slots@, out@.len()),
    {
        proof {
            let seen = all.take(it.index() + 1);
            assert(seen.drop_last() =~= all.take(it.index() as int));
            assert(seen.last() == turn@);
        }
        map_turn(turn, &mut out, &mut slots);
    }
    assert(all.take(all.len() as int) =~= all);
    slots.fail_all(&mut out);
    settle(&mut out);
    out
}

/// The models of the mapped blocks of records.
pub open spec fn mapped_views(mapped: Seq<Vec<ClaudeBlock>>) -> Seq<Seq<BlockView>> {
    mapped.map_values(|blocks: Vec<ClaudeBlock>| block_views(blocks@))
}

/// The turn that a record is, with its blocks mapped.
pub open spec fn turn_of(record: RecordView, mapped: Seq<BlockView>) -> TurnView {
    TurnView {
        role: record.role,
        content: match record.content {
            ContentView::Text(text) => TurnContentView::Text(text),
            ContentView::Blocks(_) => TurnContentView::Blocks(mapped),
            ContentView::Nothing => TurnContentView::Nothing,
        },
    }
}

/// The turns that records are, each with its own mapped blocks. A record for
/// which none are given has none.
pub open spec fn turns_of(records: Seq<RecordView>, mapped: Seq<Seq<BlockView>>) -> Seq<TurnView> {
    Seq::new(
        records.len(),
        |i: int|
            turn_of(
                records[i],
                if i < mapped.len() {
                    mapped[i]
                } else {
                    Seq::empty()
                },
            ),
    )
}

fn make_turn(record: &ClaudeRecord, mapped: Vec<ClaudeBlock>) -> (turn: ClaudeTurn)
    ensures
        turn@ == turn_of(record@, block_views(mapped@)),
{
    ClaudeTurn {
        role: record.role.clone(),
        content: match &record.content {
            RecordContent::Text(text) => TurnContent::Text(text.clone()),
            RecordContent::Blocks(_) => TurnContent::Blocks(mapped),
            RecordContent::Nothing => TurnContent::Nothing,
        },
    }
}

/// Puts the mapped blocks of records, in the order of the records, into turns.
pub fn make_turns(records: &Vec<ClaudeRecord>, mapped: Vec<Vec<ClaudeBlock>>) -> (turns: Vec<
    ClaudeTurn,
>)
    ensures
        turn_views(turns@) == turns_of(record_views(records@), mapped_views(mapped@)),
{
    let ghost given = mapped@;
    let mut mapped = mapped;
    let mut turns: Vec<ClaudeTurn> = Vec::new();
    let mut i: usize = 0;
    while i < records.len()
        invariant
            i <= records@.len(),
            mapped@.len() == given.len(),
            forall|k: int| i <= k < given.len() ==> #[trigger] mapped@[k] == given[k],
            turn_views(turns@) =~= turns_of(record_views(records@), mapped_views(given)).take(
                i as int,
            ),
        decreases records@.len() - i,
    {
        let mut own: Vec<ClaudeBlock> = Vec::new();
        if i < mapped.len() {
            std::mem::swap(&mut own, &mut mapped[i]);
            assert(own@ == given[i as int]@);
            assert(mapped_views(given)[i as int] == block_views(own@));
        } else {
            assert(block_views(own@) =~= Seq::empty());
        }
        let turn = make_turn(&records[i], own);
        let ghost before = turns@;
        assert(record_views(records@)[i as int] == records@[i as int]@);
        turns.push(turn);
        assert(turn_views(turns@) =~= turn_views(before).push(turn@));
        i = i + 1;
    }
    turns
}

impl ClaudeNativeSessionHistory {
    /// The history of a session, from the mapped blocks of its records, in
    /// their order.
    pub fn finish(
        session: ClaudeSession,
        mapped: Vec<Vec<ClaudeBlock>>,
        fingerprint: FileFingerprint,
    ) -> (history: NativeSessionHistory)
        ensures
            history@ == (HistoryView {
                agent: BaseCodingAgent::ClaudeCode,
                session_id: session.session_id@,
                entries: turn_entries(
                    turns_of(record_views(session.records@), mapped_views(mapped@)),
                ),
                fingerprint,
                partial_tail: session.partial_tail,
            }),
    {
        let turns = make_turns(&session.records, mapped);
        NativeSessionHistory {
            agent: BaseCodingAgent::ClaudeCode,
            session_id: session.session_id,
            entries: map_turns(turns),
            fingerprint,
            partial_tail: session.partial_tail,
        }
    }
}

// ---------------------------------------------------------------------------
// Laws of the mapping
// ---------------------------------------------------------------------------

/// No conversation shows a tool call as still running: each has succeeded or
/// failed, whatever its id, those without a result having failed.
pub proof fn law_every_call_has_an_outcome(turns: Seq<TurnView>)
    ensures
        forall|k: int|
            0 <= k < turn_entries(turns).len() ==> !is_created(#[trigger] turn_entries(turns)[k]),
{
    let end = transcript(turns);
    lemma_settled_entries(fail_open(end.entries, end.open));
}

/// A content block of a turn, with the role of the turn.
pub struct TurnPart {
    pub role: Seq<char>,
    pub block: BlockView,
}

/// The content blocks of a turn. A plain text is one text block, of which the
/// live mapping is not asked.
pub open spec fn turn_parts(turn: TurnView) -> Seq<TurnPart> {
    match turn.content {
        TurnContentView::Text(text) => seq![
            TurnPart {
                role: turn.role,
                block: BlockView { item: Some(ItemView::Text { text }), mapped: None },
            },
        ],
        TurnContentView::Blocks(blocks) => blocks.map_values(
            |block: BlockView| TurnPart { role: turn.role, block },
        ),
        TurnContentView::Nothing => Seq::empty(),
    }
}

/// The content blocks of turns, one after the other.
pub open spec fn session_parts(turns: Seq<TurnView>) -> Seq<TurnPart>
    decreases turns.len(),
{
    if turns.len() == 0 {
        Seq::empty()
    } else {
        session_parts(turns.drop_last()) + turn_parts(turns.last())
    }
}

/// Whether a content block has an entry of its own: a text of the user that is
/// not empty, or anything that was mapped to one and is no tool result.
pub open spec fn stands_alone(part: TurnPart) -> bool {
    match part.block.item {
        None => false,
        Some(ItemView::ToolResult { .. }) => false,
        Some(ItemView::Text { text }) => if part.role == "user"@ {
            text.len() > 0
        } else {
            part.block.mapped is Some
        },
        Some(_) => part.block.mapped is Some,
    }
}

/// How many of the first `to` content blocks have an entry of their own.
pub open spec fn shown_before(parts: Seq<TurnPart>, to: int) -> int
    decreases to,
{
    if to <= 0 {
        0
    } else if stands_alone(parts[to - 1]) {
        shown_before(parts, to - 1) + 1
    } else {
        shown_before(parts, to - 1)
    }
}

/// Whether a content block is a shown tool use with an id.
pub open spec fn uses_tool(part: TurnPart, id: Seq<char>) -> bool {
    part.block.item == Some(ItemView::ToolUse { id }) && part.block.mapped is Some
}

/// Whether a content block is the result of the tool use with an id.
pub open spec fn answers(part: TurnPart, id: Seq<char>) -> bool {
    part.block.item matches Some(ItemView::ToolResult { tool_use_id, .. }) && tool_use_id == id
}

/// Whether no content block from `from` up to but not including `to` uses a
/// tool under an id, or is its result.
pub open spec fn nothing_said(parts: Seq<TurnPart>, id: Seq<char>, from: int, to: int) -> bool {
    forall|k: int| from <= k < to ==> !uses_tool(#[trigger] parts[k], id) && !answers(parts[k], id)
}

spec fn part_of(part: TurnPart) -> Part<(), (ToolResultView, Option<bool>)> {
    match part.block.item {
        None => Part::Hidden,
        Some(ItemView::Text { text }) if part.role == "user"@ => if text.len() == 0 {
            Part::Hidden
        } else {
            Part::Shown { entry: plain_entry(EntryKind::UserMessage, text) }
        },
        Some(ItemView::ToolUse { id }) => match part.block.mapped {
            Some(entry) => Part::Call { id, entry, call: () },
            None => Part::Hidden,
        },
        Some(ItemView::ToolResult { tool_use_id, result, is_error }) => Part::Answer {
            id: tool_use_id,
            answer: (result, is_error),
        },
        Some(_) => match part.block.mapped {
            Some(entry) => Part::Shown { entry },
            None => Part::Hidden,
        },
    }
}

spec fn parts_of(parts: Seq<TurnPart>) -> Seq<Part<(), (ToolResultView, Option<bool>)>> {
    parts.map_values(|part: TurnPart| part_of(part))
}

spec fn completion() -> spec_fn(EntryView, (), (ToolResultView, Option<bool>)) -> EntryView {
    |entry: EntryView, call: (), answer: (ToolResultView, Option<bool>)|
        entry_with_result(entry, answer.0, answer.1)
}

/// Whether a state of the mapping is what the replay of parts gives.
spec fn is_replay_of(state: Transcript, parts: Seq<TurnPart>) -> bool {
    let replayed = replay(parts_of(parts), completion());
    state.entries == replayed.entries && tracks(state.open, replayed.open)
}

proof fn lemma_block_replayed(before: Transcript, parts: Seq<TurnPart>, part: TurnPart)
    requires
        is_replay_of(before, parts),
    ensures
        is_replay_of(block_step(before, part.role, part.block), parts.push(part)),
{
    let all = parts_of(parts.push(part));
    let state = replay(parts_of(parts), completion());
    assert(all.drop_last() =~= parts_of(parts));
    match all.last() {
        Part::Call { id, call, .. } => {
            lemma_tracks_insert(before.open, state.open, id, before.entries.len() as int, call);
        },
        Part::Answer { id, .. } => {
            lemma_tracks_find(before.open, state.open, id);
            lemma_tracks_remove(before.open, state.open, id);
        },
        _ => {},
    }
}

proof fn lemma_blocks_replayed(
    before: Transcript,
    parts: Seq<TurnPart>,
    role: Seq<char>,
    blocks: Seq<BlockView>,
)
    requires
        is_replay_of(before, parts),
    ensures
        is_replay_of(
            blocks_step(before, role, blocks),
            parts + blocks.map_values(|block: BlockView| TurnPart { role, block }),
        ),
    decreases blocks.len(),
{
    let own = blocks.map_values(|block: BlockView| TurnPart { role, block });
    if blocks.len() == 0 {
        assert(parts + own =~= parts);
    } else {
        let rest = blocks.drop_last();
        let shorter = rest.map_values(|block: BlockView| TurnPart { role, block });
        let part = TurnPart { role, block: blocks.last() };
        lemma_blocks_replayed(before, parts, role, rest);
        lemma_block_replayed(blocks_step(before, role, rest), parts + shorter, part);
        assert((parts + shorter).push(part) =~= parts + own);
    }
}

proof fn lemma_replayed(turns: Seq<TurnView>)
    ensures
        is_replay_of(transcript(turns), session_parts(turns)),
    decreases turns.len(),
{
    if turns.len() == 0 {
        assert(parts_of(session_parts(turns)) =~= Seq::empty());
    } else {
        let before = transcript(turns.drop_last());
        let parts = session_parts(turns.drop_last());
        let turn = turns.last();
        lemma_replayed(turns.drop_last());
        match turn.content {
            TurnContentView::Text(text) => {
                let part = turn_parts(turn)[0];
                lemma_block_replayed(before, parts, part);
                assert(parts.push(part) =~= parts + turn_parts(turn));
            },
            TurnContentView::Blocks(blocks) => {
                lemma_blocks_replayed(before, parts, turn.role, blocks);
            },
            TurnContentView::Nothing => {
                assert(parts + turn_parts(turn) =~= parts);
            },
        }
    }
}

proof fn lemma_places(parts: Seq<TurnPart>, to: int)
    requires
        0 <= to <= parts.len(),
    ensures
        shown_before(parts, to) == entries_before(parts_of(parts), to),
    decreases to,
{
    if to > 0 {
        lemma_places(parts, to - 1);
    }
}

/// Closing the open calls touches their entries only, and fails each.
proof fn lemma_closed(entries: Seq<EntryView>, slots: Seq<SlotView>)
    requires
        slots_fit(slots, entries.len()),
    ensures
        fail_open(entries, slots).len() == entries.len(),
        forall|k: int|
            0 <= k < entries.len() ==> (#[trigger] fail_open(entries, slots)[k]) == entries[k] || (
            fail_open(entries, slots)[k] == with_status(entries[k], ToolStatus::Failed) && exists|
                i: int,
            |
                0 <= i < slots.len() && (#[trigger] slots[i]).position == k),
        forall|i: int|
            0 <= i < slots.len() ==> fail_open(entries, slots)[(#[trigger] slots[i]).position]
                == with_status(entries[slots[i].position], ToolStatus::Failed),
    decreases slots.len(),
{
    if slots.len() > 0 {
        let rest = slots.drop_last();
        assert(forall|i: int| 0 <= i < rest.len() ==> rest[i] == #[trigger] slots[i]);
        assert(slots_fit(rest, entries.len()));
        lemma_closed(entries, rest);
        let before = fail_open(entries, rest);
        let after = fail_open(entries, slots);
        let last = slots[slots.len() - 1].position;
        assert(0 <= last < entries.len());
        assert forall|k: int| 0 <= k < entries.len() implies (#[trigger] after[k]) == entries[k] || (
        after[k] == with_status(entries[k], ToolStatus::Failed) && exists|i: int|
            0 <= i < slots.len() && (#[trigger] slots[i]).position == k) by {
            if k == last {
                assert(slots[slots.len() - 1].position == k);
                assert(before[k] == entries[k] || before[k] == with_status(
                    entries[k],
                    ToolStatus::Failed,
                ));
            } else {
                assert(after[k] == before[k]);
                if before[k] != entries[k] {
                    let i = choose|i: int|
                        0 <= i < rest.len() && (#[trigger] rest[i]).position == k;
                    assert(slots[i].position == k);
                }
            }
        }
        assert forall|i: int| 0 <= i < slots.len() implies after[(#[trigger] slots[i]).position]
            == with_status(entries[slots[i].position], ToolStatus::Failed) by {
            let k = slots[i].position;
            if i < rest.len() {
                assert(rest[i] == slots[i]);
                assert(before[k] == with_status(entries[k], ToolStatus::Failed));
            } else {
                assert(before[k] == entries[k] || before[k] == with_status(
                    entries[k],
                    ToolStatus::Failed,
                ));
            }
        }
    }
}

proof fn lemma_entries_fit(parts: Seq<TurnPart>, state: Transcript)
    requires
        is_replay_of(state, parts),
    ensures
        slots_fit(state.open, state.entries.len()),
{
    let replayed = replay(parts_of(parts), completion());
    lemma_waiting_fit(parts_of(parts), completion());
    assert forall|k: int| 0 <= k < state.open.len() implies 0 <= (#[trigger] state.open[k]).position
        < state.entries.len() by {
        assert(replayed.open.contains_key(state.open[k].id));
    }
}

/// What is done is shown as it is, but for a call that still runs.
proof fn lemma_done_is_shown(turns: Seq<TurnView>, position: int)
    requires
        ({
            let end = replay(parts_of(session_parts(turns)), completion());
            0 <= position < end.entries.len() && is_done(end, position)
        }),
    ensures
        0 <= position < turn_entries(turns).len(),
        turn_entries(turns)[position] == settled(
            replay(parts_of(session_parts(turns)), completion()).entries[position],
        ),
{
    lemma_replayed(turns);
    let state = transcript(turns);
    let end = replay(parts_of(session_parts(turns)), completion());
    lemma_entries_fit(session_parts(turns), state);
    lemma_closed(state.entries, state.open);
    let closed = fail_open(state.entries, state.open);
    if closed[position] != state.entries[position] {
        let i = choose|i: int| 0 <= i < state.open.len() && (#[trigger] state.open[i]).position
            == position;
        assert(end.open.contains_key(state.open[i].id));
    }
}

proof fn lemma_part_is_shown(turns: Seq<TurnView>, at: int)
    requires
        0 <= at < session_parts(turns).len(),
        part_of(session_parts(turns)[at]) is Shown,
    ensures
        0 <= shown_before(session_parts(turns), at) < turn_entries(turns).len(),
        turn_entries(turns)[shown_before(session_parts(turns), at)] == settled(
            part_of(session_parts(turns)[at])->Shown_entry,
        ),
{
    let parts = session_parts(turns);
    lemma_places(parts, at);
    lemma_shown(parts_of(parts), at, completion());
    lemma_done_is_shown(turns, shown_before(parts, at));
}

/// A conversation has one entry for each content block that is shown, in their
/// order, and no other.
pub proof fn law_each_shown_block_has_one_entry(turns: Seq<TurnView>)
    ensures
        turn_entries(turns).len() == shown_before(
            session_parts(turns),
            session_parts(turns).len() as int,
        ),
{
    let parts = session_parts(turns);
    lemma_replayed(turns);
    lemma_entries_fit(parts, transcript(turns));
    lemma_closed(transcript(turns).entries, transcript(turns).open);
    lemma_places(parts, parts.len() as int);
    lemma_entry_count(parts_of(parts), completion());
}

/// What the user said is shown: every text of a user turn that is not empty,
/// plain or in a block, is shown at its place as a message of the user.
pub proof fn law_texts_of_the_user_are_shown(turns: Seq<TurnView>, at: int, text: Seq<char>)
    requires
        0 <= at < session_parts(turns).len(),
        session_parts(turns)[at].role == "user"@,
        session_parts(turns)[at].block.item == Some(ItemView::Text { text }),
        text.len() > 0,
    ensures
        0 <= shown_before(session_parts(turns), at) < turn_entries(turns).len(),
        turn_entries(turns)[shown_before(session_parts(turns), at)] == (EntryView {
            timestamp: None,
            kind: EntryKind::UserMessage,
            content: text,
            metadata: None,
        }),
{
    lemma_part_is_shown(turns, at);
}

/// A conversation up to a text of the user ends with that text: as a turn of
/// its own, and as the last block of a turn.
pub proof fn law_conversation_ends_with_the_users_text(
    turns: Seq<TurnView>,
    blocks: Seq<BlockView>,
    mapped: Option<EntryView>,
    text: Seq<char>,
)
    requires
        text.len() > 0,
    ensures
        ({
            let turn = TurnView { role: "user"@, content: TurnContentView::Text(text) };
            let entries = turn_entries(turns.push(turn));
            &&& entries.len() > 0
            &&& entries.last() == (EntryView {
                timestamp: None,
                kind: EntryKind::UserMessage,
                content: text,
                metadata: None,
            })
        }),
        ({
            let block = BlockView { item: Some(ItemView::Text { text }), mapped };
            let turn = TurnView {
                role: "user"@,
                content: TurnContentView::Blocks(blocks.push(block)),
            };
            let entries = turn_entries(turns.push(turn));
            &&& entries.len() > 0
            &&& entries.last() == (EntryView {
                timestamp: None,
                kind: EntryKind::UserMessage,
                content: text,
                metadata: None,
            })
        }),
{
    let plain = turns.push(TurnView { role: "user"@, content: TurnContentView::Text(text) });
    lemma_last_text(turns, plain.last(), text);
    let block = BlockView { item: Some(ItemView::Text { text }), mapped };
    let turn = TurnView { role: "user"@, content: TurnContentView::Blocks(blocks.push(block)) };
    lemma_last_text(turns, turn, text);
}

proof fn lemma_last_text(turns: Seq<TurnView>, turn: TurnView, text: Seq<char>)
    requires
        text.len() > 0,
        turn_parts(turn).len() > 0,
        turn_parts(turn).last().role == "user"@,
        turn_parts(turn).last().block.item == Some(ItemView::Text { text }),
    ensures
        turn_entries(turns.push(turn)).len() > 0,
        turn_entries(turns.push(turn)).last() == plain_entry(EntryKind::UserMessage, text),
{
    let all = turns.push(turn);
    assert(all.drop_last() =~= turns);
    let parts = session_parts(all);
    assert(parts == session_parts(turns) + turn_parts(turn));
    law_texts_of_the_user_are_shown(all, parts.len() - 1, text);
    law_each_shown_block_has_one_entry(all);
}

/// The texts of the user among content blocks, without the empty ones.
pub open spec fn user_texts(parts: Seq<TurnPart>) -> Seq<Seq<char>>
    decreases parts.len(),
{
    if parts.len() == 0 {
        Seq::empty()
    } else {
        let before = user_texts(parts.drop_last());
        match parts.last().block.item {
            Some(ItemView::Text { text }) if parts.last().role == "user"@ && text.len() > 0 =>
                before.push(text),
            _ => before,
        }
    }
}

/// The contents of the messages of the user among entries.
pub open spec fn user_messages(entries: Seq<EntryView>) -> Seq<Seq<char>>
    decreases entries.len(),
{
    if entries.len() == 0 {
        Seq::empty()
    } else {
        let before = user_messages(entries.drop_last());
        if entries.last().kind is UserMessage {
            before.push(entries.last().content)
        } else {
            before
        }
    }
}

proof fn lemma_same_messages(left: Seq<EntryView>, right: Seq<EntryView>)
    requires
        left.len() == right.len(),
        forall|k: int|
            0 <= k < left.len() ==> (#[trigger] left[k].kind is UserMessage) == (
            right[k].kind is UserMessage) && left[k].content == right[k].content,
    ensures
        user_messages(left) == user_messages(right),
    decreases left.len(),
{
    if left.len() > 0 {
        let shorter = left.drop_last();
        let other = right.drop_last();
        assert forall|k: int| 0 <= k < shorter.len() implies (
        #[trigger] shorter[k].kind is UserMessage) == (other[k].kind is UserMessage)
            && shorter[k].content == other[k].content by {
            assert(left[k].kind is UserMessage == right[k].kind is UserMessage);
        }
        lemma_same_messages(shorter, other);
        let last = left.len() - 1;
        assert(left[last].kind is UserMessage == right[last].kind is UserMessage);
    }
}

proof fn lemma_replayed_messages(parts: Seq<TurnPart>)
    requires
        forall|k: int|
            0 <= k < parts.len() ==> ((#[trigger] parts[k]).block.mapped matches Some(entry)
                ==> !(entry.kind is UserMessage)),
    ensures
        user_messages(replay(parts_of(parts), completion()).entries) == user_texts(parts),
    decreases parts.len(),
{
    let all = parts_of(parts);
    if parts.len() > 0 {
        let rest = parts.drop_last();
        assert forall|k: int| 0 <= k < rest.len() implies ((
        #[trigger] rest[k]).block.mapped matches Some(entry) ==> !(entry.kind is UserMessage)) by {
            assert(rest[k] == parts[k]);
        }
        lemma_replayed_messages(rest);
        assert(all.drop_last() =~= parts_of(rest));
        let before = replay(parts_of(rest), completion());
        let after = replay(all, completion());
        let part = parts[parts.len() - 1];
        assert(part.block.mapped matches Some(entry) ==> !(entry.kind is UserMessage));
        match all.last() {
            Part::Shown { entry } => {
                assert(after.entries.drop_last() =~= before.entries);
            },
            Part::Call { entry, .. } => {
                assert(after.entries.drop_last() =~= before.entries);
            },
            Part::Answer { id, .. } => {
                if before.open.contains_key(id) {
                    lemma_waiting_fit(parts_of(rest), completion());
                    let position = before.open[id].0;
                    lemma_same_messages(after.entries, before.entries);
                }
            },
            Part::Hidden => {},
        }
    } else {
        assert(all =~= Seq::empty());
    }
}

/// The messages of the user in a conversation are, in order, exactly the texts
/// of the user turns that are not empty, where the live mapping makes none.
pub proof fn law_user_messages_are_the_users_texts(turns: Seq<TurnView>)
    requires
        forall|k: int|
            0 <= k < session_parts(turns).len() ==> ((#[trigger] session_parts(
                turns,
            )[k]).block.mapped matches Some(entry) ==> !(entry.kind is UserMessage)),
    ensures
        user_messages(turn_entries(turns)) == user_texts(session_parts(turns)),
{
    let parts = session_parts(turns);
    let state = transcript(turns);
    lemma_replayed(turns);
    lemma_replayed_messages(parts);
    lemma_entries_fit(parts, state);
    lemma_closed(state.entries, state.open);
    let closed = fail_open(state.entries, state.open);
    assert forall|k: int| 0 <= k < turn_entries(turns).len() implies (#[trigger] turn_entries(
        turns,
    )[k].kind is UserMessage) == (state.entries[k].kind is UserMessage) && turn_entries(
        turns,
    )[k].content == state.entries[k].content by {
        assert(closed[k] == state.entries[k] || closed[k] == with_status(
            state.entries[k],
            ToolStatus::Failed,
        ));
    }
    lemma_same_messages(turn_entries(turns), state.entries);
}

/// What the live mapping shows is shown: the entry of any block but a text of
/// the user, a tool use and a tool result stands at the block's place as it is.
pub proof fn law_mapped_blocks_are_shown(turns: Seq<TurnView>, at: int, entry: EntryView)
    requires
        0 <= at < session_parts(turns).len(),
        session_parts(turns)[at].block.mapped == Some(entry),
        match session_parts(turns)[at].block.item {
            Some(ItemView::Text { .. }) => session_parts(turns)[at].role != "user"@,
            Some(ItemView::Other) => true,
            _ => false,
        },
        !(entry.kind matches EntryKind::ToolUse { status, .. } && status == ToolStatus::Created),
    ensures
        0 <= shown_before(session_parts(turns), at) < turn_entries(turns).len(),
        turn_entries(turns)[shown_before(session_parts(turns), at)] == entry,
{
    lemma_part_is_shown(turns, at);
}

proof fn lemma_silent(parts: Seq<TurnPart>, id: Seq<char>, from: int, to: int)
    requires
        0 <= from,
        to <= parts.len(),
        nothing_said(parts, id, from, to),
    ensures
        is_silent(parts_of(parts), id, from, to),
{
    assert forall|k: int| from <= k < to implies !speaks_of(#[trigger] parts_of(parts)[k], id) by {
        assert(!uses_tool(parts[k], id) && !answers(parts[k], id));
    }
}

/// A tool use whose result is on record, with nothing else under its id in
/// between, is shown with that result: failed exactly where the result is an
/// error, with the text of the result as the output of a command, and with the
/// result itself for other tools and tasks. The tool, what it was asked and the
/// content stay as they were.
pub proof fn law_answered_tool_use(
    turns: Seq<TurnView>,
    at: int,
    answer: int,
    id: Seq<char>,
    entry: EntryView,
    name: Seq<char>,
    asked: ActionView,
    status: ToolStatus,
    result: ToolResultView,
    is_error: Option<bool>,
)
    requires
        0 <= at < answer < session_parts(turns).len(),
        session_parts(turns)[at].block == (BlockView {
            item: Some(ItemView::ToolUse { id }),
            mapped: Some(entry),
        }),
        entry.kind == (EntryKind::ToolUse { tool_name: name, action: asked, status }),
        session_parts(turns)[answer].block.item == Some(
            ItemView::ToolResult { tool_use_id: id, result, is_error },
        ),
        nothing_said(session_parts(turns), id, at + 1, answer),
    ensures
        0 <= shown_before(session_parts(turns), at) < turn_entries(turns).len(),
        ({
            let shown = turn_entries(turns)[shown_before(session_parts(turns), at)];
            &&& shown.content == entry.content
            &&& shown.timestamp == entry.timestamp
            &&& shown.metadata == entry.metadata
            &&& shown.kind matches EntryKind::ToolUse { tool_name, action, status: outcome }
            &&& tool_name == name
            &&& is_error == Some(true) ==> outcome == ToolStatus::Failed
            &&& is_error != Some(true) ==> outcome == ToolStatus::Success
            &&& match asked {
                ActionView::CommandRun { command, .. } => action == (ActionView::CommandRun {
                    command,
                    result: Some(
                        RunResultView {
                            exit_status: None,
                            output: Some(
                                match (result.value_type, result.value) {
                                    (ToolResultValueType::Json, value) => pretty_text(value),
                                    (_, JsonView::Text(text)) => text,
                                    _ => Seq::empty(),
                                },
                            ),
                        },
                    ),
                }),
                ActionView::Tool { tool_name, arguments, .. } => action == (ActionView::Tool {
                    tool_name,
                    arguments,
                    result: Some(result),
                }),
                ActionView::TaskCreate { description, .. } => action == (ActionView::TaskCreate {
                    description,
                    result: Some(result),
                }),
                other => action == other,
            }
        }),
{
    let parts = session_parts(turns);
    lemma_places(parts, at);
    lemma_silent(parts, id, at + 1, answer);
    lemma_answered(parts_of(parts), at, answer, completion());
    lemma_done_is_shown(turns, shown_before(parts, at));
}

/// A tool use without a result is shown as failed, and otherwise as the live
/// mapping shows it.
pub proof fn law_unanswered_tool_use_has_failed(
    turns: Seq<TurnView>,
    at: int,
    id: Seq<char>,
    entry: EntryView,
    name: Seq<char>,
    asked: ActionView,
    status: ToolStatus,
)
    requires
        0 <= at < session_parts(turns).len(),
        session_parts(turns)[at].block == (BlockView {
            item: Some(ItemView::ToolUse { id }),
            mapped: Some(entry),
        }),
        entry.kind == (EntryKind::ToolUse { tool_name: name, action: asked, status }),
        nothing_said(session_parts(turns), id, at + 1, session_parts(turns).len() as int),
    ensures
        0 <= shown_before(session_parts(turns), at) < turn_entries(turns).len(),
        turn_entries(turns)[shown_before(session_parts(turns), at)] == (EntryView {
            kind: EntryKind::ToolUse {
                tool_name: name,
                action: asked,
                status: ToolStatus::Failed,
            },
            ..entry
        }),
{
    let parts = session_parts(turns);
    lemma_places(parts, at);
    lemma_silent(parts, id, at + 1, parts.len() as int);
    lemma_unanswered(parts_of(parts), at, completion());
    lemma_replayed(turns);
    let state = transcript(turns);
    let position = shown_before(parts, at);
    lemma_tracks_find(state.open, replay(parts_of(parts), completion()).open, id);
    lemma_entries_fit(parts, state);
    lemma_closed(state.entries, state.open);
    let i = slot_index(state.open, id)->0;
    assert(state.open[i].position == position);
}

/// A tool use whose id is used again before its result comes keeps the entry
/// that the live mapping gave it, and has failed where that still runs.
pub proof fn law_superseded_tool_use(
    turns: Seq<TurnView>,
    at: int,
    again: int,
    id: Seq<char>,
    entry: EntryView,
)
    requires
        0 <= at < again < session_parts(turns).len(),
        session_parts(turns)[at].block == (BlockView {
            item: Some(ItemView::ToolUse { id }),
            mapped: Some(entry),
        }),
        uses_tool(session_parts(turns)[again], id),
        nothing_said(session_parts(turns), id, at + 1, again),
    ensures
        0 <= shown_before(session_parts(turns), at) < turn_entries(turns).len(),
        ({
            let shown = turn_entries(turns)[shown_before(session_parts(turns), at)];
            match entry.kind {
                EntryKind::ToolUse { tool_name, action, status: ToolStatus::Created } => shown == (
                EntryView {
                    kind: EntryKind::ToolUse { tool_name, action, status: ToolStatus::Failed },
                    ..entry
                }),
                _ => shown == entry,
            }
        }),
{
    let parts = session_parts(turns);
    lemma_places(parts, at);
    lemma_silent(parts, id, at + 1, again);
    lemma_superseded(parts_of(parts), at, again, completion());
    lemma_done_is_shown(turns, shown_before(parts, at));
}

/// The live mapping is asked of everything that it shows: of every decoded
/// block but the texts of the user and tool results.
pub proof fn law_live_mapping_is_asked_of_what_it_shows(part: TurnPart)
    requires
        part.block.mapped is Some ==> asks_live_mapping(part.block.item, part.role),
    ensures
        part.block.mapped is Some ==> stands_alone(part),
        part.block.item == Some(ItemView::Other) ==> asks_live_mapping(
            part.block.item,
            part.role,
        ),
        part.block.item matches Some(ItemView::ToolUse { .. }) ==> asks_live_mapping(
            part.block.item,
            part.role,
        ),
        part.block.item matches Some(ItemView::Text { .. }) ==> (asks_live_mapping(
            part.block.item,
            part.role,
        ) <==> part.role != "user"@),
{
}

proof fn lemma_last_with(records: Seq<JsonView>, uuid: Seq<char>)
    ensures
        match last_with_uuid(records, uuid) {
            Some(i) => 0 <= i < records.len() && string_field(records[i], "uuid"@) == Some(uuid)
                && forall|k: int|
                i < k < records.len() ==> string_field(#[trigger] records[k], "uuid"@) != Some(
                    uuid,
                ),
            None => forall|k: int|
                0 <= k < records.len() ==> string_field(#[trigger] records[k], "uuid"@) != Some(
                    uuid,
                ),
        },
    decreases records.len(),
{
    if records.len() > 0 {
        let rest = records.drop_last();
        lemma_last_with(rest, uuid);
        assert(forall|k: int| 0 <= k < rest.len() ==> #[trigger] records[k] == rest[k]);
    }
}

proof fn lemma_leaf_is_last(records: Seq<JsonView>)
    ensures
        match leaf_of(records) {
            Some(i) => 0 <= i < records.len() && string_field(records[i], "uuid"@) is Some
                && forall|k: int|
                i < k < records.len() ==> string_field(#[trigger] records[k], "uuid"@) is None,
            None => forall|k: int|
                0 <= k < records.len() ==> string_field(#[trigger] records[k], "uuid"@) is None,
        },
    decreases records.len(),
{
    if records.len() > 0 {
        let rest = records.drop_last();
        lemma_leaf_is_last(rest);
        assert(forall|k: int| 0 <= k < rest.len() ==> #[trigger] records[k] == rest[k]);
    }
}

/// Whether positions are those of a main chain: they end at the last record
/// that has a uuid, each further record names the uuid of the one before it as
/// its parent, where it is the last with that uuid, and the first names no
/// parent that is there.
pub open spec fn is_main_path(records: Seq<JsonView>, path: Seq<int>) -> bool {
    &&& path.len() > 0
    &&& forall|k: int| 0 <= k < path.len() ==> 0 <= #[trigger] path[k] < records.len()
    &&& string_field(records[path.last()], "uuid"@) is Some
    &&& forall|k: int|
        path.last() < k < records.len() ==> string_field(#[trigger] records[k], "uuid"@) is None
    &&& forall|k: int|
        0 < k < path.len() ==> string_field(records[#[trigger] path[k]], "parentUuid"@) is Some
            && string_field(records[path[k]], "parentUuid"@) == string_field(
            records[path[k - 1]],
            "uuid"@,
        )
    &&& forall|k: int, later: int|
        0 <= k < path.len() - 1 && #[trigger] path[k] < later < records.len() ==> string_field(
            #[trigger] records[later],
            "uuid"@,
        ) != string_field(records[path[k]], "uuid"@)
    &&& forall|k: int|
        0 <= k < records.len() && string_field(records[path[0]], "parentUuid"@) is Some
            ==> string_field(#[trigger] records[k], "uuid"@) != string_field(
            records[path[0]],
            "parentUuid"@,
        )
}

/// The main chain is the way from a root to the last record that has a uuid,
/// parent by parent. The positions on the way are given.
pub proof fn law_main_chain_leads_to_the_leaf(records: Seq<JsonView>, with_uuid: int) -> (path: Seq<
    int,
>)
    requires
        chain_of(records) is Some,
        0 <= with_uuid < records.len(),
        string_field(records[with_uuid], "uuid"@) is Some,
    ensures
        is_main_path(records, path),
        chain_of(records) == Some(path.map_values(|at: int| records[at])),
{
    lemma_leaf_is_last(records);
    let leaf = leaf_of(records)->0;
    let path = path_to(records, leaf, records.len());
    law_chain_follows_parents(records, leaf, records.len());
    lemma_path_in_range(records, leaf, records.len());
    assert forall|k: int| 0 < k < path.len() implies string_field(
        records[#[trigger] path[k]],
        "parentUuid"@,
    ) is Some && string_field(records[path[k]], "parentUuid"@) == string_field(
        records[path[k - 1]],
        "uuid"@,
    ) by {
        assert(parent_of(records, path[k]) == Some(path[k - 1]));
        lemma_last_with(records, string_field(records[path[k]], "parentUuid"@)->0);
    }
    assert forall|k: int, later: int|
        0 <= k < path.len() - 1 && #[trigger] path[k] < later < records.len() implies string_field(
        #[trigger] records[later],
        "uuid"@,
    ) != string_field(records[path[k]], "uuid"@) by {
        assert(parent_of(records, path[k + 1]) == Some(path[k + 1 - 1]));
        lemma_last_with(records, string_field(records[path[k + 1]], "parentUuid"@)->0);
    }
    if let Some(uuid) = string_field(records[path[0]], "parentUuid"@) {
        lemma_last_with(records, uuid);
    }
    path
}

proof fn lemma_path_in_range(records: Seq<JsonView>, at: int, steps: nat)
    requires
        0 <= at < records.len(),
    ensures
        forall|k: int|
            0 <= k < path_to(records, at, steps).len() ==> 0 <= #[trigger] path_to(
                records,
                at,
                steps,
            )[k] < records.len(),
    decreases steps,
{
    if let Some(parent) = parent_of(records, at) {
        lemma_parent(records, at);
        if steps > 0 {
            lemma_path_in_range(records, parent, (steps - 1) as nat);
            let before = path_to(records, parent, (steps - 1) as nat);
            let path = path_to(records, at, steps);
            assert(path == before.push(at));
            assert forall|k: int| 0 <= k < path.len() implies 0 <= #[trigger] path[k]
                < records.len() by {
                if k < before.len() {
                    assert(path[k] == before[k]);
                }
            }
        }
    }
}

/// Without uuids there is nothing to follow, and all records are shown in the
/// order of the file.
pub proof fn law_records_without_uuids_are_all_shown(records: Seq<JsonView>)
    requires
        forall|k: int|
            0 <= k < records.len() ==> string_field(#[trigger] records[k], "uuid"@) is None,
    ensures
        chain_of(records) == Some(records),
{
    lemma_leaf_is_last(records);
}

/// A conversation that was never edited is shown whole: where each record names
/// the one before it as its parent, and no two have the same uuid, all are on
/// the main chain.
pub proof fn law_unbranched_session_is_shown_whole(records: Seq<JsonView>)
    requires
        records.len() > 0,
        forall|k: int|
            0 <= k < records.len() ==> string_field(#[trigger] records[k], "uuid"@) is Some,
        forall|i: int, j: int|
            0 <= i < j < records.len() ==> string_field(#[trigger] records[i], "uuid"@)
                != string_field(#[trigger] records[j], "uuid"@),
        string_field(records[0], "parentUuid"@) is None,
        forall|k: int|
            0 < k < records.len() ==> string_field(#[trigger] records[k], "parentUuid"@)
                == string_field(records[k - 1], "uuid"@),
    ensures
        chain_of(records) == Some(records),
{
    let last = records.len() - 1;
    lemma_leaf_is_last(records);
    assert(string_field(records[last], "uuid"@) is Some);
    lemma_unbranched(records, last, records.len());
    let path = path_to(records, last, records.len());
    assert(path.map_values(|at: int| records[at]) =~= records);
}

proof fn lemma_unbranched(records: Seq<JsonView>, at: int, steps: nat)
    requires
        0 <= at < records.len(),
        at < steps,
        forall|k: int|
            0 <= k < records.len() ==> string_field(#[trigger] records[k], "uuid"@) is Some,
        forall|i: int, j: int|
            0 <= i < j < records.len() ==> string_field(#[trigger] records[i], "uuid"@)
                != string_field(#[trigger] records[j], "uuid"@),
        string_field(records[0], "parentUuid"@) is None,
        forall|k: int|
            0 < k < records.len() ==> string_field(#[trigger] records[k], "parentUuid"@)
                == string_field(records[k - 1], "uuid"@),
    ensures
        walk_ends(records, at, steps),
        path_to(records, at, steps).len() == at + 1,
        forall|k: int| 0 <= k <= at ==> #[trigger] path_to(records, at, steps)[k] == k,
    decreases at,
{
    if at > 0 {
        let uuid = string_field(records[at - 1], "uuid"@)->0;
        assert(string_field(records[at - 1], "uuid"@) is Some);
        assert(string_field(records[at], "parentUuid"@) == Some(uuid));
        lemma_last_with(records, uuid);
        let found = last_with_uuid(records, uuid);
        assert(found is Some) by {
            assert(string_field(records[at - 1], "uuid"@) == Some(uuid));
        }
        assert(found->0 == at - 1) by {
            let i = found->0;
            if i < at - 1 {
                assert(string_field(records[i], "uuid"@) != string_field(
                    records[at - 1],
                    "uuid"@,
                ));
            } else if i > at - 1 {
                assert(string_field(records[at - 1], "uuid"@) != string_field(records[i], "uuid"@));
            }
        }
        lemma_unbranched(records, at - 1, (steps - 1) as nat);
        let before = path_to(records, at - 1, (steps - 1) as nat);
        assert(path_to(records, at, steps) == before.push(at));
        assert forall|k: int| 0 <= k <= at implies #[trigger] path_to(records, at, steps)[k]
            == k by {
            if k < at {
                assert(before[k] == k);
            }
        }
    }
}

/// Which lines count: those of the user and the assistant, in order, unless
/// they belong to a side chain, are meta records or replays.
pub proof fn law_transcript_is_what_user_and_assistant_said(
    outcomes: Seq<Result<JsonView, Seq<char>>>,
    record: JsonView,
    message: Seq<char>,
)
    ensures
        transcript_records(Seq::empty()).len() == 0,
        transcript_records(outcomes.push(Err(message))) == transcript_records(outcomes),
        ({
            let spoken = string_field(record, "type"@) == Some("user"@) || string_field(
                record,
                "type"@,
            ) == Some("assistant"@);
            let hidden = field(record, "isSidechain"@) == Some(JsonView::Bool(true)) || field(
                record,
                "isMeta"@,
            ) == Some(JsonView::Bool(true)) || field(record, "isReplay"@) == Some(
                JsonView::Bool(true),
            );
            transcript_records(outcomes.push(Ok(record))) == if spoken && !hidden {
                transcript_records(outcomes).push(record)
            } else {
                transcript_records(outcomes)
            }
        }),
{
    reveal_strlit("user");
    reveal_strlit("assistant");
    assert("user"@.len() == 4 && "assistant"@.len() == 9);
    assert(outcomes.push(Ok(record)).drop_last() =~= outcomes);
    assert(outcomes.push(Err(message)).drop_last() =~= outcomes);
}

/// What a record says is what its message holds: a string as a text, an array
/// as blocks, and nothing else; it is said by the one whom its type names.
pub proof fn law_record_says_what_its_message_holds(record: JsonView, message: JsonView)
    requires
        field(record, "message"@) == Some(message),
    ensures
        string_field(record, "type"@) matches Some(kind) ==> record_of(record).role == kind,
        string_field(record, "cwd"@) matches Some(directory) ==> record_of(record).worktree
            == directory,
        field(message, "content"@) matches Some(JsonView::Text(text)) ==> record_of(record).content
            == ContentView::Text(text),
        field(message, "content"@) matches Some(JsonView::Array(blocks)) ==> record_of(
            record,
        ).content == ContentView::Blocks(blocks),
        !(field(message, "content"@) matches Some(JsonView::Text(_))) && !(field(
            message,
            "content"@,
        ) matches Some(JsonView::Array(_))) ==> record_of(record).content == ContentView::Nothing,
{
}

/// Every record becomes one turn, in order, of the same speaker and with the
/// same text; where it has blocks, the turn has those that they were mapped to.
pub proof fn law_turns_say_what_records_say(
    records: Seq<RecordView>,
    mapped: Seq<Seq<BlockView>>,
    at: int,
)
    requires
        records.len() == mapped.len(),
        0 <= at < records.len(),
    ensures
        turns_of(records, mapped).len() == records.len(),
        turns_of(records, mapped)[at].role == records[at].role,
        match records[at].content {
            ContentView::Text(text) => turns_of(records, mapped)[at].content
                == TurnContentView::Text(text),
            ContentView::Blocks(_) => turns_of(records, mapped)[at].content
                == TurnContentView::Blocks(mapped[at]),
            ContentView::Nothing => turns_of(records, mapped)[at].content
                == TurnContentView::Nothing,
        },
{
}

/// The id of a session is that of its first record that carries one.
pub proof fn law_session_id_is_the_first(records: Seq<JsonView>)
    ensures
        match first_session_id(records) {
            Some(id) => exists|i: int|
                0 <= i < records.len() && string_field(#[trigger] records[i], "sessionId"@) == Some(
                    id,
                ) && forall|k: int|
                    0 <= k < i ==> string_field(#[trigger] records[k], "sessionId"@) is None,
            None => forall|k: int|
                0 <= k < records.len() ==> string_field(#[trigger] records[k], "sessionId"@) is None,
        },
    decreases records.len(),
{
    if records.len() > 0 {
        let rest = records.drop_last();
        law_session_id_is_the_first(rest);
        assert(forall|k: int| 0 <= k < rest.len() ==> #[trigger] records[k] == rest[k]);
        if let Some(id) = first_session_id(rest) {
            let i = choose|i: int|
                0 <= i < rest.len() && string_field(#[trigger] rest[i], "sessionId"@) == Some(id)
                    && forall|k: int|
                    0 <= k < i ==> string_field(#[trigger] rest[k], "sessionId"@) is None;
            assert(string_field(records[i], "sessionId"@) == Some(id));
        } else if string_field(records.last(), "sessionId"@) is Some {
            assert(string_field(records[records.len() - 1], "sessionId"@) is Some);
        }
    }
}

/// A session file is refused for the first line that is no JSON, whatever
/// follows it, and for none other where all lines are.
pub proof fn law_first_bad_line_is_named(
    good: Seq<Result<JsonView, Seq<char>>>,
    message: Seq<char>,
    rest: Seq<Result<JsonView, Seq<char>>>,
    path: Seq<char>,
    partial_tail: bool,
)
    requires
        forall|i: int| 0 <= i < good.len() ==> #[trigger] good[i] is Ok,
    ensures
        first_bad_line(good) is None,
        session_of_lines(path, good.push(Err(message)) + rest, partial_tail) == Err::<
            SessionView,
            HistoryFailure,
        >(
            HistoryFailure::Corrupt {
                path,
                reason: "line "@ + decimal((good.len() + 1) as nat) + " is not valid JSON: "@
                    + message,
            },
        ),
{
    lemma_good_lines(good);
    let bad = good.push(Err(message));
    assert(bad.drop_last() =~= good);
    let all = bad + rest;
    assert(all.take(bad.len() as int) =~= bad);
    lemma_first_bad_line_stays(all, bad.len() as int);
}

proof fn lemma_good_lines(good: Seq<Result<JsonView, Seq<char>>>)
    requires
        forall|i: int| 0 <= i < good.len() ==> #[trigger] good[i] is Ok,
    ensures
        first_bad_line(good) is None,
    decreases good.len(),
{
    if good.len() > 0 {
        let rest = good.drop_last();
        assert forall|i: int| 0 <= i < rest.len() implies #[trigger] rest[i] is Ok by {
            assert(rest[i] == good[i]);
        }
        lemma_good_lines(rest);
        assert(good[good.len() - 1] is Ok);
    }
}

/// Only a file that is known to hold the session is given for it; where no file
/// is named after the session, it is not found.
pub proof fn law_only_confirmed_files_are_located(
    session_id: Seq<char>,
    root: String,
    path: String,
    candidate: Option<SessionCandidate>,
)
    ensures
        located(
            session_id,
            Some(root),
            Some(SessionCandidate { path, contains: Ok(true) }),
        ) == Ok::<Seq<char>, HistoryFailure>(path@),
        located(session_id, Some(root), None) == Err::<Seq<char>, HistoryFailure>(
            HistoryFailure::FileNotFound { session_id, root: root@ },
        ),
        located(session_id, Some(root), candidate) matches Ok(found) ==> (candidate matches Some(
            candidate,
        ) && candidate.contains == Ok::<bool, NativeHistoryError>(true) && found
            == candidate.path@),
        located(
            session_id,
            Some(root),
            Some(SessionCandidate { path, contains: Ok(false) }),
        ) matches Err(failure) && (failure matches HistoryFailure::Corrupt { path: named, .. }
            && named == path@),
        located(session_id, None, candidate) matches Err(failure) && failure is FormatUnsupported,
{
}

/// The file of a session is looked for under its own name in a project
/// directory that has it, and the first such directory is taken.
pub proof fn law_session_file_is_in_the_first_project(
    entries: Seq<ProjectEntry>,
    session_id: Seq<char>,
)
    ensures
        match first_session_file(entries, session_id) {
            Some(path) => exists|i: int|
                0 <= i < entries.len() && (#[trigger] entries[i]).is_directory
                    && entries[i].has_session_file && path == entries[i].path@ + "/"@ + (session_id
                    + ".jsonl"@) && forall|k: int|
                    0 <= k < i ==> !((#[trigger] entries[k]).is_directory
                        && entries[k].has_session_file),
            None => forall|k: int|
                0 <= k < entries.len() ==> !((#[trigger] entries[k]).is_directory
                    && entries[k].has_session_file),
        },
    decreases entries.len(),
{
    if entries.len() > 0 {
        let rest = entries.drop_last();
        law_session_file_is_in_the_first_project(rest, session_id);
        assert(forall|k: int| 0 <= k < rest.len() ==> #[trigger] entries[k] == rest[k]);
        if let Some(path) = first_session_file(rest, session_id) {
            let i = choose|i: int|
                0 <= i < rest.len() && (#[trigger] rest[i]).is_directory
                    && rest[i].has_session_file && path == rest[i].path@ + "/"@ + (session_id
                    + ".jsonl"@) && forall|k: int|
                    0 <= k < i ==> !((#[trigger] rest[k]).is_directory
                        && rest[k].has_session_file);
            assert(entries[i].is_directory);
        } else {
            let last = entries[entries.len() - 1];
            assert(last.is_directory ==> last == entries.last());
        }
    }
}

/// A file holds a session exactly where one of its lines is a record of it.
pub proof fn law_files_hold_the_sessions_of_their_records(
    outcomes: Seq<Result<JsonView, Seq<char>>>,
    at: int,
    record: JsonView,
    session_id: Seq<char>,
)
    ensures
        0 <= at < outcomes.len() && outcomes[at] == Ok::<JsonView, Seq<char>>(record)
            && string_field(record, "sessionId"@) == Some(session_id) ==> any_refers_to(
            outcomes,
            session_id,
        ),
        any_refers_to(outcomes, session_id) ==> exists|i: int|
            0 <= i < outcomes.len() && (#[trigger] outcomes[i] matches Ok(found) && string_field(
                found,
                "sessionId"@,
            ) == Some(session_id)),
{
    if any_refers_to(outcomes, session_id) {
        let i = choose|i: int|
            0 <= i < outcomes.len() && refers_to(#[trigger] outcomes[i], session_id);
        assert(outcomes[i] matches Ok(found) && string_field(found, "sessionId"@) == Some(
            session_id,
        ));
    }
    if 0 <= at < outcomes.len() && outcomes[at] == Ok::<JsonView, Seq<char>>(record)
        && string_field(record, "sessionId"@) == Some(session_id) {
        assert(refers_to(outcomes[at], session_id));
    }
}

/// A file that is not confirmed is refused for what is known of it: that no
/// record in it is of the session, or why it could not be read. Without a home
/// directory no file can be looked for.
pub proof fn law_unconfirmed_files_are_refused(
    session_id: Seq<char>,
    root: String,
    path: String,
    error: NativeHistoryError,
    candidate: Option<SessionCandidate>,
)
    ensures
        located(session_id, Some(root), Some(SessionCandidate { path, contains: Ok(false) }))
            == Err::<Seq<char>, HistoryFailure>(
            (HistoryFailure::Corrupt {
                path: path@,
                reason: "filename matches but no record references the session id"@,
            }),
        ),
        located(session_id, Some(root), Some(SessionCandidate { path, contains: Err(error) }))
            == Err::<Seq<char>, HistoryFailure>(error@),
        located(session_id, None, candidate) == Err::<Seq<char>, HistoryFailure>(
            HistoryFailure::FormatUnsupported(
                "cannot determine projects root (no home directory)"@,
            ),
        ),
{
}

/// A session file whose lines are all JSON is the session that its records name,
/// with the records of its main chain, each of them and in their order. It is
/// corrupt where no record names the session, and where the chain has no root.
pub proof fn law_session_is_its_main_chain(
    path: Seq<char>,
    outcomes: Seq<Result<JsonView, Seq<char>>>,
    partial_tail: bool,
)
    requires
        forall|i: int| 0 <= i < outcomes.len() ==> (#[trigger] outcomes[i]) is Ok,
    ensures
        ({
            let records = transcript_records(outcomes);
            let session = session_of_lines(path, outcomes, partial_tail);
            &&& first_session_id(records) is None ==> session == Err::<SessionView, HistoryFailure>(
                (HistoryFailure::Corrupt {
                    path,
                    reason: "no user/assistant record carries a sessionId"@,
                }),
            )
            &&& first_session_id(records) is Some && chain_of(records) is None ==> session == Err::<
                SessionView,
                HistoryFailure,
            >((HistoryFailure::Corrupt { path, reason: "parentUuid links form a cycle"@ }))
            &&& first_session_id(records) matches Some(id) ==> (chain_of(records) matches Some(
                chain,
            ) ==> (session matches Ok(session) && session.session_id == id && session.partial_tail
                == partial_tail && session.records.len() == chain.len() && forall|i: int|
                0 <= i < chain.len() ==> session.records[i] == record_of(#[trigger] chain[i])))
        }),
{
    lemma_good_lines(outcomes);
}

proof fn lemma_hidden_line(
    first: Seq<Result<JsonView, Seq<char>>>,
    hidden: JsonView,
    rest: Seq<Result<JsonView, Seq<char>>>,
)
    requires
        !is_transcript_record(hidden),
    ensures
        transcript_records(first.push(Ok(hidden)) + rest) == transcript_records(first + rest),
    decreases rest.len(),
{
    let with_hidden = first.push(Ok(hidden)) + rest;
    if rest.len() == 0 {
        assert(with_hidden =~= first.push(Ok(hidden)));
        assert(with_hidden.drop_last() =~= first);
        assert(first + rest =~= first);
    } else {
        lemma_hidden_line(first, hidden, rest.drop_last());
        assert(with_hidden.drop_last() =~= first.push(Ok(hidden)) + rest.drop_last());
        assert((first + rest).drop_last() =~= first + rest.drop_last());
    }
}

proof fn lemma_no_bad_line(outcomes: Seq<Result<JsonView, Seq<char>>>)
    requires
        forall|i: int| 0 <= i < outcomes.len() ==> (#[trigger] outcomes[i]) is Ok,
    ensures
        first_bad_line(outcomes) is None,
    decreases outcomes.len(),
{
    if outcomes.len() > 0 {
        let rest = outcomes.drop_last();
        assert forall|i: int| 0 <= i < rest.len() implies (#[trigger] rest[i]) is Ok by {
            assert(rest[i] == outcomes[i]);
        }
        lemma_no_bad_line(rest);
        assert(outcomes[outcomes.len() - 1] is Ok);
    }
}

/// Queue operations, sidechain, meta and replay records leave no trace: a file
/// of valid records gives the same session with and without them.
pub proof fn law_hidden_records_leave_no_trace(
    path: Seq<char>,
    first: Seq<Result<JsonView, Seq<char>>>,
    hidden: JsonView,
    rest: Seq<Result<JsonView, Seq<char>>>,
    partial_tail: bool,
)
    requires
        !is_transcript_record(hidden),
        forall|i: int| 0 <= i < first.len() ==> (#[trigger] first[i]) is Ok,
        forall|i: int| 0 <= i < rest.len() ==> (#[trigger] rest[i]) is Ok,
    ensures
        session_of_lines(path, first.push(Ok(hidden)) + rest, partial_tail) == session_of_lines(
            path,
            first + rest,
            partial_tail,
        ),
{
    lemma_hidden_line(first, hidden, rest);
    lemma_no_bad_line(first.push(Ok(hidden)) + rest);
    lemma_no_bad_line(first + rest);
}

/// The model of [`RecordContent`] holds what the value does, part by part.
pub proof fn law_model_of_record_content(value: RecordContent)
    ensures
        match value {
            RecordContent::Text(text) => value@ == ContentView::Text(text@),
            RecordContent::Blocks(blocks) => value@ == ContentView::Blocks(json_views(blocks@)),
            RecordContent::Nothing => value@ == ContentView::Nothing,
        },
{
}

/// The model of [`ClaudeRecord`] holds what the value does, part by part.
pub proof fn law_model_of_claude_record(value: ClaudeRecord)
    ensures
        value@.role == value.role@,
        value@.worktree == value.worktree@,
        value@.content == value.content@,
{
}

/// The model of [`ClaudeSession`] holds what the value does, part by part.
pub proof fn law_model_of_claude_session(value: ClaudeSession)
    ensures
        value@.session_id == value.session_id@,
        value@.records == record_views(value.records@),
        value@.partial_tail == value.partial_tail,
{
}

/// The model of [`ClaudeItem`] holds what the value does, part by part.
pub proof fn law_model_of_claude_item(value: ClaudeItem)
    ensures
        match value {
            ClaudeItem::Text { text } => value@ == (ItemView::Text { text: text@ }),
            ClaudeItem::ToolUse { id } => value@ == (ItemView::ToolUse { id: id@ }),
            ClaudeItem::ToolResult { tool_use_id, result, is_error } =>
                value@ == (ItemView::ToolResult {
                    tool_use_id: tool_use_id@,
                    result: result@,
                    is_error,
                }),
            ClaudeItem::Other => value@ == ItemView::Other,
        },
{
}

/// The model of [`ClaudeBlock`] holds what the value does, part by part.
pub proof fn law_model_of_claude_block(value: ClaudeBlock)
    ensures
        value@.item == match value.item { Some(item) => Some(item@), None => None, },
        value@.mapped == match value.mapped { Some(entry) => Some(entry@), None => None, },
{
}

/// The model of [`TurnContent`] holds what the value does, part by part.
pub proof fn law_model_of_turn_content(value: TurnContent)
    ensures
        match value {
            TurnContent::Text(text) => value@ == TurnContentView::Text(text@),
            TurnContent::Blocks(blocks) => value@ == TurnContentView::Blocks(block_views(blocks@)),
            TurnContent::Nothing => value@ == TurnContentView::Nothing,
        },
{
}

/// The model of [`ClaudeTurn`] holds what the value does, part by part.
pub proof fn law_model_of_claude_turn(value: ClaudeTurn)
    ensures
        value@.role == value.role@,
        value@.content == value.content@,
{
}

} // verus!
