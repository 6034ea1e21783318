//! Conversations of whole sessions: the agent's own history, merged with the
//! cards of setup and cleanup scripts.
//!
//! The history of a completed agent is read from the session file that the
//! agent wrote, and kept for as long as that file does not change. Scripts are
//! shown from their raw logs.

use vstd::prelude::*;

use crate::entries::{
    copy_entries, entry_views, plain_entry, ActionType, ActionView, BaseCodingAgent,
    CommandExitStatus, CommandRunResult, EntryKind, EntryView, NormalizedEntry,
    NormalizedEntryType, RunResultView, ToolStatus,
};
use crate::history::{
    FileFingerprint, HistoryFailure, NativeHistoryError, NativeSessionHistory, TailPolicy,
};
use crate::sorting::{
    insert_sorted, is_order, is_sorted, law_sort_depends_on_ties, law_sort_orders_the_same_items,
    not_after, order_of, sort, stable_sort, ties, Sortable, Timestamp,
};
use crate::text::{concat2, concat3, join, joined, lemma_views_push, same, views};

verus! {

// ---------------------------------------------------------------------------
// Merging
// ---------------------------------------------------------------------------

impl<T> Sortable for (Timestamp, Vec<T>) {
    open spec fn precedes(self, other: (Timestamp, Vec<T>)) -> bool {
        not_after(self.0, other.0)
    }

    fn may_precede(&self, other: &(Timestamp, Vec<T>)) -> (may: bool) {
        self.0.is_not_after(&other.0)
    }
}

/// The entries of blocks, one block after the other.
pub open spec fn flat<T>(blocks: Seq<(Timestamp, Vec<T>)>) -> Seq<T>
    decreases blocks.len(),
{
    if blocks.len() == 0 {
        Seq::empty()
    } else {
        flat(blocks.drop_last()) + blocks.last().1@
    }
}

/// The entries of blocks in the order of their times; blocks of one time keep
/// their order.
pub open spec fn merged<T>(blocks: Seq<(Timestamp, Vec<T>)>) -> Seq<T> {
    flat(stable_sort(blocks, order_of::<(Timestamp, Vec<T>)>()))
}

/// Merges blocks of entries by their times. Blocks of one time keep the order
/// in which they came, and no block is interleaved with another.
pub fn merge_blocks<T>(blocks: Vec<(Timestamp, Vec<T>)>) -> (entries: Vec<T>)
    ensures
        entries@ == merged(blocks@),
{
    let sorted = sort(blocks);
    let mut entries: Vec<T> = Vec::new();
    for block in it: sorted
        invariant
            it.seq() == sorted@,
            entries@ == flat(sorted@.take(it.index() as int)),
    {
        proof {
            let seen = sorted@.take(it.index() + 1);
            assert(seen.drop_last() =~= sorted@.take(it.index() as int));
            assert(seen.last() == block);
        }
        let (_, mut own) = block;
        entries.append(&mut own);
    }
    assert(sorted@.take(sorted@.len() as int) =~= sorted@);
    entries
}

proof fn lemma_blocks_are_ordered<T>()
    ensures
        is_order(order_of::<(Timestamp, Vec<T>)>()),
{
}

proof fn lemma_flat_push<T>(blocks: Seq<(Timestamp, Vec<T>)>, block: (Timestamp, Vec<T>))
    ensures
        flat(blocks.push(block)) == flat(blocks) + block.1@,
{
    assert(blocks.push(block).drop_last() =~= blocks);
}

proof fn lemma_flat_insert<T>(sorted: Seq<(Timestamp, Vec<T>)>, block: (Timestamp, Vec<T>))
    ensures
        flat(insert_sorted(sorted, block, order_of::<(Timestamp, Vec<T>)>())).to_multiset() == flat(
            sorted,
        ).to_multiset().add(block.1@.to_multiset()),
    decreases sorted.len(),
{
    let le = order_of::<(Timestamp, Vec<T>)>();
    if sorted.len() == 0 || le(sorted.last(), block) {
        lemma_flat_push(sorted, block);
        vstd::seq_lib::lemma_multiset_commutative(flat(sorted), block.1@);
    } else {
        let rest = sorted.drop_last();
        let last = sorted.last();
        lemma_flat_insert(rest, block);
        let inner = insert_sorted(rest, block, le);
        lemma_flat_push(inner, last);
        lemma_flat_push(rest, last);
        assert(rest.push(last) =~= sorted);
        vstd::seq_lib::lemma_multiset_commutative(flat(inner), last.1@);
        vstd::seq_lib::lemma_multiset_commutative(flat(rest), last.1@);
        assert(flat(insert_sorted(sorted, block, le)).to_multiset() =~= flat(
            sorted,
        ).to_multiset().add(block.1@.to_multiset()));
    }
}

/// Merging loses no entry and makes up none.
pub proof fn law_merge_keeps_every_entry<T>(blocks: Seq<(Timestamp, Vec<T>)>)
    ensures
        merged(blocks).to_multiset() == flat(blocks).to_multiset(),
    decreases blocks.len(),
{
    let le = order_of::<(Timestamp, Vec<T>)>();
    if blocks.len() > 0 {
        let rest = blocks.drop_last();
        law_merge_keeps_every_entry(rest);
        lemma_flat_insert(stable_sort(rest, le), blocks.last());
        vstd::seq_lib::lemma_multiset_commutative(flat(rest), blocks.last().1@);
    }
}

/// The blocks of one time, in their order.
pub open spec fn blocks_at<T>(
    blocks: Seq<(Timestamp, Vec<T>)>,
    time: Timestamp,
) -> Seq<(Timestamp, Vec<T>)> {
    blocks.filter(|block: (Timestamp, Vec<T>)| block.0 == time)
}

proof fn lemma_ties_are_of_one_time<T>(
    blocks: Seq<(Timestamp, Vec<T>)>,
    probe: (Timestamp, Vec<T>),
)
    ensures
        ties(blocks, probe, order_of::<(Timestamp, Vec<T>)>()) == blocks_at(blocks, probe.0),
    decreases blocks.len(),
{
    reveal(Seq::filter);
    if blocks.len() > 0 {
        lemma_ties_are_of_one_time(blocks.drop_last(), probe);
    }
}

/// The order in which blocks of different times come makes no difference: two
/// arrangements in which the blocks of each time come in the same order merge
/// to the same.
pub proof fn law_merge_ignores_the_order_of_times<T>(
    blocks: Seq<(Timestamp, Vec<T>)>,
    others: Seq<(Timestamp, Vec<T>)>,
)
    requires
        forall|time: Timestamp| #[trigger] blocks_at(others, time) == blocks_at(blocks, time),
    ensures
        merged(others) == merged(blocks),
{
    let le = order_of::<(Timestamp, Vec<T>)>();
    lemma_blocks_are_ordered::<T>();
    assert forall|probe: (Timestamp, Vec<T>)| #[trigger] ties(others, probe, le) == ties(
        blocks,
        probe,
        le,
    ) by {
        lemma_ties_are_of_one_time(blocks, probe);
        lemma_ties_are_of_one_time(others, probe);
        assert(blocks_at(others, probe.0) == blocks_at(blocks, probe.0));
    }
    law_sort_depends_on_ties(others, blocks, le);
}

proof fn lemma_insert_place<T>(sorted: Seq<(Timestamp, Vec<T>)>, block: (Timestamp, Vec<T>)) -> (at:
    int)
    requires
        is_sorted(sorted, order_of::<(Timestamp, Vec<T>)>()),
    ensures
        0 <= at <= sorted.len(),
        insert_sorted(sorted, block, order_of::<(Timestamp, Vec<T>)>()) == sorted.insert(at, block),
        forall|i: int| 0 <= i < at ==> not_after((#[trigger] sorted[i]).0, block.0),
        forall|i: int| at <= i < sorted.len() ==> !not_after((#[trigger] sorted[i]).0, block.0),
    decreases sorted.len(),
{
    let le = order_of::<(Timestamp, Vec<T>)>();
    if sorted.len() == 0 || le(sorted.last(), block) {
        assert(sorted.push(block) =~= sorted.insert(sorted.len() as int, block));
        assert forall|i: int| 0 <= i < sorted.len() implies not_after(
            (#[trigger] sorted[i]).0,
            block.0,
        ) by {
            if i < sorted.len() - 1 {
                assert(le(sorted[i], sorted[sorted.len() - 1]));
            }
        }
        sorted.len() as int
    } else {
        let rest = sorted.drop_last();
        assert forall|i: int, j: int| 0 <= i < j < rest.len() implies le(
            #[trigger] rest[i],
            #[trigger] rest[j],
        ) by {
            assert(le(sorted[i], sorted[j]));
        }
        let at = lemma_insert_place(rest, block);
        assert(rest.insert(at, block).push(sorted.last()) =~= sorted.insert(at, block));
        assert forall|i: int| 0 <= i < at implies not_after((#[trigger] sorted[i]).0, block.0) by {
            assert(rest[i] == sorted[i]);
        }
        assert forall|i: int| at <= i < sorted.len() implies !not_after(
            (#[trigger] sorted[i]).0,
            block.0,
        ) by {
            if i < rest.len() {
                assert(rest[i] == sorted[i]);
            }
        }
        at
    }
}

/// The native history, which comes last into the merge, stands in one piece
/// behind the scripts that are not later than it and before those that are.
/// Scripts of its own time precede it.
pub proof fn law_native_history_follows_earlier_scripts<T>(
    scripts: Seq<(Timestamp, Vec<T>)>,
    native: (Timestamp, Vec<T>),
) -> (at: int)
    ensures
        ({
            let sorted = stable_sort(scripts, order_of::<(Timestamp, Vec<T>)>());
            &&& 0 <= at <= sorted.len()
            &&& merged(scripts.push(native)) == flat(sorted.take(at)) + native.1@ + flat_from(
                sorted,
                at,
            )
            &&& forall|i: int| 0 <= i < at ==> not_after((#[trigger] sorted[i]).0, native.0)
            &&& forall|i: int|
                at <= i < sorted.len() ==> !not_after((#[trigger] sorted[i]).0, native.0)
        }),
{
    let le = order_of::<(Timestamp, Vec<T>)>();
    let sorted = stable_sort(scripts, le);
    lemma_blocks_are_ordered::<T>();
    law_sort_orders_the_same_items(scripts, le);
    assert(scripts.push(native).drop_last() =~= scripts);
    let at = lemma_insert_place(sorted, native);
    lemma_flat_around(sorted, native, at, sorted.len() as int);
    assert(sorted.insert(at, native).take(sorted.len() as int + 1) =~= sorted.insert(at, native));
    assert(sorted.skip(at).take(sorted.len() - at) =~= sorted.skip(at));
    at
}

/// The entries of the blocks from `at` on.
pub open spec fn flat_from<T>(blocks: Seq<(Timestamp, Vec<T>)>, at: int) -> Seq<T> {
    flat(blocks.skip(at))
}

proof fn lemma_flat_around<T>(
    blocks: Seq<(Timestamp, Vec<T>)>,
    block: (Timestamp, Vec<T>),
    at: int,
    to: int,
)
    requires
        0 <= at <= to <= blocks.len(),
    ensures
        flat(blocks.insert(at, block).take(to + 1)) == flat(blocks.take(at)) + block.1@ + flat(
            blocks.skip(at).take(to - at),
        ),
    decreases to - at,
{
    let inserted = blocks.insert(at, block);
    if to == at {
        assert(inserted.take(to + 1) =~= blocks.take(at).push(block));
        lemma_flat_push(blocks.take(at), block);
        assert(blocks.skip(at).take(0) =~= Seq::empty());
        assert(flat(blocks.skip(at).take(0)) =~= Seq::empty());
        assert(flat(blocks.take(at)) + block.1@ + Seq::empty() =~= flat(blocks.take(at))
            + block.1@);
    } else {
        lemma_flat_around(blocks, block, at, to - 1);
        assert(inserted.take(to + 1) =~= inserted.take(to).push(blocks[to - 1]));
        lemma_flat_push(inserted.take(to), blocks[to - 1]);
        assert(blocks.skip(at).take(to - at) =~= blocks.skip(at).take(to - at - 1).push(
            blocks[to - 1],
        ));
        lemma_flat_push(blocks.skip(at).take(to - at - 1), blocks[to - 1]);
        assert(flat(blocks.take(at)) + block.1@ + flat(blocks.skip(at).take(to - at - 1))
            + blocks[to - 1].1@ =~= flat(blocks.take(at)) + block.1@ + (flat(
            blocks.skip(at).take(to - at - 1),
        ) + blocks[to - 1].1@));
    }
}

// ---------------------------------------------------------------------------
// Which parts a conversation has
// ---------------------------------------------------------------------------

/// Where an execution process stands.
#[derive(Clone, Copy, Debug, PartialEq, Eq, Structural)]
pub enum ExecutionProcessStatus {
    Running,
    Completed,
    Failed,
    Killed,
}

/// Why an execution process was started.
#[derive(Clone, Copy, Debug, PartialEq, Eq, Structural)]
pub enum ExecutionProcessRunReason {
    SetupScript,
    CleanupScript,
    CodingAgent,
    DevServer,
}

/// What a script is for.
#[derive(Clone, Copy, Debug, PartialEq, Eq, Structural)]
pub enum ScriptContext {
    SetupScript,
    CleanupScript,
    DevServer,
    ToolInstallScript,
}

/// What an execution process runs.
#[derive(Debug, PartialEq, Eq)]
pub enum ExecutorActionType {
    ScriptRequest { context: ScriptContext, script: String },
    CodingAgentRequest,
}

/// An execution process of a session.
#[derive(Debug, PartialEq, Eq)]
pub struct ExecutionProcess {
    pub status: ExecutionProcessStatus,
    pub run_reason: ExecutionProcessRunReason,
    pub action: ExecutorActionType,
    pub created_at: Timestamp,
    pub exit_code: Option<i64>,
}

/// The scripts that are shown in conversations.
#[derive(Clone, Copy, Debug, PartialEq, Eq, Structural)]
pub enum ScriptContextKind {
    Setup,
    Cleanup,
    ToolInstall,
}

/// What the card of a script is called.
pub open spec fn card_name(kind: ScriptContextKind) -> Seq<char> {
    match kind {
        ScriptContextKind::Setup => "Setup Script"@,
        ScriptContextKind::Cleanup => "Cleanup Script"@,
        ScriptContextKind::ToolInstall => "Tool Install Script"@,
    }
}

impl ScriptContextKind {
    /// What the card of this script is called.
    pub fn tool_name(&self) -> (name: &'static str)
        ensures
            name@ == card_name(*self),
    {
        match self {
            Self::Setup => "Setup Script",
            Self::Cleanup => "Cleanup Script",
            Self::ToolInstall => "Tool Install Script",
        }
    }
}

/// How a script is shown; a development server is not.
pub open spec fn shown_kind(context: ScriptContext) -> Option<ScriptContextKind> {
    match context {
        ScriptContext::SetupScript => Some(ScriptContextKind::Setup),
        ScriptContext::CleanupScript => Some(ScriptContextKind::Cleanup),
        ScriptContext::ToolInstallScript => Some(ScriptContextKind::ToolInstall),
        ScriptContext::DevServer => None,
    }
}

/// The script that a process runs, where it is shown.
pub open spec fn shown_script(process: ExecutionProcess) -> Option<
    (ScriptContextKind, Seq<char>),
> {
    match process.action {
        ExecutorActionType::ScriptRequest { context, script } => match shown_kind(context) {
            Some(kind) => Some((kind, script@)),
            None => None,
        },
        ExecutorActionType::CodingAgentRequest => None,
    }
}

/// The script that a process runs, where it is shown.
pub fn script_request(process: &ExecutionProcess) -> (request: Option<(ScriptContextKind, String)>)
    ensures
        match request {
            Some((kind, script)) => shown_script(*process) == Some((kind, script@)),
            None => shown_script(*process) is None,
        },
{
    match &process.action {
        ExecutorActionType::ScriptRequest { context, script } => {
            let kind = match context {
                ScriptContext::SetupScript => ScriptContextKind::Setup,
                ScriptContext::CleanupScript => ScriptContextKind::Cleanup,
                ScriptContext::ToolInstallScript => ScriptContextKind::ToolInstall,
                ScriptContext::DevServer => {
                    return None;
                },
            };
            Some((kind, script.clone()))
        },
        ExecutorActionType::CodingAgentRequest => None,
    }
}

/// A script that is to be shown: the position of its process, and what it is.
#[derive(Debug, PartialEq, Eq)]
pub struct ScriptCard {
    pub process: usize,
    pub context: ScriptContextKind,
    pub script: String,
}

/// Model of [`ScriptCard`].
pub struct CardView {
    pub process: int,
    pub context: ScriptContextKind,
    pub script: Seq<char>,
}

impl View for ScriptCard {
    type V = CardView;

    open spec fn view(&self) -> CardView {
        CardView { process: self.process as int, context: self.context, script: self.script@ }
    }
}

/// The models of cards.
pub open spec fn card_views(cards: Seq<ScriptCard>) -> Seq<CardView> {
    cards.map_values(|card: ScriptCard| card@)
}

/// The scripts to be shown: those of processes that are over, in their order.
pub open spec fn script_cards(processes: Seq<ExecutionProcess>) -> Seq<CardView>
    decreases processes.len(),
{
    if processes.len() == 0 {
        Seq::empty()
    } else {
        let before = script_cards(processes.drop_last());
        match shown_script(processes.last()) {
            Some((context, script)) => if processes.last().status
                != ExecutionProcessStatus::Running {
                before.push(CardView { process: processes.len() - 1, context, script })
            } else {
                before
            },
            None => before,
        }
    }
}

/// Whether a process is a coding agent that still runs.
pub open spec fn is_running_agent(process: ExecutionProcess) -> bool {
    process.run_reason == ExecutionProcessRunReason::CodingAgent && process.status
        == ExecutionProcessStatus::Running
}

/// Whether a process is a coding agent that is over.
pub open spec fn is_finished_agent(process: ExecutionProcess) -> bool {
    process.run_reason == ExecutionProcessRunReason::CodingAgent && process.status
        != ExecutionProcessStatus::Running
}

/// When the first coding agent was started.
pub open spec fn first_agent(processes: Seq<ExecutionProcess>) -> Option<Timestamp>
    decreases processes.len(),
{
    if processes.len() == 0 {
        None
    } else {
        let before = first_agent(processes.drop_last());
        let last = processes.last();
        if last.run_reason != ExecutionProcessRunReason::CodingAgent {
            before
        } else {
            match before {
                Some(moment) => if not_after(moment, last.created_at) {
                    before
                } else {
                    Some(last.created_at)
                },
                None => Some(last.created_at),
            }
        }
    }
}

/// The part of the agent in a conversation: where it stands, and how its
/// session file is read.
#[derive(Clone, Copy, Debug, PartialEq, Eq, Structural)]
pub struct NativePart {
    pub at: Timestamp,
    pub tail: TailPolicy,
}

/// The part of the agent: there is one as soon as one of its processes is
/// over. It stands where the first of them began.
pub open spec fn native_part(processes: Seq<ExecutionProcess>) -> Option<NativePart> {
    match first_agent(processes) {
        Some(at) => if exists|i: int|
            0 <= i < processes.len() && is_finished_agent(#[trigger] processes[i]) {
            Some(
                NativePart {
                    at,
                    tail: if exists|i: int|
                        0 <= i < processes.len() && is_running_agent(#[trigger] processes[i]) {
                        TailPolicy::Running
                    } else {
                        TailPolicy::Completed
                    },
                },
            )
        } else {
            None
        },
        None => None,
    }
}

/// The parts of a conversation.
#[derive(Debug, PartialEq, Eq)]
pub struct ConversationPlan {
    pub scripts: Vec<ScriptCard>,
    pub native: Option<NativePart>,
}

/// Which parts the conversation of a session has.
pub fn plan_conversation(processes: &Vec<ExecutionProcess>) -> (plan: ConversationPlan)
    ensures
        card_views(plan.scripts@) == script_cards(processes@),
        plan.native == native_part(processes@),
{
    let mut scripts: Vec<ScriptCard> = Vec::new();
    let mut running = false;
    let mut finished = false;
    let mut first: Option<Timestamp> = None;
    let mut i: usize = 0;
    assert(card_views(scripts@) =~= Seq::empty());
    while i < processes.len()
        invariant
            i <= processes@.len(),
            card_views(scripts@) == script_cards(processes@.take(i as int)),
            first == first_agent(processes@.take(i as int)),
            running == exists|k: int| 0 <= k < i && is_running_agent(#[trigger] processes@[k]),
            finished == exists|k: int| 0 <= k < i && is_finished_agent(#[trigger] processes@[k]),
            finished ==> first is Some,
        decreases processes@.len() - i,
    {
        let process = &processes[i];
        proof {
            let seen = processes@.take(i + 1);
            assert(seen.drop_last() =~= processes@.take(i as int));
            assert(seen.last() == *process);
            assert(processes@[i as int] == *process);
        }
        let runs = matches!(process.status, ExecutionProcessStatus::Running);
        if !runs {
            if let Some((context, script)) = script_request(process) {
                let card = ScriptCard { process: i, context, script };
                let ghost before = scripts@;
                scripts.push(card);
                assert(card_views(scripts@) =~= card_views(before).push(card@));
            }
        }
        if matches!(process.run_reason, ExecutionProcessRunReason::CodingAgent) {
            if runs {
                assert(is_running_agent(processes@[i as int]));
                running = true;
            } else {
                assert(is_finished_agent(processes@[i as int]));
                finished = true;
            }
            let earlier = match &first {
                Some(moment) => moment.is_not_after(&process.created_at),
                None => false,
            };
            if !earlier {
                first = Some(process.created_at);
            }
        }
        i = i + 1;
    }
    assert(processes@.take(processes@.len() as int) =~= processes@);
    let native = match first {
        Some(at) => if finished {
            Some(
                NativePart {
                    at,
                    tail: if running {
                        TailPolicy::Running
                    } else {
                        TailPolicy::Completed
                    },
                },
            )
        } else {
            None
        },
        None => None,
    };
    ConversationPlan { scripts, native }
}

/// The coding agent that was started last; of those started at one time, the
/// last in the list.
pub open spec fn latest_agent(processes: Seq<ExecutionProcess>) -> Option<int>
    decreases processes.len(),
{
    if processes.len() == 0 {
        None
    } else {
        let before = latest_agent(processes.drop_last());
        let last = processes.last();
        if last.run_reason != ExecutionProcessRunReason::CodingAgent {
            before
        } else {
            match before {
                Some(i) => if not_after(processes[i].created_at, last.created_at) {
                    Some(processes.len() - 1)
                } else {
                    before
                },
                None => Some(processes.len() - 1),
            }
        }
    }
}

/// The process whose raw logs show what a history that cannot be read does not:
/// the coding agent that was started last.
pub fn raw_logs_process(processes: &Vec<ExecutionProcess>) -> (process: Option<usize>)
    ensures
        match process {
            Some(i) => i < processes@.len() && latest_agent(processes@) == Some(i as int),
            None => latest_agent(processes@) is None,
        },
{
    let mut latest: Option<usize> = None;
    let mut i: usize = 0;
    while i < processes.len()
        invariant
            i <= processes@.len(),
            match latest {
                Some(k) => k < i && latest_agent(processes@.take(i as int)) == Some(k as int),
                None => latest_agent(processes@.take(i as int)) is None,
            },
        decreases processes@.len() - i,
    {
        proof {
            let seen = processes@.take(i + 1);
            assert(seen.drop_last() =~= processes@.take(i as int));
            assert(seen.last() == processes@[i as int]);
        }
        if matches!(processes[i].run_reason, ExecutionProcessRunReason::CodingAgent) {
            let later = match latest {
                Some(k) => processes[k].created_at.is_not_after(&processes[i].created_at),
                None => true,
            };
            if later {
                latest = Some(i);
            }
        }
        i = i + 1;
    }
    assert(processes@.take(processes@.len() as int) =~= processes@);
    latest
}

/// The raw logs that a failure points to are those of a coding agent, and no
/// coding agent was started later; there are none only where no coding agent
/// was started.
pub proof fn law_raw_logs_are_of_the_latest_agent(processes: Seq<ExecutionProcess>)
    ensures
        match latest_agent(processes) {
            Some(i) => 0 <= i < processes.len() && processes[i].run_reason
                == ExecutionProcessRunReason::CodingAgent && forall|k: int|
                0 <= k < processes.len() && (#[trigger] processes[k]).run_reason
                    == ExecutionProcessRunReason::CodingAgent ==> not_after(
                    processes[k].created_at,
                    processes[i].created_at,
                ),
            None => forall|k: int|
                0 <= k < processes.len() ==> (#[trigger] processes[k]).run_reason
                    != ExecutionProcessRunReason::CodingAgent,
        },
    decreases processes.len(),
{
    if processes.len() > 0 {
        let rest = processes.drop_last();
        law_raw_logs_are_of_the_latest_agent(rest);
        assert(forall|k: int| 0 <= k < rest.len() ==> #[trigger] processes[k] == rest[k]);
    }
}

/// The blocks of a conversation that hold anything: those of the scripts, then
/// that of the agent.
pub open spec fn filled_blocks<T>(blocks: Seq<(Timestamp, Vec<T>)>) -> Seq<(Timestamp, Vec<T>)>
    decreases blocks.len(),
{
    if blocks.len() == 0 {
        blocks
    } else {
        let before = filled_blocks(blocks.drop_last());
        if blocks.last().1@.len() == 0 {
            before
        } else {
            before.push(blocks.last())
        }
    }
}

/// Puts a conversation together from the blocks of its scripts and that of the
/// agent.
pub fn assemble<T>(scripts: Vec<(Timestamp, Vec<T>)>, native: Option<(Timestamp, Vec<T>)>) -> (
conversation: Vec<T>)
    ensures
        conversation@ == merged(
            match native {
                Some(native) => filled_blocks(scripts@.push(native)),
                None => filled_blocks(scripts@),
            },
        ),
{
    let mut blocks: Vec<(Timestamp, Vec<T>)> = Vec::new();
    for block in it: scripts
        invariant
            it.seq() == scripts@,
            blocks@ == filled_blocks(scripts@.take(it.index() as int)),
    {
        proof {
            let seen = scripts@.take(it.index() + 1);
            assert(seen.drop_last() =~= scripts@.take(it.index() as int));
            assert(seen.last() == block);
        }
        if block.1.len() > 0 {
            blocks.push(block);
        }
    }
    assert(scripts@.take(scripts@.len() as int) =~= scripts@);
    if let Some(native) = native {
        assert(scripts@.push(native).drop_last() =~= scripts@);
        if native.1.len() > 0 {
            blocks.push(native);
        }
    }
    merge_blocks(blocks)
}

/// Whether a process is over and ran a script that conversations show.
pub open spec fn has_card(process: ExecutionProcess) -> bool {
    process.status != ExecutionProcessStatus::Running && (
    process.action matches ExecutorActionType::ScriptRequest { context, .. } && context
        != ScriptContext::DevServer)
}

/// Whether a card shows the script of a process: the script itself, and what it
/// is for.
pub open spec fn shows_script(card: CardView, process: ExecutionProcess) -> bool {
    process.action matches ExecutorActionType::ScriptRequest { context, script } && {
        &&& card.script == script@
        &&& card.context == ScriptContextKind::Setup <==> context == ScriptContext::SetupScript
        &&& card.context == ScriptContextKind::Cleanup <==> context == ScriptContext::CleanupScript
        &&& card.context == ScriptContextKind::ToolInstall <==> context
            == ScriptContext::ToolInstallScript
    }
}

/// Every setup, cleanup and tool install script whose process is over has one
/// card, which holds its script and says what it is for. The cards stand in the
/// order of the processes, and nothing else has one: no development server, no
/// coding agent and nothing that still runs.
pub proof fn law_finished_scripts_have_cards(processes: Seq<ExecutionProcess>)
    ensures
        forall|k: int|
            0 <= k < script_cards(processes).len() ==> {
                let card = #[trigger] script_cards(processes)[k];
                &&& 0 <= card.process < processes.len()
                &&& has_card(processes[card.process])
                &&& shows_script(card, processes[card.process])
            },
        forall|i: int|
            0 <= i < processes.len() && #[trigger] has_card(processes[i]) ==> exists|k: int|
                0 <= k < script_cards(processes).len() && (#[trigger] script_cards(
                    processes,
                )[k]).process == i,
        forall|j: int, k: int|
            0 <= j < k < script_cards(processes).len() ==> (#[trigger] script_cards(
                processes,
            )[j]).process < (#[trigger] script_cards(processes)[k]).process,
    decreases processes.len(),
{
    if processes.len() > 0 {
        let rest = processes.drop_last();
        let last = processes.last();
        let cards = script_cards(processes);
        let before = script_cards(rest);
        law_finished_scripts_have_cards(rest);
        assert(cards.len() == before.len() + if has_card(last) { 1int } else { 0int });
        assert(forall|k: int| 0 <= k < before.len() ==> cards[k] == before[k]);
        assert forall|k: int| 0 <= k < cards.len() implies {
            let card = #[trigger] cards[k];
            &&& 0 <= card.process < processes.len()
            &&& has_card(processes[card.process])
            &&& shows_script(card, processes[card.process])
        } by {
            if k < before.len() {
                assert(cards[k] == before[k]);
                assert(rest[before[k].process] == processes[before[k].process]);
            } else {
                assert(shows_script(cards[k], last));
            }
        }
        assert forall|i: int|
            0 <= i < processes.len() && #[trigger] has_card(processes[i]) implies exists|k: int|
            0 <= k < cards.len() && (#[trigger] cards[k]).process == i by {
            if i < rest.len() {
                assert(has_card(rest[i]));
                let k = choose|k: int|
                    0 <= k < before.len() && (#[trigger] before[k]).process == i;
                assert(cards[k].process == i);
            } else {
                assert(cards[before.len() as int].process == i);
            }
        }
        assert forall|j: int, k: int| 0 <= j < k < cards.len() implies (
        #[trigger] cards[j]).process < (#[trigger] cards[k]).process by {
            assert(cards[j] == before[j]);
            if k < before.len() {
                assert(cards[k] == before[k]);
            }
        }
    }
}

/// A conversation has a part of the agent exactly where a coding agent is over.
/// The part stands where the first of the coding agents began, also where that
/// one still runs, and its file is read as one that is still written exactly
/// while a coding agent runs.
pub proof fn law_agent_part_stands_at_the_first_agent(processes: Seq<ExecutionProcess>)
    ensures
        native_part(processes) is Some <==> exists|i: int|
            0 <= i < processes.len() && (#[trigger] processes[i]).run_reason
                == ExecutionProcessRunReason::CodingAgent && processes[i].status
                != ExecutionProcessStatus::Running,
        native_part(processes) matches Some(part) ==> {
            &&& exists|i: int|
                0 <= i < processes.len() && (#[trigger] processes[i]).run_reason
                    == ExecutionProcessRunReason::CodingAgent && processes[i].created_at == part.at
            &&& forall|i: int|
                0 <= i < processes.len() && (#[trigger] processes[i]).run_reason
                    == ExecutionProcessRunReason::CodingAgent ==> not_after(
                    part.at,
                    processes[i].created_at,
                )
            &&& part.tail == TailPolicy::Running <==> exists|i: int|
                0 <= i < processes.len() && (#[trigger] processes[i]).run_reason
                    == ExecutionProcessRunReason::CodingAgent && processes[i].status
                    == ExecutionProcessStatus::Running
        },
{
    lemma_first_agent(processes);
    if exists|i: int|
        0 <= i < processes.len() && (#[trigger] processes[i]).run_reason
            == ExecutionProcessRunReason::CodingAgent && processes[i].status
            != ExecutionProcessStatus::Running {
        let i = choose|i: int|
            0 <= i < processes.len() && (#[trigger] processes[i]).run_reason
                == ExecutionProcessRunReason::CodingAgent && processes[i].status
                != ExecutionProcessStatus::Running;
        assert(is_finished_agent(processes[i]));
    }
    if exists|i: int|
        0 <= i < processes.len() && (#[trigger] processes[i]).run_reason
            == ExecutionProcessRunReason::CodingAgent && processes[i].status
            == ExecutionProcessStatus::Running {
        let i = choose|i: int|
            0 <= i < processes.len() && (#[trigger] processes[i]).run_reason
                == ExecutionProcessRunReason::CodingAgent && processes[i].status
                == ExecutionProcessStatus::Running;
        assert(is_running_agent(processes[i]));
    }
}

proof fn lemma_first_agent(processes: Seq<ExecutionProcess>)
    ensures
        match first_agent(processes) {
            Some(at) => (exists|i: int|
                0 <= i < processes.len() && (#[trigger] processes[i]).run_reason
                    == ExecutionProcessRunReason::CodingAgent && processes[i].created_at == at)
                && forall|i: int|
                0 <= i < processes.len() && (#[trigger] processes[i]).run_reason
                    == ExecutionProcessRunReason::CodingAgent ==> not_after(
                    at,
                    processes[i].created_at,
                ),
            None => forall|i: int|
                0 <= i < processes.len() ==> (#[trigger] processes[i]).run_reason
                    != ExecutionProcessRunReason::CodingAgent,
        },
    decreases processes.len(),
{
    if processes.len() > 0 {
        let rest = processes.drop_last();
        lemma_first_agent(rest);
        assert(forall|i: int| 0 <= i < rest.len() ==> #[trigger] processes[i] == rest[i]);
        if let Some(at) = first_agent(rest) {
            let i = choose|i: int|
                0 <= i < rest.len() && (#[trigger] rest[i]).run_reason
                    == ExecutionProcessRunReason::CodingAgent && rest[i].created_at == at;
            assert(processes[i] == rest[i]);
        }
        assert(processes[processes.len() - 1] == processes.last());
    }
}

/// Nothing of a conversation is lost where its empty blocks are left out: the
/// blocks that hold something stay, each with its time, and in their order.
pub proof fn law_filled_blocks_keep_every_entry<T>(blocks: Seq<(Timestamp, Vec<T>)>)
    ensures
        flat(filled_blocks(blocks)) == flat(blocks),
        forall|block: (Timestamp, Vec<T>)|
            blocks.contains(block) && block.1@.len() > 0 ==> #[trigger] filled_blocks(
                blocks,
            ).contains(block),
        forall|i: int|
            0 <= i < filled_blocks(blocks).len() ==> blocks.contains(
                #[trigger] filled_blocks(blocks)[i],
            ) && filled_blocks(blocks)[i].1@.len() > 0,
    decreases blocks.len(),
{
    if blocks.len() > 0 {
        let rest = blocks.drop_last();
        let last = blocks.last();
        law_filled_blocks_keep_every_entry(rest);
        lemma_flat_push(filled_blocks(rest), last);
        assert(flat(rest) + last.1@ =~= flat(blocks));
        if last.1@.len() == 0 {
            assert(flat(rest) + last.1@ =~= flat(rest));
        }
        assert forall|block: (Timestamp, Vec<T>)|
            blocks.contains(block) && block.1@.len() > 0 implies #[trigger] filled_blocks(
            blocks,
        ).contains(block) by {
            let i = choose|i: int| 0 <= i < blocks.len() && blocks[i] == block;
            if i < rest.len() {
                assert(rest[i] == block);
                assert(filled_blocks(rest).contains(block));
                let k = choose|k: int|
                    0 <= k < filled_blocks(rest).len() && filled_blocks(rest)[k] == block;
                assert(filled_blocks(blocks)[k] == block);
            } else {
                assert(filled_blocks(blocks)[filled_blocks(rest).len() as int] == block);
            }
        }
        assert forall|i: int| 0 <= i < filled_blocks(blocks).len() implies blocks.contains(
            #[trigger] filled_blocks(blocks)[i],
        ) && filled_blocks(blocks)[i].1@.len() > 0 by {
            let block = filled_blocks(blocks)[i];
            if i < filled_blocks(rest).len() {
                assert(filled_blocks(rest)[i] == block);
                let k = choose|k: int| 0 <= k < rest.len() && rest[k] == block;
                assert(blocks[k] == block);
            } else {
                assert(blocks[blocks.len() - 1] == block);
            }
        }
    }
}

// ---------------------------------------------------------------------------
// Script cards
// ---------------------------------------------------------------------------

/// A message in the raw log of a process.
#[derive(Debug, PartialEq, Eq)]
pub enum LogMsg {
    Stdout(String),
    Stderr(String),
    Other,
}

/// What a log holds of output and error output.
pub open spec fn output_texts(messages: Seq<LogMsg>) -> Seq<Seq<char>>
    decreases messages.len(),
{
    if messages.len() == 0 {
        Seq::empty()
    } else {
        let before = output_texts(messages.drop_last());
        match messages.last() {
            LogMsg::Stdout(text) => before.push(text@),
            LogMsg::Stderr(text) => before.push(text@),
            LogMsg::Other => before,
        }
    }
}

/// The exit code of a script, as it is shown.
pub open spec fn shown_code(exit_code: Option<i64>) -> Option<i32> {
    match exit_code {
        Some(code) => Some(code as i32),
        None => None,
    }
}

/// The card of a script.
pub open spec fn script_entry(
    context: ScriptContextKind,
    script: Seq<char>,
    exit_code: Option<i64>,
    messages: Seq<LogMsg>,
) -> EntryView {
    let code = shown_code(exit_code);
    plain_entry(
        EntryKind::ToolUse {
            tool_name: card_name(context),
            action: ActionView::CommandRun {
                command: script,
                result: Some(
                    RunResultView {
                        exit_status: match code {
                            Some(code) => Some(CommandExitStatus::ExitCode { code }),
                            None => None,
                        },
                        output: Some(joined(output_texts(messages), "\n"@)),
                    },
                ),
            },
            status: if code == Some(0i32) {
                ToolStatus::Success
            } else {
                ToolStatus::Failed
            },
        },
        card_name(context),
    )
}

fn log_output(messages: &Vec<LogMsg>) -> (output: String)
    ensures
        output@ == joined(output_texts(messages@), "\n"@),
{
    let mut texts: Vec<String> = Vec::new();
    let mut i: usize = 0;
    assert(views(texts@) =~= Seq::empty());
    while i < messages.len()
        invariant
            i <= messages@.len(),
            views(texts@) == output_texts(messages@.take(i as int)),
        decreases messages@.len() - i,
    {
        proof {
            let seen = messages@.take(i + 1);
            assert(seen.drop_last() =~= messages@.take(i as int));
            assert(seen.last() == messages@[i as int]);
        }
        match &messages[i] {
            LogMsg::Stdout(text) => {
                proof {
                    lemma_views_push(texts@, *text);
                }
                texts.push(text.clone());
            },
            LogMsg::Stderr(text) => {
                proof {
                    lemma_views_push(texts@, *text);
                }
                texts.push(text.clone());
            },
            LogMsg::Other => {},
        }
        i = i + 1;
    }
    assert(messages@.take(messages@.len() as int) =~= messages@);
    join(&texts, "\n")
}

/// What is read from the database for a conversation.
#[derive(Clone, Copy, Debug, PartialEq, Eq, Structural)]
pub enum DatabaseRead {
    Session,
    Processes,
    ScriptLogs,
    ScriptMessages,
    Turns,
}

/// How a failed read is reported.
pub open spec fn read_label(read: DatabaseRead) -> Seq<char> {
    match read {
        DatabaseRead::Session => "failed to load session: "@,
        DatabaseRead::Processes => "failed to list execution processes: "@,
        DatabaseRead::ScriptLogs => "failed to load script logs: "@,
        DatabaseRead::ScriptMessages => "failed to parse script logs: "@,
        DatabaseRead::Turns => "failed to load coding agent turns: "@,
    }
}

/// The failure for something that the database could not give.
pub open spec fn database_failure(read: DatabaseRead, message: Seq<char>) -> HistoryFailure {
    HistoryFailure::Corrupt { path: "<db>"@, reason: read_label(read) + message }
}

/// The error for something that the database could not give.
pub fn database_error(read: DatabaseRead, message: &str) -> (error: NativeHistoryError)
    ensures
        error@ == database_failure(read, message@),
{
    let label: &'static str = match read {
        DatabaseRead::Session => "failed to load session: ",
        DatabaseRead::Processes => "failed to list execution processes: ",
        DatabaseRead::ScriptLogs => "failed to load script logs: ",
        DatabaseRead::ScriptMessages => "failed to parse script logs: ",
        DatabaseRead::Turns => "failed to load coding agent turns: ",
    };
    NativeHistoryError::Corrupt { path: "<db>".to_owned(), reason: concat2(label, message) }
}

/// The entries that show a script: one card, or nothing where no log was kept.
/// `records` is the number of log records, and `messages` what they hold.
pub fn build_script_entries(
    context: ScriptContextKind,
    script: String,
    exit_code: Option<i64>,
    records: usize,
    messages: Result<Vec<LogMsg>, String>,
) -> (entries: Result<Vec<NormalizedEntry>, NativeHistoryError>)
    ensures
        if records == 0 {
            entries matches Ok(entries) && entries@.len() == 0
        } else {
            match messages {
                Ok(messages) => entries matches Ok(entries) && entry_views(entries@) == seq![
                    script_entry(context, script@, exit_code, messages@),
                ],
                Err(message) => entries matches Err(error) && error@ == database_failure(
                    DatabaseRead::ScriptMessages,
                    message@,
                ),
            }
        },
{
    if records == 0 {
        return Ok(Vec::new());
    }
    let messages = match messages {
        Ok(messages) => messages,
        Err(message) => {
            return Err(database_error(DatabaseRead::ScriptMessages, &message));
        },
    };
    let output = log_output(&messages);
    let code: Option<i32> = match exit_code {
        Some(code) => Some(#[verifier::truncate] (code as i32)),
        None => None,
    };
    let succeeded = match code {
        Some(code) => code == 0,
        None => false,
    };
    let exit_status = match code {
        Some(code) => Some(CommandExitStatus::ExitCode { code }),
        None => None,
    };
    let entry = NormalizedEntry::plain(
        NormalizedEntryType::ToolUse {
            tool_name: context.tool_name().to_owned(),
            action_type: ActionType::CommandRun {
                command: script,
                result: Some(CommandRunResult { exit_status, output: Some(output) }),
            },
            status: if succeeded {
                ToolStatus::Success
            } else {
                ToolStatus::Failed
            },
        },
        context.tool_name().to_owned(),
    );
    let mut entries: Vec<NormalizedEntry> = Vec::new();
    entries.push(entry);
    assert(entry_views(entries@) =~= seq![entry@]);
    Ok(entries)
}

/// The card of a script says that it succeeded exactly where its process ended
/// with exit code 0. Any other code, and none at all, is a failure, whatever the
/// script is for and whatever it printed. Exit codes have 32 bits: of a longer
/// one the low 32 bits count.
pub proof fn law_script_succeeds_exactly_with_code_zero(
    context: ScriptContextKind,
    script: Seq<char>,
    exit_code: Option<i64>,
    messages: Seq<LogMsg>,
)
    ensures
        script_entry(context, script, exit_code, messages).kind matches EntryKind::ToolUse {
            status,
            ..
        } && {
            &&& status == ToolStatus::Success || status == ToolStatus::Failed
            &&& exit_code is None ==> status == ToolStatus::Failed
            &&& exit_code matches Some(code) ==> {
                &&& i32::MIN <= code <= i32::MAX ==> (status == ToolStatus::Success <==> code == 0)
                &&& status == ToolStatus::Success <==> code % 0x1_0000_0000 == 0
            }
        },
{
    if let Some(code) = exit_code {
        assert((code as i32 == 0i32) == (code & 0xffff_ffffi64 == 0i64)) by (bit_vector);
        assert((code & 0xffff_ffffi64 == 0i64) == (code % 0x1_0000_0000i64 == 0i64)) by (bit_vector);
    }
}

/// The card of a script shows the script as a command, what it printed, and the
/// exit code, and is named after what the script is for.
pub proof fn law_script_card_shows_script_output_and_code(
    context: ScriptContextKind,
    script: Seq<char>,
    exit_code: Option<i64>,
    messages: Seq<LogMsg>,
)
    ensures
        ({
            let name = match context {
                ScriptContextKind::Setup => "Setup Script"@,
                ScriptContextKind::Cleanup => "Cleanup Script"@,
                ScriptContextKind::ToolInstall => "Tool Install Script"@,
            };
            let entry = script_entry(context, script, exit_code, messages);
            &&& entry.timestamp is None
            &&& entry.metadata is None
            &&& entry.content == name
            &&& entry.kind matches EntryKind::ToolUse { tool_name, action, .. } && {
                &&& tool_name == name
                &&& action matches ActionView::CommandRun { command, result: Some(result) } && {
                    &&& command == script
                    &&& result.output == Some(joined(output_texts(messages), "\n"@))
                    &&& exit_code is None ==> result.exit_status is None
                    &&& exit_code matches Some(code) ==> (i32::MIN <= code <= i32::MAX ==> (
                    result.exit_status matches Some(CommandExitStatus::ExitCode { code: shown })
                        && shown == code))
                }
            }
        }),
{
}

/// The output of a script is what its process wrote to its output and its error
/// output, in the order of the log, and nothing else.
pub proof fn law_script_output_is_what_was_printed(messages: Seq<LogMsg>, more: Seq<LogMsg>)
    ensures
        output_texts(Seq::empty()) == Seq::<Seq<char>>::empty(),
        output_texts(messages + more) == output_texts(messages) + output_texts(more),
        forall|text: String| #[trigger]
            output_texts(seq![LogMsg::Stdout(text)]) == seq![text@],
        forall|text: String| #[trigger]
            output_texts(seq![LogMsg::Stderr(text)]) == seq![text@],
        output_texts(seq![LogMsg::Other]) == Seq::<Seq<char>>::empty(),
    decreases more.len(),
{
    reveal_with_fuel(output_texts, 2);
    assert forall|text: String| #[trigger]
        output_texts(seq![LogMsg::Stdout(text)]) == seq![text@] by {
        assert(seq![LogMsg::Stdout(text)].drop_last() =~= Seq::empty());
        assert(Seq::<Seq<char>>::empty().push(text@) =~= seq![text@]);
    }
    assert forall|text: String| #[trigger]
        output_texts(seq![LogMsg::Stderr(text)]) == seq![text@] by {
        assert(seq![LogMsg::Stderr(text)].drop_last() =~= Seq::empty());
        assert(Seq::<Seq<char>>::empty().push(text@) =~= seq![text@]);
    }
    assert(seq![LogMsg::Other].drop_last() =~= Seq::empty());
    if more.len() == 0 {
        assert(messages + more =~= messages);
        assert(output_texts(messages) + output_texts(more) =~= output_texts(messages));
    } else {
        law_script_output_is_what_was_printed(messages, more.drop_last());
        assert((messages + more).drop_last() =~= messages + more.drop_last());
        assert(output_texts(messages + more) =~= output_texts(messages) + output_texts(more));
    }
}

/// What the database could not give is reported as a corrupt history at `<db>`,
/// and each read has a reason of its own in front of the message.
pub proof fn law_failed_reads_are_named(message: Seq<char>)
    ensures
        database_failure(DatabaseRead::Session, message) == (HistoryFailure::Corrupt {
            path: "<db>"@,
            reason: "failed to load session: "@ + message,
        }),
        database_failure(DatabaseRead::Processes, message) == (HistoryFailure::Corrupt {
            path: "<db>"@,
            reason: "failed to list execution processes: "@ + message,
        }),
        database_failure(DatabaseRead::ScriptLogs, message) == (HistoryFailure::Corrupt {
            path: "<db>"@,
            reason: "failed to load script logs: "@ + message,
        }),
        database_failure(DatabaseRead::ScriptMessages, message) == (HistoryFailure::Corrupt {
            path: "<db>"@,
            reason: "failed to parse script logs: "@ + message,
        }),
        database_failure(DatabaseRead::Turns, message) == (HistoryFailure::Corrupt {
            path: "<db>"@,
            reason: "failed to load coding agent turns: "@ + message,
        }),
{
}

// ---------------------------------------------------------------------------
// The agent's own history
// ---------------------------------------------------------------------------

/// The session of an agent: its id, the agent, and the directory in which the
/// agent worked, which is only a hint.
#[derive(Debug, PartialEq, Eq)]
pub struct AgentSession {
    pub session_id: String,
    pub agent: BaseCodingAgent,
    pub cwd: String,
}

/// Which session of which agent is to be read. `agent` is the agent that the
/// executor names, where it names one.
pub fn agent_session(
    session_id: Option<String>,
    executor: Option<String>,
    agent: Option<BaseCodingAgent>,
    container_ref: Option<String>,
) -> (session: Result<AgentSession, NativeHistoryError>)
    ensures
        match (session_id, executor, agent) {
            (Some(session_id), Some(_), Some(agent)) => session matches Ok(session)
                && session.session_id == session_id && session.agent == agent && session.cwd@
                == match container_ref {
                Some(directory) => directory@,
                None => "/"@,
            },
            (Some(_), Some(executor), None) => session matches Err(error) && error@
                == HistoryFailure::FormatUnsupported(
                "executor '"@ + executor@ + "' is not supported"@,
            ),
            _ => session matches Err(error) && error@ == HistoryFailure::SessionIdMissing,
        },
{
    match (session_id, executor) {
        (Some(session_id), Some(executor)) => match agent {
            Some(agent) => {
                let cwd = match container_ref {
                    Some(directory) => directory,
                    None => "/".to_owned(),
                };
                Ok(AgentSession { session_id, agent, cwd })
            },
            None => Err(
                NativeHistoryError::FormatUnsupported(
                    concat3("executor '", &executor, "' is not supported"),
                ),
            ),
        },
        _ => Err(NativeHistoryError::SessionIdMissing),
    }
}

/// How many histories are kept.
pub const MAX_CACHE_ENTRIES: usize = 64;

/// What a history is kept under: the session, that of the agent, and the state
/// of the session file.
#[derive(Debug, PartialEq, Eq)]
pub struct CacheKey {
    pub session_id: u128,
    pub agent_session_id: String,
    pub fingerprint: FileFingerprint,
}

/// Model of [`CacheKey`].
pub struct KeyView {
    pub session_id: u128,
    pub agent_session_id: Seq<char>,
    pub path: Seq<char>,
    pub len: u64,
    pub modified_ms: Option<i64>,
}

impl View for CacheKey {
    type V = KeyView;

    open spec fn view(&self) -> KeyView {
        KeyView {
            session_id: self.session_id,
            agent_session_id: self.agent_session_id@,
            path: self.fingerprint.path@,
            len: self.fingerprint.len,
            modified_ms: self.fingerprint.modified_ms,
        }
    }
}

impl CacheKey {
    /// Whether two keys are the same.
    pub fn same_as(&self, other: &CacheKey) -> (equal: bool)
        ensures
            equal == (self@ == other@),
    {
        self.session_id == other.session_id && same(
            &self.agent_session_id,
            &other.agent_session_id,
        ) && self.fingerprint.same_as(&other.fingerprint)
    }
}

/// Whether a history may be kept: not where its last line was still being
/// written, since the same file is corrupt once its agent has ended.
pub fn may_keep(history: &NativeSessionHistory) -> (keep: bool)
    ensures
        keep == !history.partial_tail,
{
    !history.partial_tail
}

/// How many times a read is tried again.
pub const MAX_RETRIES: usize = 4;

/// The pauses before a read is tried again, in milliseconds.
pub open spec fn retry_pauses() -> Seq<u64> {
    seq![100, 250, 500, 1000]
}

/// How long to wait before a read that failed is tried again, in milliseconds,
/// given how often it was tried again before. Only the history of an agent that
/// still runs and has not flushed it is read again, and only so often.
pub fn retry_pause(error: &NativeHistoryError, tail: TailPolicy, retries: usize) -> (pause: Option<
    u64,
>)
    ensures
        pause == if error@ is NotFlushed && tail == TailPolicy::Running && retries < MAX_RETRIES {
            Some(retry_pauses()[retries as int])
        } else {
            None
        },
{
    let running = match tail {
        TailPolicy::Running => true,
        TailPolicy::Completed => false,
    };
    if !error.retryable() || !running {
        None
    } else if retries == 0 {
        Some(100)
    } else if retries == 1 {
        Some(250)
    } else if retries == 2 {
        Some(500)
    } else if retries == 3 {
        Some(1000)
    } else {
        None
    }
}

/// The pauses before a read is tried again grow, and are two seconds together
/// at most.
pub proof fn law_retries_are_bounded()
    ensures
        retry_pauses().len() == MAX_RETRIES,
        retry_pauses().fold_left(0, |sum: int, pause: u64| sum + pause) <= 2000,
        forall|i: int, j: int|
            0 <= i < j < retry_pauses().len() ==> #[trigger] retry_pauses()[i]
                < #[trigger] retry_pauses()[j],
{
    reveal_with_fuel(Seq::fold_left, 5);
}

/// Histories that were read, by session and state of the session file.
#[derive(Debug)]
pub struct NativeHistoryCache {
    kept: Vec<(CacheKey, Vec<NormalizedEntry>)>,
}

spec fn keys_of(kept: Seq<(CacheKey, Vec<NormalizedEntry>)>) -> Seq<KeyView> {
    kept.map_values(|item: (CacheKey, Vec<NormalizedEntry>)| item.0@)
}

spec fn place_of(kept: Seq<(CacheKey, Vec<NormalizedEntry>)>, key: KeyView) -> int {
    choose|i: int| 0 <= i < kept.len() && keys_of(kept)[i] == key
}

impl View for NativeHistoryCache {
    type V = Map<KeyView, Seq<EntryView>>;

    closed spec fn view(&self) -> Map<KeyView, Seq<EntryView>> {
        Map::new(
            |key: KeyView| keys_of(self.kept@).contains(key),
            |key: KeyView| entry_views(self.kept@[place_of(self.kept@, key)].1@),
        )
    }
}

/// What keeping a history leaves in the cache, which is emptied first where it
/// is full.
pub open spec fn kept_after(
    before: Map<KeyView, Seq<EntryView>>,
    key: KeyView,
    entries: Seq<EntryView>,
) -> Map<KeyView, Seq<EntryView>> {
    let room = if before.dom().len() >= MAX_CACHE_ENTRIES {
        Map::empty()
    } else {
        before
    };
    room.insert(key, entries)
}

impl NativeHistoryCache {
    /// Whether no key is kept twice, and there are not too many.
    pub closed spec fn wf(&self) -> bool {
        keys_of(self.kept@).no_duplicates() && self.kept@.len() <= MAX_CACHE_ENTRIES
    }

    proof fn lemma_size(&self)
        requires
            self.wf(),
        ensures
            self@.dom().len() == self.kept@.len(),
            self@.dom().finite(),
    {
        let keys = keys_of(self.kept@);
        keys.unique_seq_to_set();
        assert(self@.dom() =~= keys.to_set());
        vstd::seq_lib::seq_to_set_is_finite(keys);
    }

    proof fn lemma_place(&self, i: int)
        requires
            self.wf(),
            0 <= i < self.kept@.len(),
        ensures
            self@.contains_key(self.kept@[i].0@),
            self@[self.kept@[i].0@] == entry_views(self.kept@[i].1@),
    {
        let keys = keys_of(self.kept@);
        let key = self.kept@[i].0@;
        assert(keys[i] == key);
        assert(keys.contains(key));
        let place = place_of(self.kept@, key);
        assert(0 <= place < keys.len() && keys[place] == key);
        assert(place == i);
    }

    /// A cache that keeps nothing.
    pub fn new() -> (cache: Self)
        ensures
            cache.wf(),
            cache@ == Map::<KeyView, Seq<EntryView>>::empty(),
    {
        let cache = NativeHistoryCache { kept: Vec::new() };
        assert(cache@ =~= Map::empty());
        cache
    }

    /// The history that is kept under a key.
    pub fn get(&self, key: &CacheKey) -> (found: Option<Vec<NormalizedEntry>>)
        requires
            self.wf(),
        ensures
            match found {
                Some(entries) => self@.contains_key(key@) && self@[key@] == entry_views(entries@),
                None => !self@.contains_key(key@),
            },
    {
        let mut i: usize = 0;
        while i < self.kept.len()
            invariant
                i <= self.kept@.len(),
                self.wf(),
                forall|k: int| 0 <= k < i ==> (#[trigger] self.kept@[k]).0@ != key@,
            decreases self.kept@.len() - i,
        {
            if self.kept[i].0.same_as(key) {
                proof {
                    self.lemma_place(i as int);
                }
                return Some(copy_entries(&self.kept[i].1));
            }
            i = i + 1;
        }
        proof {
            let keys = keys_of(self.kept@);
            if keys.contains(key@) {
                let k = choose|k: int| 0 <= k < keys.len() && keys[k] == key@;
                assert(self.kept@[k].0@ == key@);
            }
        }
        None
    }

    fn remove(&mut self, key: &CacheKey)
        requires
            old(self).wf(),
        ensures
            final(self).wf(),
            final(self)@ == old(self)@.remove(key@),
            final(self).kept@.len() <= old(self).kept@.len(),
            !keys_of(final(self).kept@).contains(key@),
    {
        let ghost before = *self;
        let mut i: usize = 0;
        while i < self.kept.len()
            invariant
                i <= self.kept@.len(),
                *self == before,
                before == *old(self),
                self.wf(),
                forall|k: int| 0 <= k < i ==> (#[trigger] self.kept@[k]).0@ != key@,
            decreases self.kept@.len() - i,
        {
            if self.kept[i].0.same_as(key) {
                let _ = self.kept.remove(i);
                proof {
                    before.lemma_removed(*self, i as int);
                }
                return;
            }
            i = i + 1;
        }
        proof {
            let keys = keys_of(self.kept@);
            if keys.contains(key@) {
                let k = choose|k: int| 0 <= k < keys.len() && keys[k] == key@;
                assert(self.kept@[k].0@ == key@);
            }
            assert(self@ =~= before@.remove(key@));
        }
    }

    proof fn lemma_removed(self, after: Self, at: int)
        requires
            self.wf(),
            0 <= at < self.kept@.len(),
            after.kept@ == self.kept@.remove(at),
        ensures
            after.wf(),
            after@ == self@.remove(self.kept@[at].0@),
            !keys_of(after.kept@).contains(self.kept@[at].0@),
    {
        let key = self.kept@[at].0@;
        let old_keys = keys_of(self.kept@);
        let new_keys = keys_of(after.kept@);
        assert(new_keys =~= old_keys.remove(at));
        assert(old_keys[at] == key);
        assert forall|i: int, j: int| 0 <= i < j < new_keys.len() implies new_keys[i]
            != new_keys[j] by {
            let old_i = if i < at {
                i
            } else {
                i + 1
            };
            let old_j = if j < at {
                j
            } else {
                j + 1
            };
            assert(new_keys[i] == old_keys[old_i] && new_keys[j] == old_keys[old_j]);
        }
        assert forall|k: int| 0 <= k < new_keys.len() implies new_keys[k] != key by {
            let old_k = if k < at {
                k
            } else {
                k + 1
            };
            assert(new_keys[k] == old_keys[old_k]);
        }
        assert forall|other: KeyView| after@.contains_key(other) == #[trigger] self@.remove(
            key,
        ).contains_key(other) by {
            if new_keys.contains(other) {
                let k = choose|k: int| 0 <= k < new_keys.len() && new_keys[k] == other;
                let old_k = if k < at {
                    k
                } else {
                    k + 1
                };
                assert(old_keys[old_k] == other);
            }
            if old_keys.contains(other) && other != key {
                let k = choose|k: int| 0 <= k < old_keys.len() && old_keys[k] == other;
                let new_k = if k < at {
                    k
                } else {
                    k - 1
                };
                assert(new_keys[new_k] == other);
            }
        }
        assert forall|other: KeyView| after@.contains_key(other) implies #[trigger] after@[other]
            == self@[other] by {
            let k = choose|k: int| 0 <= k < new_keys.len() && new_keys[k] == other;
            let old_k = if k < at {
                k
            } else {
                k + 1
            };
            assert(after.kept@[k].0@ == other);
            assert(self.kept@[old_k].0@ == other);
            after.lemma_place(k);
            self.lemma_place(old_k);
        }
        assert(after@ =~= self@.remove(key));
    }

    /// Keeps a history under a key, in place of what is kept there. A full
    /// cache is emptied first.
    pub fn insert(&mut self, key: CacheKey, entries: Vec<NormalizedEntry>)
        requires
            old(self).wf(),
        ensures
            final(self).wf(),
            final(self)@ == kept_after(old(self)@, key@, entry_views(entries@)),
    {
        proof {
            self.lemma_size();
        }
        if self.kept.len() >= MAX_CACHE_ENTRIES {
            self.kept = Vec::new();
            assert(self@ =~= Map::empty());
        }
        let ghost room = self@;
        self.remove(&key);
        let ghost without = *self;
        let ghost new_key = key@;
        let ghost new_entries = entry_views(entries@);
        assert(without.kept@.len() < MAX_CACHE_ENTRIES);
        self.kept.push((key, entries));
        proof {
            let old_keys = keys_of(without.kept@);
            let new_keys = keys_of(self.kept@);
            assert(new_keys =~= old_keys.push(new_key));
            assert(self.wf());
            assert forall|other: KeyView| self@.contains_key(other) == #[trigger] room.insert(
                new_key,
                new_entries,
            ).contains_key(other) by {
                assert(without@.contains_key(other) == (room.contains_key(other) && other
                    != new_key));
                if new_keys.contains(other) {
                    let k = choose|k: int| 0 <= k < new_keys.len() && new_keys[k] == other;
                    if k < old_keys.len() {
                        assert(old_keys[k] == other);
                    }
                }
                if old_keys.contains(other) {
                    let k = choose|k: int| 0 <= k < old_keys.len() && old_keys[k] == other;
                    assert(new_keys[k] == other);
                }
                assert(new_keys[old_keys.len() as int] == new_key);
            }
            assert forall|other: KeyView| self@.contains_key(other) implies #[trigger] self@[other]
                == room.insert(new_key, new_entries)[other] by {
                let k = choose|k: int| 0 <= k < new_keys.len() && new_keys[k] == other;
                assert(self.kept@[k].0@ == other);
                self.lemma_place(k);
                if k < old_keys.len() {
                    assert(without.kept@[k].0@ == other);
                    without.lemma_place(k);
                    assert(old_keys[k] == other);
                    assert(other != new_key);
                }
            }
            assert(self@ =~= room.insert(new_key, new_entries));
        }
    }
}

/// What was kept last under a key is what the cache gives for it.
pub proof fn law_kept_history_is_found(
    before: Map<KeyView, Seq<EntryView>>,
    key: KeyView,
    entries: Seq<EntryView>,
)
    ensures
        kept_after(before, key, entries).contains_key(key),
        kept_after(before, key, entries)[key] == entries,
{
}

/// A session file that has changed is not answered from the cache with what
/// was kept for its former state: keeping a history under one key gives no
/// answer for another.
pub proof fn law_changed_file_is_read_again(
    before: Map<KeyView, Seq<EntryView>>,
    key: KeyView,
    entries: Seq<EntryView>,
    other: KeyView,
)
    requires
        other != key,
        !before.contains_key(other),
    ensures
        !kept_after(before, key, entries).contains_key(other),
{
}

/// The cache stays small.
pub proof fn law_cache_is_bounded(
    before: Map<KeyView, Seq<EntryView>>,
    key: KeyView,
    entries: Seq<EntryView>,
)
    requires
        before.dom().finite(),
        before.dom().len() <= MAX_CACHE_ENTRIES,
    ensures
        kept_after(before, key, entries).dom().len() <= MAX_CACHE_ENTRIES,
{
    let room = if before.dom().len() >= MAX_CACHE_ENTRIES {
        Map::<KeyView, Seq<EntryView>>::empty()
    } else {
        before
    };
    assert(room.insert(key, entries).dom() =~= room.dom().insert(key));
}

/// While there is room for another history, those that are kept stay. Where 64
/// are kept, they all make room for the new one.
pub proof fn law_kept_histories_stay_while_there_is_room(
    before: Map<KeyView, Seq<EntryView>>,
    key: KeyView,
    entries: Seq<EntryView>,
    other: KeyView,
)
    requires
        before.dom().finite(),
        other != key,
    ensures
        before.dom().len() < 64 ==> (kept_after(before, key, entries).contains_key(other)
            <==> before.contains_key(other)),
        before.dom().len() < 64 && before.contains_key(other) ==> kept_after(
            before,
            key,
            entries,
        )[other] == before[other],
        before.dom().len() >= 64 ==> !kept_after(before, key, entries).contains_key(other),
{
}

/// A read is tried again four times, after a tenth, a quarter, a half and a whole
/// second.
pub proof fn law_retries_pause_longer_each_time()
    ensures
        retry_pauses().len() == 4,
        retry_pauses()[0] == 100,
        retry_pauses()[1] == 250,
        retry_pauses()[2] == 500,
        retry_pauses()[3] == 1000,
{
}

/// The model of [`ScriptCard`] holds what the value does, part by part.
pub proof fn law_model_of_script_card(value: ScriptCard)
    ensures
        value@.process == value.process as int,
        value@.context == value.context,
        value@.script == value.script@,
{
}

/// The model of [`CacheKey`] holds what the value does, part by part.
pub proof fn law_model_of_cache_key(value: CacheKey)
    ensures
        value@.session_id == value.session_id,
        value@.agent_session_id == value.agent_session_id@,
        value@.path == value.fingerprint.path@,
        value@.len == value.fingerprint.len,
        value@.modified_ms == value.fingerprint.modified_ms,
{
}

} // verus!
