//! What becomes of tool calls and their answers when the parts of a session are
//! gone through in order.
//!
//! The agents write sessions in different forms. In each of them a part is
//! hidden, shown as an entry, shown as a call that waits for an answer, or the
//! answer to a call; what follows from that alone is proved here once.

use vstd::prelude::*;

use crate::entries::EntryView;
use crate::tool_slots::{insert_slot, lemma_slot_index, remove_slot, slot_index, SlotView};

verus! {

/// What a part of a session does to a conversation. `C` is what is known of a
/// call besides its entry, and `A` what an answer brings.
pub enum Part<C, A> {
    Hidden,
    Shown { entry: EntryView },
    Call { id: Seq<char>, entry: EntryView, call: C },
    Answer { id: Seq<char>, answer: A },
}

/// A conversation, and the calls in it that wait: where their entries are, and
/// what is known of them.
pub struct Replay<C> {
    pub entries: Seq<EntryView>,
    pub open: Map<Seq<char>, (int, C)>,
}

/// One more part. `complete` makes the entry of an answered call.
pub open spec fn part_step<C, A>(
    before: Replay<C>,
    part: Part<C, A>,
    complete: spec_fn(EntryView, C, A) -> EntryView,
) -> Replay<C> {
    match part {
        Part::Hidden => before,
        Part::Shown { entry } => Replay { entries: before.entries.push(entry), ..before },
        Part::Call { id, entry, call } => Replay {
            entries: before.entries.push(entry),
            open: before.open.insert(id, (before.entries.len() as int, call)),
        },
        Part::Answer { id, answer } => if before.open.contains_key(id) {
            let (position, call) = before.open[id];
            Replay {
                entries: before.entries.update(
                    position,
                    complete(before.entries[position], call, answer),
                ),
                open: before.open.remove(id),
            }
        } else {
            before
        },
    }
}

/// What parts lead to.
pub open spec fn replay<C, A>(
    parts: Seq<Part<C, A>>,
    complete: spec_fn(EntryView, C, A) -> EntryView,
) -> Replay<C>
    decreases parts.len(),
{
    if parts.len() == 0 {
        Replay { entries: Seq::empty(), open: Map::empty() }
    } else {
        part_step(replay(parts.drop_last(), complete), parts.last(), complete)
    }
}

/// Whether a part has an entry of its own.
pub open spec fn has_entry<C, A>(part: Part<C, A>) -> bool {
    part is Shown || part is Call
}

/// How many of the first `to` parts have an entry of their own.
pub open spec fn entries_before<C, A>(parts: Seq<Part<C, A>>, to: int) -> int
    decreases to,
{
    if to <= 0 {
        0
    } else if has_entry(parts[to - 1]) {
        entries_before(parts, to - 1) + 1
    } else {
        entries_before(parts, to - 1)
    }
}

/// Whether a part speaks of a call with an id: makes it or answers it.
pub open spec fn speaks_of<C, A>(part: Part<C, A>, id: Seq<char>) -> bool {
    match part {
        Part::Call { id: own, .. } => own == id,
        Part::Answer { id: own, .. } => own == id,
        _ => false,
    }
}

/// Whether no part from `from` up to but not including `to` speaks of a call
/// with an id.
pub open spec fn is_silent<C, A>(parts: Seq<Part<C, A>>, id: Seq<char>, from: int, to: int) -> bool {
    forall|k: int| from <= k < to ==> !speaks_of(#[trigger] parts[k], id)
}

proof fn lemma_take<C, A>(
    parts: Seq<Part<C, A>>,
    to: int,
    complete: spec_fn(EntryView, C, A) -> EntryView,
)
    requires
        0 < to <= parts.len(),
    ensures
        replay(parts.take(to), complete) == part_step(
            replay(parts.take(to - 1), complete),
            parts[to - 1],
            complete,
        ),
{
    assert(parts.take(to).drop_last() =~= parts.take(to - 1));
}

/// Every waiting call has an entry, and no two have the same.
spec fn is_sound<C>(state: Replay<C>) -> bool {
    &&& forall|id: Seq<char>|
        #[trigger] state.open.contains_key(id) ==> 0 <= state.open[id].0 < state.entries.len()
    &&& forall|id: Seq<char>, other: Seq<char>|
        #[trigger] state.open.contains_key(id) && #[trigger] state.open.contains_key(other) && id
            != other ==> state.open[id].0 != state.open[other].0
}

proof fn lemma_sound<C, A>(
    parts: Seq<Part<C, A>>,
    to: int,
    complete: spec_fn(EntryView, C, A) -> EntryView,
)
    requires
        0 <= to <= parts.len(),
    ensures
        is_sound(replay(parts.take(to), complete)),
        replay(parts.take(to), complete).entries.len() == entries_before(parts, to),
    decreases to,
{
    if to > 0 {
        lemma_sound(parts, to - 1, complete);
        lemma_take(parts, to, complete);
    } else {
        assert(parts.take(0) =~= Seq::empty());
    }
}

/// There are as many entries as parts that have one.
pub proof fn lemma_entry_count<C, A>(
    parts: Seq<Part<C, A>>,
    complete: spec_fn(EntryView, C, A) -> EntryView,
)
    ensures
        replay(parts, complete).entries.len() == entries_before(parts, parts.len() as int),
{
    lemma_sound(parts, parts.len() as int, complete);
    assert(parts.take(parts.len() as int) =~= parts);
}

/// Every waiting call has an entry.
pub proof fn lemma_waiting_fit<C, A>(
    parts: Seq<Part<C, A>>,
    complete: spec_fn(EntryView, C, A) -> EntryView,
)
    ensures
        forall|id: Seq<char>| #[trigger]
            replay(parts, complete).open.contains_key(id) ==> 0 <= replay(
                parts,
                complete,
            ).open[id].0 < replay(parts, complete).entries.len(),
{
    lemma_sound(parts, parts.len() as int, complete);
    assert(parts.take(parts.len() as int) =~= parts);
}

/// Whether no call waits for an answer at a position.
pub open spec fn is_done<C>(state: Replay<C>, position: int) -> bool {
    forall|id: Seq<char>| #[trigger] state.open.contains_key(id) ==> state.open[id].0 != position
}

proof fn lemma_done_stays<C, A>(
    parts: Seq<Part<C, A>>,
    position: int,
    from: int,
    to: int,
    complete: spec_fn(EntryView, C, A) -> EntryView,
)
    requires
        0 <= from <= to <= parts.len(),
        0 <= position < replay(parts.take(from), complete).entries.len(),
        is_done(replay(parts.take(from), complete), position),
    ensures
        position < replay(parts.take(to), complete).entries.len(),
        is_done(replay(parts.take(to), complete), position),
        replay(parts.take(to), complete).entries[position] == replay(
            parts.take(from),
            complete,
        ).entries[position],
    decreases to - from,
{
    if to > from {
        lemma_done_stays(parts, position, from, to - 1, complete);
        lemma_take(parts, to, complete);
        lemma_sound(parts, to - 1, complete);
    }
}

/// A part that is shown keeps its entry.
pub proof fn lemma_shown<C, A>(
    parts: Seq<Part<C, A>>,
    at: int,
    complete: spec_fn(EntryView, C, A) -> EntryView,
)
    requires
        0 <= at < parts.len(),
        parts[at] is Shown,
    ensures
        ({
            let end = replay(parts, complete);
            let position = entries_before(parts, at);
            &&& 0 <= position < end.entries.len()
            &&& end.entries[position] == parts[at]->Shown_entry
            &&& is_done(end, position)
        }),
{
    let position = entries_before(parts, at);
    lemma_sound(parts, at, complete);
    lemma_take(parts, at + 1, complete);
    lemma_done_stays(parts, position, at + 1, parts.len() as int, complete);
    assert(parts.take(parts.len() as int) =~= parts);
}

proof fn lemma_call_waits<C, A>(
    parts: Seq<Part<C, A>>,
    at: int,
    to: int,
    complete: spec_fn(EntryView, C, A) -> EntryView,
)
    requires
        0 <= at < to <= parts.len(),
        parts[at] is Call,
        is_silent(parts, parts[at]->Call_id, at + 1, to),
    ensures
        ({
            let state = replay(parts.take(to), complete);
            let id = parts[at]->Call_id;
            let position = entries_before(parts, at);
            &&& state.open.contains_key(id)
            &&& state.open[id] == (position, parts[at]->Call_call)
            &&& 0 <= position < state.entries.len()
            &&& state.entries[position] == parts[at]->Call_entry
        }),
    decreases to - at,
{
    lemma_take(parts, to, complete);
    lemma_sound(parts, to - 1, complete);
    if to > at + 1 {
        lemma_call_waits(parts, at, to - 1, complete);
        assert(!speaks_of(parts[to - 1], parts[at]->Call_id));
    }
}

/// A call that is answered, with nothing said of its id in between, is shown as
/// the answer completes it.
pub proof fn lemma_answered<C, A>(
    parts: Seq<Part<C, A>>,
    at: int,
    answer: int,
    complete: spec_fn(EntryView, C, A) -> EntryView,
)
    requires
        0 <= at < answer < parts.len(),
        parts[at] is Call,
        parts[answer] is Answer,
        parts[answer]->Answer_id == parts[at]->Call_id,
        is_silent(parts, parts[at]->Call_id, at + 1, answer),
    ensures
        ({
            let end = replay(parts, complete);
            let position = entries_before(parts, at);
            &&& 0 <= position < end.entries.len()
            &&& end.entries[position] == complete(
                parts[at]->Call_entry,
                parts[at]->Call_call,
                parts[answer]->Answer_answer,
            )
            &&& is_done(end, position)
        }),
{
    let position = entries_before(parts, at);
    lemma_call_waits(parts, at, answer, complete);
    lemma_sound(parts, answer, complete);
    lemma_take(parts, answer + 1, complete);
    lemma_done_stays(parts, position, answer + 1, parts.len() as int, complete);
    assert(parts.take(parts.len() as int) =~= parts);
}

/// A call of whose id nothing is said afterwards still waits at the end.
pub proof fn lemma_unanswered<C, A>(
    parts: Seq<Part<C, A>>,
    at: int,
    complete: spec_fn(EntryView, C, A) -> EntryView,
)
    requires
        0 <= at < parts.len(),
        parts[at] is Call,
        is_silent(parts, parts[at]->Call_id, at + 1, parts.len() as int),
    ensures
        ({
            let end = replay(parts, complete);
            let id = parts[at]->Call_id;
            let position = entries_before(parts, at);
            &&& 0 <= position < end.entries.len()
            &&& end.entries[position] == parts[at]->Call_entry
            &&& end.open.contains_key(id)
            &&& end.open[id].0 == position
        }),
{
    lemma_call_waits(parts, at, parts.len() as int, complete);
    assert(parts.take(parts.len() as int) =~= parts);
}

/// A call whose id is used again before it is answered keeps its entry.
pub proof fn lemma_superseded<C, A>(
    parts: Seq<Part<C, A>>,
    at: int,
    again: int,
    complete: spec_fn(EntryView, C, A) -> EntryView,
)
    requires
        0 <= at < again < parts.len(),
        parts[at] is Call,
        parts[again] is Call,
        parts[again]->Call_id == parts[at]->Call_id,
        is_silent(parts, parts[at]->Call_id, at + 1, again),
    ensures
        ({
            let end = replay(parts, complete);
            let position = entries_before(parts, at);
            &&& 0 <= position < end.entries.len()
            &&& end.entries[position] == parts[at]->Call_entry
            &&& is_done(end, position)
        }),
{
    let position = entries_before(parts, at);
    lemma_call_waits(parts, at, again, complete);
    lemma_sound(parts, again, complete);
    lemma_take(parts, again + 1, complete);
    lemma_done_stays(parts, position, again + 1, parts.len() as int, complete);
    assert(parts.take(parts.len() as int) =~= parts);
}

// ---------------------------------------------------------------------------
// Lists of open calls
// ---------------------------------------------------------------------------

/// Whether a list of open calls holds the calls that wait.
pub open spec fn tracks<C>(slots: Seq<SlotView>, open: Map<Seq<char>, (int, C)>) -> bool {
    &&& forall|i: int, j: int|
        0 <= i < j < slots.len() ==> (#[trigger] slots[i]).id != (#[trigger] slots[j]).id
    &&& forall|i: int|
        0 <= i < slots.len() ==> open.contains_key((#[trigger] slots[i]).id)
            && open[slots[i].id].0 == slots[i].position
    &&& forall|id: Seq<char>| #[trigger] open.contains_key(id) ==> slot_index(slots, id) is Some
}

proof fn lemma_no_slot(slots: Seq<SlotView>, id: Seq<char>)
    ensures
        slot_index(slots, id) is None <==> forall|k: int|
            0 <= k < slots.len() ==> (#[trigger] slots[k]).id != id,
    decreases slots.len(),
{
    if slots.len() > 0 {
        let rest = slots.drop_last();
        lemma_no_slot(rest, id);
        lemma_slot_index(rest, id);
        if slot_index(slots, id) is None {
            assert forall|k: int| 0 <= k < slots.len() implies (#[trigger] slots[k]).id != id by {
                if k < rest.len() {
                    assert(rest[k] == slots[k]);
                }
            }
        } else if slot_index(rest, id) is Some {
            assert(slots[slot_index(rest, id)->0].id == id);
        } else {
            assert(slots[slots.len() - 1].id == id);
        }
    }
}

/// A call is found in the list exactly where it waits, and with its position.
pub proof fn lemma_tracks_find<C>(
    slots: Seq<SlotView>,
    open: Map<Seq<char>, (int, C)>,
    id: Seq<char>,
)
    requires
        tracks(slots, open),
    ensures
        slot_index(slots, id) is Some <==> open.contains_key(id),
        slot_index(slots, id) matches Some(i) ==> 0 <= i < slots.len() && slots[i].position
            == open[id].0,
{
    lemma_slot_index(slots, id);
}

/// Closing a call keeps the list right.
pub proof fn lemma_tracks_remove<C>(
    slots: Seq<SlotView>,
    open: Map<Seq<char>, (int, C)>,
    id: Seq<char>,
)
    requires
        tracks(slots, open),
    ensures
        tracks(remove_slot(slots, id), open.remove(id)),
        forall|k: int|
            0 <= k < remove_slot(slots, id).len() ==> (#[trigger] remove_slot(slots, id)[k]).id
                != id,
{
    let rest = remove_slot(slots, id);
    lemma_slot_index(slots, id);
    lemma_no_slot(slots, id);
    match slot_index(slots, id) {
        Some(at) => {
            assert forall|k: int| 0 <= k < rest.len() implies (#[trigger] rest[k]).id != id
                && open.remove(id).contains_key(rest[k].id) && open.remove(id)[rest[k].id].0
                == rest[k].position by {
                let from = if k < at {
                    k
                } else {
                    k + 1
                };
                assert(rest[k] == slots[from] && slots[at].id == id);
            }
            assert forall|i: int, j: int| 0 <= i < j < rest.len() implies (#[trigger] rest[i]).id
                != (#[trigger] rest[j]).id by {
                let from = if i < at {
                    i
                } else {
                    i + 1
                };
                let to = if j < at {
                    j
                } else {
                    j + 1
                };
                assert(rest[i] == slots[from] && rest[j] == slots[to]);
            }
            assert forall|other: Seq<char>| #[trigger]
                open.remove(id).contains_key(other) implies slot_index(rest, other) is Some by {
                assert(open.contains_key(other));
                lemma_slot_index(slots, other);
                lemma_no_slot(rest, other);
                let k = slot_index(slots, other)->0;
                let moved = if k < at {
                    k
                } else {
                    k - 1
                };
                assert(rest[moved] == slots[k]);
            }
        },
        None => {
            assert(open.remove(id) =~= open);
        },
    }
}

/// Opening a call keeps the list right.
pub proof fn lemma_tracks_insert<C>(
    slots: Seq<SlotView>,
    open: Map<Seq<char>, (int, C)>,
    id: Seq<char>,
    position: int,
    call: C,
)
    requires
        tracks(slots, open),
    ensures
        tracks(insert_slot(slots, id, position), open.insert(id, (position, call))),
{
    lemma_tracks_remove(slots, open, id);
    let rest = remove_slot(slots, id);
    let slot = SlotView { id, position };
    let after = insert_slot(slots, id, position);
    let known = open.insert(id, (position, call));
    assert(after =~= rest.push(slot));
    assert forall|i: int| 0 <= i < after.len() implies known.contains_key((#[trigger] after[i]).id)
        && known[after[i].id].0 == after[i].position by {
        if i < rest.len() {
            assert(after[i] == rest[i]);
            assert(open.remove(id).contains_key(rest[i].id));
        }
    }
    assert forall|other: Seq<char>| #[trigger] known.contains_key(other) implies slot_index(
        after,
        other,
    ) is Some by {
        lemma_no_slot(after, other);
        if other == id {
            assert(after[after.len() - 1].id == id);
        } else {
            assert(open.remove(id).contains_key(other));
            lemma_slot_index(rest, other);
            assert(after[slot_index(rest, other)->0].id == other);
        }
    }
}

} // verus!
