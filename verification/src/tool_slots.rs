//! The tool calls of a conversation whose results have not come yet.

use vstd::prelude::*;

use crate::entries::{
    entry_views, set_status, set_status_at, EntryKind, EntryView, NormalizedEntry, ToolStatus,
};

verus! {

/// An open call: its id and the position of its entry.
pub struct SlotView {
    pub id: Seq<char>,
    pub position: int,
}

/// The first open call with an id.
pub open spec fn slot_index(slots: Seq<SlotView>, id: Seq<char>) -> Option<int>
    decreases slots.len(),
{
    if slots.len() == 0 {
        None
    } else {
        match slot_index(slots.drop_last(), id) {
            Some(i) => Some(i),
            None => if slots.last().id == id {
                Some(slots.len() - 1)
            } else {
                None
            },
        }
    }
}

/// Opens a call: a newer call with the same id takes the place of an older.
pub open spec fn insert_slot(slots: Seq<SlotView>, id: Seq<char>, position: int) -> Seq<SlotView> {
    match slot_index(slots, id) {
        Some(i) => slots.remove(i).push(SlotView { id, position }),
        None => slots.push(SlotView { id, position }),
    }
}

/// The open calls without the one that has an id.
pub open spec fn remove_slot(slots: Seq<SlotView>, id: Seq<char>) -> Seq<SlotView> {
    match slot_index(slots, id) {
        Some(i) => slots.remove(i),
        None => slots,
    }
}

/// The entries with every open call marked as failed.
pub open spec fn fail_open(entries: Seq<EntryView>, slots: Seq<SlotView>) -> Seq<EntryView>
    decreases slots.len(),
{
    if slots.len() == 0 {
        entries
    } else {
        set_status_at(
            fail_open(entries, slots.drop_last()),
            slots.last().position,
            ToolStatus::Failed,
        )
    }
}

/// Whether every open call has an entry.
pub open spec fn slots_fit(slots: Seq<SlotView>, len: nat) -> bool {
    forall|k: int| 0 <= k < slots.len() ==> 0 <= (#[trigger] slots[k]).position < len
}

/// A found open call is among the open calls and has the id.
pub proof fn lemma_slot_index(slots: Seq<SlotView>, id: Seq<char>)
    ensures
        slot_index(slots, id) matches Some(i) ==> 0 <= i < slots.len() && slots[i].id == id,
    decreases slots.len(),
{
    if slots.len() > 0 {
        lemma_slot_index(slots.drop_last(), id);
    }
}

/// An open call, as plain values.
#[derive(Debug)]
pub struct ToolSlot {
    pub id: String,
    pub position: usize,
}

impl View for ToolSlot {
    type V = SlotView;

    open spec fn view(&self) -> SlotView {
        SlotView { id: self.id@, position: self.position as int }
    }
}

/// The open calls of a conversation.
#[derive(Debug)]
pub struct ToolSlots {
    pub slots: Vec<ToolSlot>,
}

impl View for ToolSlots {
    type V = Seq<SlotView>;

    open spec fn view(&self) -> Seq<SlotView> {
        self.slots@.map_values(|slot: ToolSlot| slot@)
    }
}

impl ToolSlots {
    /// No open calls.
    pub fn new() -> (slots: Self)
        ensures
            slots@ == Seq::<SlotView>::empty(),
    {
        let slots = ToolSlots { slots: Vec::new() };
        assert(slots@ =~= Seq::empty());
        slots
    }

    fn find(&self, id: &String) -> (found: Option<usize>)
        ensures
            match found {
                Some(i) => slot_index(self@, id@) == Some(i as int) && i < self.slots@.len(),
                None => slot_index(self@, id@) is None,
            },
    {
        let mut found: Option<usize> = None;
        let mut i: usize = 0;
        while i < self.slots.len()
            invariant
                i <= self.slots@.len(),
                match found {
                    Some(k) => slot_index(self@.take(i as int), id@) == Some(k as int) && k < i,
                    None => slot_index(self@.take(i as int), id@) is None,
                },
            decreases self.slots@.len() - i,
        {
            proof {
                let seen = self@.take(i + 1);
                assert(seen.drop_last() =~= self@.take(i as int));
                assert(seen.last() == self.slots@[i as int]@);
            }
            if found.is_none() && self.slots[i].id == *id {
                found = Some(i);
            }
            i = i + 1;
        }
        assert(self@.take(self@.len() as int) =~= self@);
        found
    }

    /// Opens a call.
    pub fn insert(&mut self, id: String, position: usize)
        ensures
            final(self)@ == insert_slot(old(self)@, id@, position as int),
    {
        let ghost before = self@;
        match self.find(&id) {
            Some(i) => {
                self.slots.remove(i);
                assert(self@ =~= before.remove(i as int));
            },
            None => {},
        }
        let ghost kept = self@;
        let slot = ToolSlot { id, position };
        self.slots.push(slot);
        assert(self@ =~= kept.push(slot@));
    }

    /// Closes a call and gives the position of its entry.
    pub fn take(&mut self, id: &String) -> (position: Option<usize>)
        ensures
            match position {
                Some(position) => slot_index(old(self)@, id@) matches Some(i) && 0 <= i < old(
                    self,
                )@.len() && old(self)@[i].position == position,
                None => slot_index(old(self)@, id@) is None,
            },
            final(self)@ == remove_slot(old(self)@, id@),
    {
        let ghost before = self@;
        match self.find(id) {
            Some(i) => {
                let slot = self.slots.remove(i);
                assert(self@ =~= before.remove(i as int));
                assert(before[i as int] == slot@);
                Some(slot.position)
            },
            None => None,
        }
    }

    /// Marks the entries of all open calls as failed.
    pub fn fail_all(&self, entries: &mut Vec<NormalizedEntry>)
        requires
            slots_fit(self@, old(entries)@.len()),
        ensures
            entry_views(final(entries)@) == fail_open(entry_views(old(entries)@), self@),
    {
        let ghost before = entry_views(entries@);
        let len: usize = entries.len();
        let mut i: usize = 0;
        assert(self@.take(0) =~= Seq::empty());
        while i < self.slots.len()
            invariant
                i <= self.slots@.len(),
                len == entries@.len(),
                slots_fit(self@, len as nat),
                entry_views(entries@) == fail_open(before, self@.take(i as int)),
            decreases self.slots@.len() - i,
        {
            proof {
                let seen = self@.take(i + 1);
                assert(seen.drop_last() =~= self@.take(i as int));
                assert(seen.last() == self.slots@[i as int]@);
                assert(self@[i as int] == self.slots@[i as int]@);
            }
            let position: usize = self.slots[i].position;
            set_status(entries, position, ToolStatus::Failed);
            proof {
                assert(entries@.len() == entry_views(entries@).len());
            }
            i = i + 1;
        }
        assert(self@.take(self@.len() as int) =~= self@);
    }
}

/// A call that is opened is the open one under its id, at its own place, and the
/// only one that was opened anew. Closing it leaves none where ids differ.
pub proof fn law_newer_calls_take_the_place_of_older(
    slots: Seq<SlotView>,
    id: Seq<char>,
    position: int,
)
    ensures
        insert_slot(slots, id, position).last() == (SlotView { id, position }),
        slot_index(slots, id) is None ==> insert_slot(slots, id, position).len() == slots.len() + 1,
        slot_index(slots, id) is Some ==> insert_slot(slots, id, position).len() == slots.len(),
        slot_index(slots, id) is None ==> remove_slot(slots, id) == slots,
        slot_index(slots, id) is Some ==> remove_slot(slots, id).len() == slots.len() - 1,
{
    lemma_slot_index(slots, id);
}

/// Calls that are still open in the end have failed: the entry of each of them is
/// marked, and no other entry is changed.
pub proof fn law_open_calls_fail_in_place(entries: Seq<EntryView>, slots: Seq<SlotView>, at: int)
    requires
        slots_fit(slots, entries.len()),
        0 <= at < entries.len(),
    ensures
        fail_open(entries, slots).len() == entries.len(),
        (forall|k: int| 0 <= k < slots.len() ==> (#[trigger] slots[k]).position != at) ==> fail_open(
            entries,
            slots,
        )[at] == entries[at],
        (exists|k: int| 0 <= k < slots.len() && (#[trigger] slots[k]).position == at) ==> (
        entries[at].kind matches EntryKind::ToolUse { tool_name, action, .. } ==> fail_open(
            entries,
            slots,
        )[at] == EntryView {
            timestamp: entries[at].timestamp,
            kind: EntryKind::ToolUse { tool_name, action, status: ToolStatus::Failed },
            content: entries[at].content,
            metadata: entries[at].metadata,
        }),
    decreases slots.len(),
{
    if slots.len() > 0 {
        let rest = slots.drop_last();
        assert(forall|k: int| 0 <= k < rest.len() ==> #[trigger] rest[k] == slots[k]);
        law_open_calls_fail_in_place(entries, rest, at);
        let last = slots[slots.len() - 1];
        assert(0 <= last.position < entries.len());
        if exists|k: int| 0 <= k < slots.len() && (#[trigger] slots[k]).position == at {
            let k = choose|k: int| 0 <= k < slots.len() && (#[trigger] slots[k]).position == at;
            if k < rest.len() {
                assert(rest[k].position == at);
            } else if forall|k: int|
                0 <= k < rest.len() ==> (#[trigger] rest[k]).position != at {
            } else {
                let j = choose|j: int| 0 <= j < rest.len() && (#[trigger] rest[j]).position == at;
                assert(rest[j].position == at);
            }
        }
    }
}

} // verus!
