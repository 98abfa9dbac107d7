//! The undo and redo ledger as a mathematical state machine, and the laws
//! that hold of it.
//!
//! The ledger is a pair of collections: the completion events on record and
//! the events that were undone and may still be redone. Undo and redo each
//! move exactly one entry from one collection to the other; recording an
//! event discards whatever could have been redone.

use crate::db::types::{ChoreId, Event};
use vstd::multiset::Multiset;
use vstd::prelude::*;
use vstd::seq_lib::to_multiset_remove;

verus! {

/// Whether `i` is the position of the entry that an undo or a redo takes:
/// the entry with the latest instant, and among entries of that same instant
/// the one that was added last.
pub open spec fn is_latest(entries: Seq<Event>, i: int) -> bool {
    &&& 0 <= i < entries.len()
    &&& forall|j: int|
        0 <= j < entries.len() ==> (#[trigger] entries[j]).timestamp.nanosecond
            <= entries[i].timestamp.nanosecond
    &&& forall|j: int|
        i < j < entries.len() ==> (#[trigger] entries[j]).timestamp.nanosecond
            < entries[i].timestamp.nanosecond
}

/// The position of the entry that an undo or a redo takes. Meaningful for a
/// collection that is not empty.
pub open spec fn latest(entries: Seq<Event>) -> int {
    choose|i: int| is_latest(entries, i)
}

/// At most one position is the latest.
pub proof fn lemma_latest_is_unique(entries: Seq<Event>, i: int, j: int)
    requires
        is_latest(entries, i),
        is_latest(entries, j),
    ensures
        i == j,
{
    if i < j {
        assert(entries[j].timestamp.nanosecond < entries[i].timestamp.nanosecond);
        assert(entries[i].timestamp.nanosecond <= entries[j].timestamp.nanosecond);
    } else if j < i {
        assert(entries[i].timestamp.nanosecond < entries[j].timestamp.nanosecond);
        assert(entries[j].timestamp.nanosecond <= entries[i].timestamp.nanosecond);
    }
}

/// A collection that is not empty has a latest entry.
pub proof fn lemma_latest_exists(entries: Seq<Event>)
    requires
        entries.len() > 0,
    ensures
        is_latest(entries, latest(entries)),
    decreases entries.len(),
{
    let last = entries.len() - 1;
    if entries.len() == 1 {
        assert(is_latest(entries, 0));
    } else {
        let front = entries.drop_last();
        lemma_latest_exists(front);
        let k = latest(front);
        assert(forall|j: int| 0 <= j < front.len() ==> front[j] == entries[j]);
        if entries[k].timestamp.nanosecond > entries[last].timestamp.nanosecond {
            assert forall|j: int| 0 <= j < entries.len() implies (#[trigger] entries[j]).timestamp.nanosecond
                <= entries[k].timestamp.nanosecond by {
                if j < last {
                    assert(front[j].timestamp.nanosecond <= front[k].timestamp.nanosecond);
                }
            }
            assert forall|j: int| k < j < entries.len() implies (#[trigger] entries[j]).timestamp.nanosecond
                < entries[k].timestamp.nanosecond by {
                if j < last {
                    assert(front[j].timestamp.nanosecond < front[k].timestamp.nanosecond);
                }
            }
            assert(is_latest(entries, k));
        } else {
            assert forall|j: int| 0 <= j < entries.len() implies (#[trigger] entries[j]).timestamp.nanosecond
                <= entries[last].timestamp.nanosecond by {
                if j < last {
                    assert(front[j].timestamp.nanosecond <= front[k].timestamp.nanosecond);
                }
            }
            assert(is_latest(entries, last));
        }
    }
}

/// Whether `i` is the position of the latest completion of the chore `id`
/// among `entries`: an entry of that chore with the latest instant of them,
/// and among its entries of that same instant the one that was added last.
pub open spec fn is_latest_of_chore(entries: Seq<Event>, id: ChoreId, i: int) -> bool {
    &&& 0 <= i < entries.len()
    &&& entries[i].chore_id == id
    &&& forall|j: int|
        0 <= j < entries.len() && (#[trigger] entries[j]).chore_id == id
            ==> entries[j].timestamp.nanosecond <= entries[i].timestamp.nanosecond
    &&& forall|j: int|
        i < j < entries.len() && (#[trigger] entries[j]).chore_id == id
            ==> entries[j].timestamp.nanosecond < entries[i].timestamp.nanosecond
}

/// Whether `entries` holds a completion of the chore `id`.
pub open spec fn was_completed(entries: Seq<Event>, id: ChoreId) -> bool {
    exists|j: int| 0 <= j < entries.len() && (#[trigger] entries[j]).chore_id == id
}

/// The entries of the chore `id` among `entries`, in their order.
pub open spec fn events_of(entries: Seq<Event>, id: ChoreId) -> Seq<Event> {
    entries.filter(|event: Event| event.chore_id == id)
}

/// The state of the ledger.
pub struct Ledger {
    /// The completion events on record, in the order they were added.
    pub events: Seq<Event>,
    /// The events that were undone and not yet redone, in the order they
    /// were undone.
    pub undone: Seq<Event>,
}

impl Ledger {
    /// The ledger that holds nothing.
    pub open spec fn empty() -> Ledger {
        Ledger { events: Seq::empty(), undone: Seq::empty() }
    }

    /// There is an event to undo.
    pub open spec fn can_undo(self) -> bool {
        self.events.len() > 0
    }

    /// There is an undone event to redo.
    pub open spec fn can_redo(self) -> bool {
        self.undone.len() > 0
    }

    /// The ledger after `event` is recorded: the event is on record and
    /// nothing is left to redo.
    pub open spec fn record(self, event: Event) -> Ledger {
        Ledger { events: self.events.push(event), undone: Seq::empty() }
    }

    /// The ledger after each of `events` is recorded in turn.
    pub open spec fn record_all(self, events: Seq<Event>) -> Ledger
        decreases events.len(),
    {
        if events.len() == 0 {
            self
        } else {
            self.record_all(events.drop_last()).record(events.last())
        }
    }

    /// The ledger after an undo: the latest event on record moves to the
    /// undone events. With nothing on record the ledger stays as it is.
    pub open spec fn undo(self) -> Ledger {
        if self.can_undo() {
            let i = latest(self.events);
            Ledger { events: self.events.remove(i), undone: self.undone.push(self.events[i]) }
        } else {
            self
        }
    }

    /// The ledger after a redo: the latest undone event moves back on
    /// record. With nothing undone the ledger stays as it is.
    pub open spec fn redo(self) -> Ledger {
        if self.can_redo() {
            let i = latest(self.undone);
            Ledger { events: self.events.push(self.undone[i]), undone: self.undone.remove(i) }
        } else {
            self
        }
    }

    /// Every entry of both collections, with its number of occurrences.
    pub open spec fn entries(self) -> Multiset<Event> {
        self.events.to_multiset().add(self.undone.to_multiset())
    }
}

/// After any run of recordings nothing is left to redo, and the events
/// recorded are on record behind those that were there before.
pub proof fn law_recording_leaves_nothing_to_redo(start: Ledger, recorded: Seq<Event>)
    requires
        recorded.len() > 0,
    ensures
        !start.record_all(recorded).can_redo(),
        start.record_all(recorded).events == start.events + recorded,
    decreases recorded.len(),
{
    let front = recorded.drop_last();
    if front.len() > 0 {
        law_recording_leaves_nothing_to_redo(start, front);
    } else {
        assert(start.record_all(front) == start);
    }
    assert(start.record_all(recorded).events == start.record_all(front).events.push(
        recorded.last(),
    ));
    assert(start.events + recorded == (start.events + front).push(recorded.last()));
}

/// After any run of recordings followed by one undo, there is an event to
/// redo, and the redo puts back on record exactly the event that the undo
/// had removed: the ledger then holds the same events as before the undo and
/// nothing is left to redo.
pub proof fn law_redo_restores_what_undo_removed(start: Ledger, recorded: Seq<Event>)
    requires
        recorded.len() > 0,
    ensures
        ({
            let before = start.record_all(recorded);
            let removed = before.events[latest(before.events)];
            let after_undo = before.undo();
            let after_redo = after_undo.redo();
            &&& before.can_undo()
            &&& after_undo.can_redo()
            &&& after_undo.undone == seq![removed]
            &&& after_undo.events == before.events.remove(latest(before.events))
            &&& after_redo.events == after_undo.events.push(removed)
            &&& after_redo.events.to_multiset() == before.events.to_multiset()
            &&& !after_redo.can_redo()
        }),
{
    let before = start.record_all(recorded);
    law_recording_leaves_nothing_to_redo(start, recorded);
    assert(before.events.len() > 0);
    lemma_latest_exists(before.events);
    let i = latest(before.events);
    let removed = before.events[i];
    let after_undo = before.undo();
    assert(before.undone == Seq::<Event>::empty());
    assert(after_undo.undone == seq![removed]);
    lemma_latest_exists(after_undo.undone);
    assert(latest(after_undo.undone) == 0);
    let after_redo = after_undo.redo();
    assert(after_redo.undone == Seq::<Event>::empty());
    assert(after_redo.events == before.events.remove(i).push(removed));
    lemma_move_to_back_keeps_entries(before.events, i);
}

/// Moving one entry of a sequence to its end keeps every entry with its
/// number of occurrences.
pub proof fn lemma_move_to_back_keeps_entries(entries: Seq<Event>, i: int)
    requires
        0 <= i < entries.len(),
    ensures
        entries.remove(i).push(entries[i]).to_multiset() == entries.to_multiset(),
{
    broadcast use vstd::seq_lib::group_to_multiset_ensures;

    to_multiset_remove(entries, i);
    assert(entries.remove(i).to_multiset().insert(entries[i]) == entries.to_multiset());
}

/// After an undo, recording any event of any chore leaves nothing to redo.
pub proof fn law_recording_after_undo_discards_redo(ledger: Ledger, event: Event)
    ensures
        !ledger.undo().record(event).can_redo(),
{
}

/// An undo with nothing on record changes nothing, and so does a redo with
/// nothing undone.
pub proof fn law_nothing_to_move_changes_nothing(ledger: Ledger)
    ensures
        !ledger.can_undo() ==> ledger.undo() == ledger,
        !ledger.can_redo() ==> ledger.redo() == ledger,
{
}

/// An undo or a redo moves one entry between the two collections and neither
/// drops nor doubles any: together they hold the same entries as before.
pub proof fn law_moves_keep_every_entry(ledger: Ledger)
    ensures
        ledger.undo().entries() == ledger.entries(),
        ledger.redo().entries() == ledger.entries(),
        ledger.can_undo() ==> ledger.undo().events.len() == ledger.events.len() - 1
            && ledger.undo().undone.len() == ledger.undone.len() + 1,
        ledger.can_redo() ==> ledger.redo().undone.len() == ledger.undone.len() - 1
            && ledger.redo().events.len() == ledger.events.len() + 1,
{
    broadcast use vstd::seq_lib::group_to_multiset_ensures;

    if ledger.can_undo() {
        lemma_latest_exists(ledger.events);
        let i = latest(ledger.events);
        to_multiset_remove(ledger.events, i);
        assert(ledger.undo().entries() =~= ledger.entries());
    }
    if ledger.can_redo() {
        lemma_latest_exists(ledger.undone);
        let i = latest(ledger.undone);
        to_multiset_remove(ledger.undone, i);
        assert(ledger.redo().entries() =~= ledger.entries());
    }
}

} // verus!
