//! The store of chores and completion events, held in memory.
//!
//! The store is the single source of truth: a table of chores, the
//! completion events on record, and the events that were undone and may be
//! redone. Every operation is one step that either takes effect as a whole
//! or leaves the store as it was.

pub mod ledger;
pub mod types;

use crate::calendar::{interval_text, moment_text};
use crate::db::ledger::{
    events_of, is_latest, is_latest_of_chore, latest, lemma_latest_exists,
    lemma_latest_is_unique, was_completed, Ledger,
};
use crate::db::types::{is_valid_name, name_is_valid, DbChore, DbEvent};
pub use crate::db::types::{Chore, ChoreEvent, ChoreId, Event};
use crate::order::{arranged, is_stable_order, stable_order};
use crate::time::{Interval, Moment};
use vstd::prelude::*;

verus! {

/// Why the store refused an operation.
#[derive(Clone, Copy, Debug, PartialEq, Eq, Structural)]
pub enum StoreError {
    /// The data handed in is not valid: the name is empty or too long, or
    /// the interval is not well-formed.
    Validation,
    /// The store cannot take the data: it has no ID left to assign.
    Persistence,
    /// The clock of the machine stands outside the calendar, so the time of
    /// an event could not be told.
    Clock,
}

/// `after` is `before` with one chore more at its end: the chore with the ID
/// `id`, the name `name` and the interval `interval`.
pub open spec fn is_created(
    before: Seq<Chore>,
    after: Seq<Chore>,
    id: ChoreId,
    name: Seq<char>,
    interval: Interval,
) -> bool {
    &&& after.len() == before.len() + 1
    &&& after.drop_last() == before
    &&& after.last().id == id
    &&& after.last().name@ == name
    &&& after.last().interval == interval
}

/// `chores` with every chore that has the ID of `chore` replaced by `chore`.
pub open spec fn updated(chores: Seq<Chore>, chore: Chore) -> Seq<Chore> {
    Seq::new(
        chores.len(),
        |i: int|
            if chores[i].id == chore.id {
                chore
            } else {
                chores[i]
            },
    )
}

/// `chores` without the chores that have the ID `id`.
pub open spec fn without(chores: Seq<Chore>, id: ChoreId) -> Seq<Chore> {
    chores.filter(|chore: Chore| chore.id != id)
}

/// Removing the one entry that does not pass a test is filtering by the
/// test.
proof fn lemma_remove_is_filter(chores: Seq<Chore>, id: ChoreId, at: int)
    requires
        0 <= at < chores.len(),
        chores[at].id == id,
        forall|i: int| 0 <= i < chores.len() && i != at ==> (#[trigger] chores[i]).id != id,
    ensures
        without(chores, id) == chores.remove(at),
    decreases chores.len(),
{
    reveal(Seq::filter);
    let front = chores.drop_last();
    if at == chores.len() - 1 {
        lemma_nothing_to_remove(front, id);
        assert(chores.remove(at) =~= front);
    } else {
        lemma_remove_is_filter(front, id, at);
        assert(chores.remove(at) =~= front.remove(at).push(chores.last()));
    }
}

/// Filtering by a test that every entry passes changes nothing.
proof fn lemma_nothing_to_remove(chores: Seq<Chore>, id: ChoreId)
    requires
        forall|i: int| 0 <= i < chores.len() ==> (#[trigger] chores[i]).id != id,
    ensures
        without(chores, id) == chores,
    decreases chores.len(),
{
    reveal(Seq::filter);
    if chores.len() > 0 {
        lemma_nothing_to_remove(chores.drop_last(), id);
        assert(chores.drop_last().push(chores.last()) =~= chores);
    }
}

/// Whether a table of chores, a ledger and the next ID to assign can be the
/// contents of a store: every chore and event is well-formed, no two chores
/// share an ID, and every ID in the table lies from 1 up to the next ID.
pub open spec fn is_consistent(chores: Seq<Chore>, ledger: Ledger, next_id: int) -> bool {
    &&& 1 <= next_id <= i64::MAX
    &&& forall|i: int|
        0 <= i < chores.len() ==> {
            &&& (#[trigger] chores[i]).wf()
            &&& 1 <= chores[i].id.0 < next_id
        }
    &&& forall|i: int, j: int|
        0 <= i < j < chores.len() ==> (#[trigger] chores[i]).id != (#[trigger] chores[j]).id
    &&& forall|i: int| 0 <= i < ledger.events.len() ==> (#[trigger] ledger.events[i]).wf()
    &&& forall|i: int| 0 <= i < ledger.undone.len() ==> (#[trigger] ledger.undone[i]).wf()
}

/// Whether every one of `events` is well-formed.
fn events_are_valid(events: &Vec<Event>) -> (valid: bool)
    ensures
        valid == (forall|i: int| 0 <= i < events@.len() ==> (#[trigger] events@[i]).wf()),
{
    let mut i: usize = 0;
    while i < events.len()
        invariant
            i <= events@.len(),
            forall|k: int| 0 <= k < i ==> (#[trigger] events@[k]).wf(),
        decreases events@.len() - i,
    {
        if !events[i].timestamp.is_valid() {
            assert(!events@[i as int].wf());
            return false;
        }
        i += 1;
    }
    true
}

/// The store.
pub struct Db {
    chores: Vec<Chore>,
    events: Vec<Event>,
    redo_events: Vec<Event>,
    next_id: i64,
}

/// Whether `rows` are what is written for `events`, row by row: each row
/// holds the ID of the chore and the text of the timestamp, and stands for
/// its event where the offset of the event is a whole number of minutes.
pub open spec fn rows_written_for(rows: Seq<DbEvent>, events: Seq<Event>) -> bool {
    &&& rows.len() == events.len()
    &&& forall|i: int|
        0 <= i < rows.len() ==> {
            &&& (#[trigger] rows[i]).chore_id == events[i].chore_id.0
            &&& rows[i].timestamp@ == moment_text(events[i].timestamp)
            &&& events[i].timestamp.has_minute_offset() ==> rows[i].decoded() == Some(events[i])
        }
}

/// The rows of `events`.
fn rows_of(events: &Vec<Event>) -> (rows: Vec<DbEvent>)
    requires
        forall|i: int| 0 <= i < events@.len() ==> (#[trigger] events@[i]).wf(),
    ensures
        rows_written_for(rows@, events@),
{
    let mut rows: Vec<DbEvent> = Vec::new();
    let mut i: usize = 0;
    while i < events.len()
        invariant
            i <= events@.len(),
            rows@.len() == i,
            forall|k: int| 0 <= k < events@.len() ==> (#[trigger] events@[k]).wf(),
            forall|k: int|
                0 <= k < i ==> {
                    &&& (#[trigger] rows@[k]).chore_id == events@[k].chore_id.0
                    &&& rows@[k].timestamp@ == moment_text(events@[k].timestamp)
                    &&& events@[k].timestamp.has_minute_offset() ==> rows@[k].decoded() == Some(
                        events@[k],
                    )
                },
        decreases events@.len() - i,
    {
        assert(events@[i as int].wf());
        rows.push(DbEvent::from(events[i]));
        i += 1;
    }
    rows
}

/// The position in `entries` of the entry that an undo or a redo takes.
fn latest_position(entries: &Vec<Event>) -> (position: usize)
    requires
        entries.len() > 0,
    ensures
        is_latest(entries@, position as int),
        position == latest(entries@),
{
    let mut best: usize = 0;
    let mut i: usize = 1;
    while i < entries.len()
        invariant
            1 <= i <= entries.len(),
            best < i,
            forall|j: int|
                0 <= j < i ==> (#[trigger] entries@[j]).timestamp.nanosecond
                    <= entries@[best as int].timestamp.nanosecond,
            forall|j: int|
                best < j < i ==> (#[trigger] entries@[j]).timestamp.nanosecond
                    < entries@[best as int].timestamp.nanosecond,
        decreases entries.len() - i,
    {
        if entries[i].timestamp.nanosecond >= entries[best].timestamp.nanosecond {
            best = i;
        }
        i += 1;
    }
    proof {
        lemma_latest_exists(entries@);
        lemma_latest_is_unique(entries@, best as int, latest(entries@));
    }
    best
}

impl Db {
    /// The table of chores, in the order they were created.
    pub closed spec fn chores(&self) -> Seq<Chore> {
        self.chores@
    }

    /// The events on record and the events that were undone.
    pub closed spec fn ledger(&self) -> Ledger {
        Ledger { events: self.events@, undone: self.redo_events@ }
    }

    /// The ID that the next chore created will get.
    pub closed spec fn next_id(&self) -> int {
        self.next_id as int
    }

    /// Well-formedness: every chore and event is well-formed, no two chores
    /// share an ID, and every ID in the table was assigned earlier than the
    /// next one will be.
    pub open spec fn wf(&self) -> bool {
        is_consistent(self.chores(), self.ledger(), self.next_id())
    }

    /// Whether the table holds a chore with the ID `id`.
    pub open spec fn has_chore(&self, id: ChoreId) -> bool {
        exists|i: int| 0 <= i < self.chores().len() && (#[trigger] self.chores()[i]).id == id
    }

    /// An empty store. The first chore created in it gets the ID 1.
    pub fn new() -> (db: Db)
        ensures
            db.wf(),
            db.chores() == Seq::<Chore>::empty(),
            db.ledger() == Ledger::empty(),
            db.next_id() == 1,
    {
        Db { chores: Vec::new(), events: Vec::new(), redo_events: Vec::new(), next_id: 1 }
    }

    /// A store with the given contents, or `None` where they are not
    /// consistent: see [`is_consistent`].
    pub fn restore(
        chores: Vec<Chore>,
        events: Vec<Event>,
        redo_events: Vec<Event>,
        next_id: i64,
    ) -> (restored: Option<Db>)
        ensures
            match restored {
                Some(db) => {
                    &&& db.wf()
                    &&& db.chores() == chores@
                    &&& db.ledger() == (Ledger { events: events@, undone: redo_events@ })
                    &&& db.next_id() == next_id
                },
                None => !is_consistent(
                    chores@,
                    Ledger { events: events@, undone: redo_events@ },
                    next_id as int,
                ),
            },
    {
        if next_id < 1 {
            return None;
        }
        let mut i: usize = 0;
        while i < chores.len()
            invariant
                i <= chores@.len(),
                forall|k: int|
                    0 <= k < i ==> {
                        &&& (#[trigger] chores@[k]).wf()
                        &&& 1 <= chores@[k].id.0 < next_id
                    },
                forall|k: int, l: int|
                    0 <= k < l < i ==> (#[trigger] chores@[k]).id != (#[trigger] chores@[l]).id,
            decreases chores@.len() - i,
        {
            let id: i64 = chores[i].id.0;
            if !chores[i].interval.is_valid() || id < 1 || id >= next_id {
                assert(!(chores@[i as int].wf() && 1 <= chores@[i as int].id.0 < next_id));
                return None;
            }
            let mut j: usize = 0;
            while j < i
                invariant
                    j <= i < chores@.len(),
                    id == chores@[i as int].id.0,
                    forall|k: int| 0 <= k < j ==> (#[trigger] chores@[k]).id.0 != id,
                decreases i - j,
            {
                if chores[j].id.0 == id {
                    assert(chores@[j as int].id == chores@[i as int].id);
                    return None;
                }
                j += 1;
            }
            i += 1;
        }
        if !events_are_valid(&events) || !events_are_valid(&redo_events) {
            proof {
                let ledger = Ledger { events: events@, undone: redo_events@ };
                if is_consistent(chores@, ledger, next_id as int) {
                    assert forall|k: int| 0 <= k < events@.len() implies (#[trigger] events@[k]).wf() by {
                        assert(ledger.events[k].wf());
                    }
                    assert forall|k: int| 0 <= k < redo_events@.len() implies (#[trigger] redo_events@[k]).wf() by {
                        assert(ledger.undone[k].wf());
                    }
                }
            }
            return None;
        }
        Some(Db { chores, events, redo_events, next_id })
    }

    /// The chores of the table as rows, in table order.
    ///
    /// A chore is read back from its row unchanged where the sub-second
    /// units of its interval each stay below the next unit.
    pub fn chore_rows(&self) -> (rows: Vec<DbChore>)
        requires
            self.wf(),
        ensures
            rows@.len() == self.chores().len(),
            forall|i: int|
                0 <= i < rows@.len() ==> {
                    let row = #[trigger] rows@[i];
                    let chore = self.chores()[i];
                    &&& row.id == chore.id.0
                    &&& row.name == chore.name
                    &&& row.interval@ == interval_text(chore.interval)
                    &&& chore.interval.has_balanced_fraction() ==> row.decoded() == Some(chore)
                },
    {
        let mut rows: Vec<DbChore> = Vec::new();
        let mut i: usize = 0;
        while i < self.chores.len()
            invariant
                self.wf(),
                i <= self.chores@.len(),
                rows@.len() == i,
                forall|k: int|
                    0 <= k < i ==> {
                        let row = #[trigger] rows@[k];
                        let chore = self.chores()[k];
                        &&& row.id == chore.id.0
                        &&& row.name == chore.name
                        &&& row.interval@ == interval_text(chore.interval)
                        &&& chore.interval.has_balanced_fraction() ==> row.decoded() == Some(chore)
                    },
            decreases self.chores@.len() - i,
        {
            assert(self.chores()[i as int].wf());
            rows.push(DbChore::from(self.chores[i].clone()));
            i += 1;
        }
        rows
    }

    /// The events on record as rows, in the order they were recorded.
    ///
    /// Events whose offsets are whole numbers of minutes are read back from
    /// their rows unchanged.
    pub fn event_rows(&self) -> (rows: Vec<DbEvent>)
        requires
            self.wf(),
        ensures
            rows_written_for(rows@, self.ledger().events),
    {
        proof {
            assert forall|i: int| 0 <= i < self.events@.len() implies (#[trigger] self.events@[i]).wf() by {
                assert(self.ledger().events[i].wf());
            }
        }
        rows_of(&self.events)
    }

    /// The events that were undone as rows, in the order they were undone.
    ///
    /// Events whose offsets are whole numbers of minutes are read back from
    /// their rows unchanged.
    pub fn redo_event_rows(&self) -> (rows: Vec<DbEvent>)
        requires
            self.wf(),
        ensures
            rows_written_for(rows@, self.ledger().undone),
    {
        proof {
            assert forall|i: int| 0 <= i < self.redo_events@.len() implies (#[trigger] self.redo_events@[i]).wf() by {
                assert(self.ledger().undone[i].wf());
            }
        }
        rows_of(&self.redo_events)
    }

    /// The chores of the table, in table order.
    pub fn table(&self) -> (chores: Vec<Chore>)
        ensures
            chores@ == self.chores(),
    {
        let mut chores: Vec<Chore> = Vec::new();
        let mut i: usize = 0;
        while i < self.chores.len()
            invariant
                i <= self.chores@.len(),
                chores@ == self.chores@.take(i as int),
            decreases self.chores@.len() - i,
        {
            chores.push(self.chores[i].clone());
            assert(chores@ =~= self.chores@.take(i + 1));
            i += 1;
        }
        assert(self.chores@.take(i as int) =~= self.chores@);
        chores
    }

    /// The ID that the next chore created will get.
    pub fn next_chore_id(&self) -> (id: i64)
        ensures
            id == self.next_id(),
    {
        self.next_id
    }

    /// The position of the chore with the ID `id` in the table.
    fn position(&self, id: ChoreId) -> (found: Option<usize>)
        ensures
            match found {
                Some(i) => i < self.chores().len() && self.chores()[i as int].id == id,
                None => !self.has_chore(id),
            },
    {
        let mut i: usize = 0;
        while i < self.chores.len()
            invariant
                i <= self.chores.len(),
                forall|j: int| 0 <= j < i ==> (#[trigger] self.chores@[j]).id != id,
            decreases self.chores.len() - i,
        {
            if self.chores[i].id.0 == id.0 {
                return Some(i);
            }
            i += 1;
        }
        None
    }

    /// Creates a chore and returns the ID assigned to it, which no chore of
    /// this store had before or will have again.
    ///
    /// Fails with [`StoreError::Validation`] where the name or the interval
    /// is not valid, and with [`StoreError::Persistence`] where the data is
    /// valid and no ID is left. A failure leaves the store as it was.
    pub fn create_chore(&mut self, name: &str, interval: Interval) -> (outcome: Result<
        ChoreId,
        StoreError,
    >)
        requires
            old(self).wf(),
        ensures
            final(self).wf(),
            final(self).ledger() == old(self).ledger(),
            match outcome {
                Ok(id) => {
                    &&& is_valid_name(name@) && interval.wf()
                    &&& id.0 == old(self).next_id()
                    &&& final(self).next_id() == old(self).next_id() + 1
                    &&& !old(self).has_chore(id)
                    &&& is_created(old(self).chores(), final(self).chores(), id, name@, interval)
                },
                Err(error) => {
                    &&& final(self).chores() == old(self).chores()
                    &&& final(self).next_id() == old(self).next_id()
                    &&& error == StoreError::Validation <==> !(is_valid_name(name@)
                        && interval.wf())
                    &&& error == StoreError::Persistence <==> is_valid_name(name@) && interval.wf()
                        && old(self).next_id() == i64::MAX
                    &&& error != StoreError::Clock
                },
            },
    {
        if !name_is_valid(name) || !interval.is_valid() {
            return Err(StoreError::Validation);
        }
        if self.next_id == i64::MAX {
            return Err(StoreError::Persistence);
        }
        let id = ChoreId(self.next_id);
        self.chores.push(Chore { id, name: name.to_owned(), interval });
        self.next_id = self.next_id + 1;
        proof {
            assert(self.chores().drop_last() =~= old(self).chores());
            assert(self.ledger() == old(self).ledger());
            assert(self.wf());
        }
        Ok(id)
    }

    /// Replaces the name and the interval of the chore that has the ID of
    /// `chore`. Where no chore has that ID nothing changes, and that is no
    /// error.
    pub fn update_chore(&mut self, chore: Chore)
        requires
            old(self).wf(),
            chore.wf(),
        ensures
            final(self).wf(),
            final(self).ledger() == old(self).ledger(),
            final(self).next_id() == old(self).next_id(),
            final(self).chores() == updated(old(self).chores(), chore),
    {
        match self.position(chore.id) {
            Some(i) => {
                self.chores.set(i, chore);
                proof {
                    let before = old(self).chores();
                    let after = self.chores();
                    assert(after == before.update(i as int, chore));
                    assert forall|k: int| 0 <= k < after.len() implies {
                        &&& (#[trigger] after[k]).wf()
                        &&& after[k].id == before[k].id
                        &&& 1 <= after[k].id.0 < self.next_id()
                    } by {
                        assert(before[k].wf());
                    }
                    assert forall|k: int, l: int| 0 <= k < l < after.len() implies (#[trigger] after[k]).id
                        != (#[trigger] after[l]).id by {
                        assert(before[k].id != before[l].id);
                    }
                    assert forall|k: int| 0 <= k < before.len() implies #[trigger] after[k] == (if before[k].id
                        == chore.id {
                        chore
                    } else {
                        before[k]
                    }) by {
                        if k != i {
                            if k < i {
                                assert(before[k].id != before[i as int].id);
                            } else {
                                assert(before[i as int].id != before[k].id);
                            }
                        }
                    }
                }
            },
            None => {},
        }
        proof {
            assert(self.ledger() == old(self).ledger());
            assert(self.wf());
            let before = old(self).chores();
            if !old(self).has_chore(chore.id) {
                assert forall|k: int| 0 <= k < before.len() implies before[k].id != chore.id by {
                    assert(before[k].id != chore.id);
                }
            }
            assert(self.chores() =~= updated(before, chore));
        }
    }

    /// Removes the chore with the ID `id` from the table. Its events stay on
    /// record. Where no chore has that ID nothing changes.
    pub fn delete_chore(&mut self, id: ChoreId)
        requires
            old(self).wf(),
        ensures
            final(self).wf(),
            final(self).ledger() == old(self).ledger(),
            final(self).next_id() == old(self).next_id(),
            !final(self).has_chore(id),
            final(self).chores() == without(old(self).chores(), id),
    {
        match self.position(id) {
            Some(i) => {
                self.chores.remove(i);
                proof {
                    let before = old(self).chores();
                    let after = self.chores();
                    assert(after == before.remove(i as int));
                    assert forall|k: int| 0 <= k < after.len() implies (#[trigger] after[k]).id
                        != id by {
                        if k < i {
                            assert(after[k] == before[k]);
                        } else {
                            assert(after[k] == before[k + 1]);
                        }
                    }
                    assert forall|k: int, l: int| 0 <= k < l < after.len() implies (#[trigger] after[k]).id
                        != (#[trigger] after[l]).id by {
                        let kk = if k < i { k } else { k + 1 };
                        let ll = if l < i { l } else { l + 1 };
                        assert(after[k] == before[kk] && after[l] == before[ll]);
                    }
                    assert forall|k: int| 0 <= k < after.len() implies {
                        &&& (#[trigger] after[k]).wf()
                        &&& 1 <= after[k].id.0 < self.next_id()
                    } by {
                        let kk = if k < i { k } else { k + 1 };
                        assert(after[k] == before[kk]);
                    }
                    assert forall|k: int| 0 <= k < before.len() && k != i implies (#[trigger] before[k]).id
                        != id by {
                        if k < i {
                            assert(before[k].id != before[i as int].id);
                        } else {
                            assert(before[i as int].id != before[k].id);
                        }
                    }
                    lemma_remove_is_filter(before, id, i as int);
                }
            },
            None => {
                proof {
                    let before = old(self).chores();
                    assert forall|k: int| 0 <= k < before.len() implies (#[trigger] before[k]).id
                        != id by {
                        assert(before[k].id != id);
                    }
                    lemma_nothing_to_remove(before, id);
                }
            },
        }
        proof {
            assert(self.ledger() == old(self).ledger());
            assert(self.wf());
        }
    }

    /// The chore with the ID `id`, if the table holds one.
    pub fn get_chore(&self, id: ChoreId) -> (found: Option<Chore>)
        ensures
            match found {
                Some(chore) => chore.id == id && self.chores().contains(chore),
                None => !self.has_chore(id),
            },
    {
        match self.position(id) {
            Some(i) => {
                let chore = self.chores[i].clone();
                assert(self.chores()[i as int] == chore);
                Some(chore)
            },
            None => None,
        }
    }

    /// All chores, sorted by name in the order of texts (upper case before
    /// lower case); chores of the same name stay in the order they were
    /// created.
    pub fn get_all_chores(&self) -> (listed: Vec<Chore>)
        ensures
            exists|order: Seq<usize>|
                is_stable_order(self.chores(), order) && listed@ == arranged(self.chores(), order),
    {
        let order = stable_order(&self.chores);
        let mut listed: Vec<Chore> = Vec::new();
        let mut k: usize = 0;
        while k < order.len()
            invariant
                k <= order.len(),
                is_stable_order(self.chores@, order@),
                listed@ == arranged(self.chores@, order@.take(k as int)),
            decreases order.len() - k,
        {
            assert(0 <= order@[k as int] < self.chores@.len());
            listed.push(self.chores[order[k]].clone());
            assert(listed@ =~= arranged(self.chores@, order@.take(k + 1)));
            k += 1;
        }
        proof {
            assert(order@.take(k as int) =~= order@);
            assert(is_stable_order(self.chores(), order@) && listed@ == arranged(
                self.chores(),
                order@,
            ));
        }
        listed
    }

    /// The time of the latest completion of the chore `id`, if it was ever
    /// completed.
    fn last_completion(&self, id: ChoreId) -> (last: Option<Moment>)
        requires
            self.wf(),
        ensures
            match last {
                Some(timestamp) => timestamp.wf() && exists|i: int|
                    is_latest_of_chore(self.ledger().events, id, i)
                        && self.ledger().events[i].timestamp == timestamp,
                None => !was_completed(self.ledger().events, id),
            },
    {
        let mut best: Option<usize> = None;
        let mut i: usize = 0;
        while i < self.events.len()
            invariant
                i <= self.events@.len(),
                match best {
                    Some(b) => {
                        &&& b < i
                        &&& self.events@[b as int].chore_id == id
                        &&& forall|j: int|
                            0 <= j < i && (#[trigger] self.events@[j]).chore_id == id
                                ==> self.events@[j].timestamp.nanosecond
                                <= self.events@[b as int].timestamp.nanosecond
                        &&& forall|j: int|
                            b < j < i && (#[trigger] self.events@[j]).chore_id == id
                                ==> self.events@[j].timestamp.nanosecond
                                < self.events@[b as int].timestamp.nanosecond
                    },
                    None => forall|j: int| 0 <= j < i ==> (#[trigger] self.events@[j]).chore_id != id,
                },
            decreases self.events@.len() - i,
        {
            if self.events[i].chore_id.0 == id.0 {
                let later = match best {
                    Some(b) => self.events[i].timestamp.nanosecond
                        >= self.events[b].timestamp.nanosecond,
                    None => true,
                };
                if later {
                    best = Some(i);
                }
            }
            i += 1;
        }
        match best {
            Some(b) => {
                assert(self.ledger().events[b as int].wf());
                assert(is_latest_of_chore(self.ledger().events, id, b as int));
                Some(self.events[b].timestamp)
            },
            None => None,
        }
    }

    /// Every chore of the table, in table order, each with the time of its
    /// latest completion: the latest instant among its events on record, or
    /// `None` where it has none.
    pub fn get_all_chore_events(&self) -> (listed: Vec<ChoreEvent>)
        requires
            self.wf(),
        ensures
            listed@.len() == self.chores().len(),
            forall|k: int|
                0 <= k < listed@.len() ==> {
                    let row = #[trigger] listed@[k];
                    let chore = self.chores()[k];
                    &&& row.wf()
                    &&& row.id == chore.id
                    &&& row.name == chore.name
                    &&& row.interval == chore.interval
                    &&& match row.timestamp {
                        Some(timestamp) => exists|i: int|
                            is_latest_of_chore(self.ledger().events, chore.id, i)
                                && self.ledger().events[i].timestamp == timestamp,
                        None => !was_completed(self.ledger().events, chore.id),
                    }
                },
    {
        let mut listed: Vec<ChoreEvent> = Vec::new();
        let mut k: usize = 0;
        while k < self.chores.len()
            invariant
                self.wf(),
                k <= self.chores.len(),
                listed@.len() == k,
                forall|n: int|
                    0 <= n < k ==> {
                        let row = #[trigger] listed@[n];
                        let chore = self.chores()[n];
                        &&& row.wf()
                        &&& row.id == chore.id
                        &&& row.name == chore.name
                        &&& row.interval == chore.interval
                        &&& match row.timestamp {
                            Some(timestamp) => exists|i: int|
                                is_latest_of_chore(self.ledger().events, chore.id, i)
                                    && self.ledger().events[i].timestamp == timestamp,
                            None => !was_completed(self.ledger().events, chore.id),
                        }
                    },
            decreases self.chores.len() - k,
        {
            let chore = &self.chores[k];
            assert(self.chores()[k as int].wf());
            let timestamp = self.last_completion(chore.id);
            listed.push(
                ChoreEvent {
                    id: chore.id,
                    name: chore.name.clone(),
                    interval: chore.interval,
                    timestamp,
                },
            );
            k += 1;
        }
        listed
    }

    /// The events on record of the chore `id`, the earliest first; events of
    /// the same instant stay in the order they were recorded.
    pub fn get_chore_completions(&self, id: ChoreId) -> (completions: Vec<Event>)
        requires
            self.wf(),
        ensures
            exists|order: Seq<usize>|
                is_stable_order(events_of(self.ledger().events, id), order) && completions@
                    == arranged(events_of(self.ledger().events, id), order),
            forall|k: int| 0 <= k < completions@.len() ==> (#[trigger] completions@[k]).wf(),
            forall|k: int| 0 <= k < completions@.len() ==> (#[trigger] completions@[k]).chore_id == id,
    {
        let mut own: Vec<Event> = Vec::new();
        let mut i: usize = 0;
        while i < self.events.len()
            invariant
                self.wf(),
                i <= self.events.len(),
                own@ == events_of(self.events@.take(i as int), id),
                forall|k: int| 0 <= k < own@.len() ==> (#[trigger] own@[k]).wf(),
                forall|k: int| 0 <= k < own@.len() ==> (#[trigger] own@[k]).chore_id == id,
            decreases self.events.len() - i,
        {
            proof {
                reveal(Seq::filter);
                assert(self.events@.take(i + 1).drop_last() =~= self.events@.take(i as int));
                assert(self.ledger().events[i as int].wf());
            }
            if self.events[i].chore_id.0 == id.0 {
                own.push(self.events[i]);
            }
            i += 1;
        }
        assert(self.events@.take(i as int) =~= self.events@);
        let order = stable_order(&own);
        let mut completions: Vec<Event> = Vec::new();
        let mut k: usize = 0;
        while k < order.len()
            invariant
                k <= order.len(),
                is_stable_order(own@, order@),
                completions@ == arranged(own@, order@.take(k as int)),
                forall|n: int| 0 <= n < own@.len() ==> (#[trigger] own@[n]).wf(),
                forall|n: int| 0 <= n < own@.len() ==> (#[trigger] own@[n]).chore_id == id,
                forall|n: int| 0 <= n < completions@.len() ==> (#[trigger] completions@[n]).wf(),
                forall|n: int| 0 <= n < completions@.len() ==> (#[trigger] completions@[n]).chore_id == id,
            decreases order.len() - k,
        {
            assert(0 <= order@[k as int] < own@.len());
            completions.push(own[order[k]]);
            assert(completions@ =~= arranged(own@, order@.take(k + 1)));
            k += 1;
        }
        proof {
            assert(order@.take(k as int) =~= order@);
            assert(own@ == events_of(self.ledger().events, id));
            assert(is_stable_order(events_of(self.ledger().events, id), order@) && completions@
                == arranged(events_of(self.ledger().events, id), order@));
        }
        completions
    }

    /// Records that the chore `chore_id` was completed at `timestamp`, and
    /// discards the events that could have been redone.
    pub fn record_chore_event_when(&mut self, chore_id: ChoreId, timestamp: Moment)
        requires
            old(self).wf(),
            timestamp.wf(),
        ensures
            final(self).wf(),
            final(self).chores() == old(self).chores(),
            final(self).next_id() == old(self).next_id(),
            final(self).ledger() == old(self).ledger().record(Event { chore_id, timestamp }),
    {
        self.events.push(Event { chore_id, timestamp });
        self.redo_events.clear();
        proof {
            let before = old(self).ledger();
            let after = self.ledger();
            assert(after.undone =~= Seq::<Event>::empty());
            assert(after == before.record(Event { chore_id, timestamp }));
            assert forall|i: int| 0 <= i < after.events.len() implies (#[trigger] after.events[i]).wf() by {
                if i < before.events.len() {
                    assert(after.events[i] == before.events[i]);
                }
            }
            assert(self.chores() == old(self).chores());
            assert(self.wf());
        }
    }

    /// Records that the chore `chore_id` was completed now, and discards the
    /// events that could have been redone.
    ///
    /// Fails with [`StoreError::Clock`], and changes nothing, where the clock
    /// of the machine stands outside the calendar.
    pub fn record_chore_event(&mut self, chore_id: ChoreId) -> (outcome: Result<(), StoreError>)
        requires
            old(self).wf(),
        ensures
            final(self).wf(),
            final(self).chores() == old(self).chores(),
            final(self).next_id() == old(self).next_id(),
            match outcome {
                Ok(_) => {
                    &&& !final(self).ledger().can_redo()
                    &&& final(self).ledger().events.len() == old(self).ledger().events.len() + 1
                    &&& final(self).ledger().events.drop_last() == old(self).ledger().events
                    &&& final(self).ledger().events.last().chore_id == chore_id
                    &&& final(self).ledger() == old(self).ledger().record(
                        final(self).ledger().events.last(),
                    )
                },
                Err(error) => error == StoreError::Clock && final(self).ledger() == old(
                    self,
                ).ledger(),
            },
    {
        match Moment::now() {
            Some(now) => {
                self.record_chore_event_when(chore_id, now);
                proof {
                    assert(self.ledger().events.drop_last() =~= old(self).ledger().events);
                }
                Ok(())
            },
            None => Err(StoreError::Clock),
        }
    }

    /// Whether there is an event to undo.
    pub fn can_undo_chore_event(&self) -> (possible: bool)
        ensures
            possible == self.ledger().can_undo(),
    {
        self.events.len() > 0
    }

    /// The event that an undo would take off the record, if there is one.
    pub fn next_to_undo(&self) -> (next: Option<Event>)
        ensures
            match next {
                Some(event) => self.ledger().can_undo() && event
                    == self.ledger().events[latest(self.ledger().events)],
                None => !self.ledger().can_undo(),
            },
    {
        if self.events.len() == 0 {
            None
        } else {
            Some(self.events[latest_position(&self.events)])
        }
    }

    /// Takes the latest event off the record and keeps it to be redone.
    /// Returns whether there was an event to undo; where there was none,
    /// nothing changes.
    pub fn undo_chore_event(&mut self) -> (undone: bool)
        requires
            old(self).wf(),
        ensures
            final(self).wf(),
            final(self).chores() == old(self).chores(),
            final(self).next_id() == old(self).next_id(),
            undone == old(self).ledger().can_undo(),
            final(self).ledger() == old(self).ledger().undo(),
    {
        if self.events.len() == 0 {
            return false;
        }
        let position = latest_position(&self.events);
        let event = self.events.remove(position);
        self.redo_events.push(event);
        proof {
            let before = old(self).ledger();
            let after = self.ledger();
            assert(after.events == before.events.remove(position as int));
            assert forall|i: int| 0 <= i < after.events.len() implies (#[trigger] after.events[i]).wf() by {
                let ii = if i < position { i } else { i + 1 };
                assert(after.events[i] == before.events[ii]);
            }
            assert forall|i: int| 0 <= i < after.undone.len() implies (#[trigger] after.undone[i]).wf() by {
                if i < before.undone.len() {
                    assert(after.undone[i] == before.undone[i]);
                } else {
                    assert(after.undone[i] == before.events[position as int]);
                }
            }
            assert(after == before.undo());
            assert(self.chores() == old(self).chores());
            assert(self.wf());
        }
        true
    }

    /// Whether there is an undone event to redo.
    pub fn can_redo_chore_event(&self) -> (possible: bool)
        ensures
            possible == self.ledger().can_redo(),
    {
        self.redo_events.len() > 0
    }

    /// The event that a redo would put back on record, if there is one.
    pub fn next_to_redo(&self) -> (next: Option<Event>)
        ensures
            match next {
                Some(event) => self.ledger().can_redo() && event
                    == self.ledger().undone[latest(self.ledger().undone)],
                None => !self.ledger().can_redo(),
            },
    {
        if self.redo_events.len() == 0 {
            None
        } else {
            Some(self.redo_events[latest_position(&self.redo_events)])
        }
    }

    /// Puts the latest undone event back on record. Returns whether there
    /// was an event to redo; where there was none, nothing changes.
    pub fn redo_chore_event(&mut self) -> (redone: bool)
        requires
            old(self).wf(),
        ensures
            final(self).wf(),
            final(self).chores() == old(self).chores(),
            final(self).next_id() == old(self).next_id(),
            redone == old(self).ledger().can_redo(),
            final(self).ledger() == old(self).ledger().redo(),
    {
        if self.redo_events.len() == 0 {
            return false;
        }
        let position = latest_position(&self.redo_events);
        let event = self.redo_events.remove(position);
        self.events.push(event);
        proof {
            let before = old(self).ledger();
            let after = self.ledger();
            assert(after.undone == before.undone.remove(position as int));
            assert forall|i: int| 0 <= i < after.undone.len() implies (#[trigger] after.undone[i]).wf() by {
                let ii = if i < position { i } else { i + 1 };
                assert(after.undone[i] == before.undone[ii]);
            }
            assert forall|i: int| 0 <= i < after.events.len() implies (#[trigger] after.events[i]).wf() by {
                if i < before.events.len() {
                    assert(after.events[i] == before.events[i]);
                } else {
                    assert(after.events[i] == before.undone[position as int]);
                }
            }
            assert(after == before.redo());
            assert(self.chores() == old(self).chores());
            assert(self.wf());
        }
        true
    }
}

} // verus!
