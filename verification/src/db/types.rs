//! The records of the store: chores and completion events as the library
//! works with them, and the rows of text that the tables hold.

use crate::calendar::{
    interval_text, moment_text, parsed_interval, print_interval, read_interval,
};
use crate::order::Ranked;
use crate::text::{
    lemma_text_order_is_total, lemma_text_order_is_transitive, text_comes_before, text_precedes,
};
use crate::time::{Interval, Moment};
use vstd::prelude::*;

verus! {

/// The ID of a chore, assigned by the store when the chore is created.
#[derive(Clone, Copy, Debug, PartialEq, Eq, Hash, Structural)]
pub struct ChoreId(pub i64);

/// The ID of a chore as the tables hold it.
pub type DbChoreId = i64;

impl ChoreId {
    /// Wraps an ID read from the tables.
    pub fn from(id: DbChoreId) -> (chore_id: ChoreId)
        ensures
            chore_id == ChoreId(id),
    {
        ChoreId(id)
    }

    /// The ID as the tables hold it.
    pub fn into(self) -> (id: DbChoreId)
        ensures
            id == self.0,
    {
        self.0
    }
}

/// A stored text that could not be read back.
#[derive(Clone, Copy, Debug, PartialEq, Eq, Structural)]
pub enum ParseError {
    /// The interval of the chore with this ID is not a span of time.
    Interval { chore: DbChoreId },
    /// The timestamp of an event of the chore with this ID is not an instant.
    Timestamp { chore: DbChoreId },
}

/// The greatest number of characters in the name of a chore.
pub const MAX_NAME_LENGTH: usize = 160;

/// Whether `name` can be the name of a chore: it has at least one character
/// and at most [`MAX_NAME_LENGTH`].
pub open spec fn is_valid_name(name: Seq<char>) -> bool {
    1 <= name.len() <= MAX_NAME_LENGTH
}

/// Decides whether `name` can be the name of a chore.
pub fn name_is_valid(name: &str) -> (valid: bool)
    ensures
        valid == is_valid_name(name@),
{
    let length: usize = name.unicode_len();
    1 <= length && length <= MAX_NAME_LENGTH
}

/// A recurring task.
#[derive(Debug)]
pub struct Chore {
    /// The ID of the chore
    pub id: ChoreId,
    /// The name of the chore
    pub name: String,
    /// The interval in which this chore should be done
    pub interval: Interval,
}

impl Clone for Chore {
    fn clone(&self) -> (copy: Self)
        ensures
            copy == *self,
    {
        Chore { id: self.id, name: self.name.clone(), interval: self.interval }
    }
}

impl Chore {
    /// Well-formedness: the interval is well-formed.
    pub open spec fn wf(self) -> bool {
        self.interval.wf()
    }

    /// Reads a chore from its row. Fails exactly when the stored interval is
    /// not a span of time.
    pub fn try_from(chore: DbChore) -> (outcome: Result<Chore, ParseError>)
        ensures
            match outcome {
                Ok(read) => chore.decoded() == Some(read) && read.wf(),
                Err(error) => chore.decoded() is None && error == (ParseError::Interval {
                    chore: chore.id,
                }),
            },
    {
        match read_interval(chore.interval.as_str()) {
            Ok(interval) => Ok(Chore { id: ChoreId::from(chore.id), name: chore.name, interval }),
            Err(_) => Err(ParseError::Interval { chore: chore.id }),
        }
    }
}

/// Reads the chores of a table, row by row. The first row whose interval is
/// not a span of time fails the whole table with its error.
pub fn chores_from_rows(rows: Vec<DbChore>) -> (outcome: Result<Vec<Chore>, ParseError>)
    ensures
        match outcome {
            Ok(chores) => {
                &&& chores@.len() == rows@.len()
                &&& forall|i: int|
                    0 <= i < rows@.len() ==> (#[trigger] rows@[i]).decoded() == Some(chores@[i])
                &&& forall|i: int| 0 <= i < chores@.len() ==> (#[trigger] chores@[i]).wf()
            },
            Err(error) => exists|i: int|
                {
                    &&& 0 <= i < rows@.len()
                    &&& (#[trigger] rows@[i]).decoded() is None
                    &&& error == (ParseError::Interval { chore: rows@[i].id })
                    &&& forall|j: int| 0 <= j < i ==> (#[trigger] rows@[j]).decoded() is Some
                },
        },
{
    let mut chores: Vec<Chore> = Vec::new();
    let mut i: usize = 0;
    while i < rows.len()
        invariant
            i <= rows@.len(),
            chores@.len() == i,
            forall|k: int| 0 <= k < i ==> (#[trigger] rows@[k]).decoded() == Some(chores@[k]),
            forall|k: int| 0 <= k < i ==> (#[trigger] chores@[k]).wf(),
        decreases rows@.len() - i,
    {
        let row = &rows[i];
        let copy = DbChore { id: row.id, name: row.name.clone(), interval: row.interval.clone() };
        assert(copy == rows@[i as int]);
        match Chore::try_from(copy) {
            Ok(chore) => {
                chores.push(chore);
            },
            Err(error) => {
                assert(rows@[i as int].decoded() is None);
                return Err(error);
            },
        }
        i += 1;
    }
    Ok(chores)
}

/// Chores rank by name, in the order of texts.
impl Ranked for Chore {
    open spec fn precedes(&self, other: &Self) -> bool {
        text_precedes(self.name@, other.name@)
    }

    fn comes_before(&self, other: &Self) -> (before: bool) {
        text_comes_before(self.name.as_str(), other.name.as_str())
    }

    proof fn lemma_total(a: &Self, b: &Self) {
        lemma_text_order_is_total(a.name@, b.name@);
    }

    proof fn lemma_transitive(a: &Self, b: &Self, c: &Self) {
        lemma_text_order_is_transitive(a.name@, b.name@, c.name@);
    }
}

/// A chore as a row of the `chores` table: the interval is held as text.
#[derive(Debug)]
pub struct DbChore {
    pub id: DbChoreId,
    pub name: String,
    pub interval: String,
}

impl DbChore {
    /// The chore that this row stands for, or `None` where the stored
    /// interval is not a span of time.
    pub open spec fn decoded(self) -> Option<Chore> {
        match parsed_interval(self.interval@) {
            Some(interval) => Some(Chore { id: ChoreId(self.id), name: self.name, interval }),
            None => None,
        }
    }

    /// Writes a chore as its row.
    ///
    /// A chore is read back from the row unchanged where the sub-second
    /// units of its interval each stay below the next unit. They are printed
    /// as one fraction of a second, so units that do not may come back
    /// spread differently.
    pub fn from(chore: Chore) -> (row: DbChore)
        requires
            chore.wf(),
        ensures
            row.id == chore.id.0,
            row.name == chore.name,
            row.interval@ == interval_text(chore.interval),
            chore.interval.has_balanced_fraction() ==> row.decoded() == Some(chore),
    {
        let interval = print_interval(&chore.interval);
        DbChore { id: chore.id.into(), name: chore.name, interval }
    }
}

/// One completion of a chore.
#[derive(Clone, Copy, Debug, PartialEq, Eq, Structural)]
pub struct Event {
    pub chore_id: ChoreId,
    pub timestamp: Moment,
}

impl Event {
    /// Well-formedness: the timestamp is well-formed.
    pub open spec fn wf(self) -> bool {
        self.timestamp.wf()
    }

    /// Reads an event from its row. Fails exactly when the stored timestamp
    /// gives no instant or no offset.
    pub fn try_from(event: DbEvent) -> (outcome: Result<Event, ParseError>)
        ensures
            match outcome {
                Ok(read) => event.decoded() == Some(read) && read.wf(),
                Err(error) => event.decoded() is None && error == (ParseError::Timestamp {
                    chore: event.chore_id,
                }),
            },
    {
        match Moment::parse(event.timestamp.as_str()) {
            Some(timestamp) => Ok(Event { chore_id: ChoreId::from(event.chore_id), timestamp }),
            None => Err(ParseError::Timestamp { chore: event.chore_id }),
        }
    }
}

/// Reads the events of a table, row by row. The first row whose timestamp
/// gives no instant or no offset fails the whole table with its error.
pub fn events_from_rows(rows: Vec<DbEvent>) -> (outcome: Result<Vec<Event>, ParseError>)
    ensures
        match outcome {
            Ok(events) => {
                &&& events@.len() == rows@.len()
                &&& forall|i: int|
                    0 <= i < rows@.len() ==> (#[trigger] rows@[i]).decoded() == Some(events@[i])
                &&& forall|i: int| 0 <= i < events@.len() ==> (#[trigger] events@[i]).wf()
            },
            Err(error) => exists|i: int|
                {
                    &&& 0 <= i < rows@.len()
                    &&& (#[trigger] rows@[i]).decoded() is None
                    &&& error == (ParseError::Timestamp { chore: rows@[i].chore_id })
                    &&& forall|j: int| 0 <= j < i ==> (#[trigger] rows@[j]).decoded() is Some
                },
        },
{
    let mut events: Vec<Event> = Vec::new();
    let mut i: usize = 0;
    while i < rows.len()
        invariant
            i <= rows@.len(),
            events@.len() == i,
            forall|k: int| 0 <= k < i ==> (#[trigger] rows@[k]).decoded() == Some(events@[k]),
            forall|k: int| 0 <= k < i ==> (#[trigger] events@[k]).wf(),
        decreases rows@.len() - i,
    {
        let row = &rows[i];
        let copy = DbEvent { chore_id: row.chore_id, timestamp: row.timestamp.clone() };
        assert(copy == rows@[i as int]);
        match Event::try_from(copy) {
            Ok(event) => {
                events.push(event);
            },
            Err(error) => {
                assert(rows@[i as int].decoded() is None);
                return Err(error);
            },
        }
        i += 1;
    }
    Ok(events)
}

/// Events rank by instant, the earlier first.
impl Ranked for Event {
    open spec fn precedes(&self, other: &Self) -> bool {
        self.timestamp.nanosecond <= other.timestamp.nanosecond
    }

    fn comes_before(&self, other: &Self) -> (before: bool) {
        self.timestamp.nanosecond <= other.timestamp.nanosecond
    }

    proof fn lemma_total(a: &Self, b: &Self) {
    }

    proof fn lemma_transitive(a: &Self, b: &Self, c: &Self) {
    }
}

/// An event as a row of the `events` or the `redo_events` table: the
/// timestamp is held as text.
#[derive(Debug)]
pub struct DbEvent {
    pub chore_id: DbChoreId,
    pub timestamp: String,
}

impl DbEvent {
    /// The event that this row stands for, or `None` where the stored
    /// timestamp gives no instant or no offset.
    pub open spec fn decoded(self) -> Option<Event> {
        match Moment::parsed(self.timestamp@) {
            Some(timestamp) => Some(Event { chore_id: ChoreId(self.chore_id), timestamp }),
            None => None,
        }
    }

    /// Writes an event as its row.
    ///
    /// The text of a timestamp gives its offset in hours and minutes, so an
    /// event is read back from the row unchanged where its offset is a whole
    /// number of minutes.
    pub fn from(event: Event) -> (row: DbEvent)
        requires
            event.wf(),
        ensures
            row.chore_id == event.chore_id.0,
            row.timestamp@ == moment_text(event.timestamp),
            event.timestamp.has_minute_offset() ==> row.decoded() == Some(event),
    {
        DbEvent { chore_id: event.chore_id.into(), timestamp: event.timestamp.to_text() }
    }
}

/// A chore joined with the time of its latest completion, if it was ever
/// completed.
#[derive(Debug)]
pub struct ChoreEvent {
    pub id: ChoreId,
    pub name: String,
    pub interval: Interval,
    pub timestamp: Option<Moment>,
}

impl Clone for ChoreEvent {
    fn clone(&self) -> (copy: Self)
        ensures
            copy == *self,
    {
        ChoreEvent {
            id: self.id,
            name: self.name.clone(),
            interval: self.interval,
            timestamp: self.timestamp,
        }
    }
}

impl ChoreEvent {
    /// Well-formedness: the interval and the timestamp are well-formed.
    pub open spec fn wf(self) -> bool {
        &&& self.interval.wf()
        &&& self.timestamp matches Some(timestamp) ==> timestamp.wf()
    }
}

} // verus!
