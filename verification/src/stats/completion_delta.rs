//! How far each completion of a chore fell from the time it was due.

use crate::calendar::{add_interval, moment_after};
use crate::db::types::{Chore, Event};
use crate::time::{Interval, MAX_INSTANT, MIN_INSTANT, NANOS_PER_DAY};
use vstd::prelude::*;

verus! {

/// A signed length of time counted in days of twenty-four hours, held
/// exactly as a number of nanoseconds. Negative is early, positive is late.
#[derive(Clone, Copy, Debug, PartialEq, Eq, Structural)]
pub struct DayDelta {
    pub nanoseconds: i128,
}

impl DayDelta {
    /// The delta lies between two instants of the calendar: it is no longer
    /// than the time from the earliest instant to the latest.
    pub open spec fn wf(self) -> bool {
        MIN_INSTANT - MAX_INSTANT <= self.nanoseconds <= MAX_INSTANT - MIN_INSTANT
    }

    /// The completion was overdue: at least one whole day late.
    pub open spec fn is_late(self) -> bool {
        self.nanoseconds >= NANOS_PER_DAY
    }

    /// The number of whole days, rounded toward zero.
    pub open spec fn days(self) -> int {
        if self.nanoseconds >= 0 {
            self.nanoseconds as int / NANOS_PER_DAY as int
        } else {
            -((-self.nanoseconds) / NANOS_PER_DAY as int)
        }
    }

    /// Whether the completion was overdue: at least one whole day late.
    pub fn is_overdue(&self) -> (overdue: bool)
        ensures
            overdue == self.is_late(),
    {
        self.nanoseconds >= NANOS_PER_DAY
    }

    /// The number of whole days, rounded toward zero.
    pub fn whole_days(&self) -> (days: i128)
        ensures
            days == self.days(),
    {
        if self.nanoseconds >= 0 {
            self.nanoseconds / NANOS_PER_DAY
        } else if self.nanoseconds == i128::MIN {
            // The magnitude of the least number has no positive counterpart;
            // one more nanosecond does not change its whole days.
            let magnitude: i128 = -(self.nanoseconds + 1);
            assert((magnitude as int + 1) / NANOS_PER_DAY as int == magnitude as int
                / NANOS_PER_DAY as int) by {
                assert(magnitude == 0x7fff_ffff_ffff_ffff_ffff_ffff_ffff_ffff);
            }
            -(magnitude / NANOS_PER_DAY)
        } else {
            let magnitude: i128 = -self.nanoseconds;
            -(magnitude / NANOS_PER_DAY)
        }
    }
}

/// How late `actual` came after `previous`, in nanoseconds: the time from
/// the instant one `interval` after `previous` to `actual`.
pub open spec fn delta_between(interval: Interval, previous: Event, actual: Event) -> int {
    actual.timestamp.nanosecond - moment_after(previous.timestamp, interval).nanosecond
}

/// The number of deltas of a history of `events` events: one for every event
/// but the first.
pub open spec fn delta_count(events: int) -> int {
    if events == 0 {
        0
    } else {
        events - 1
    }
}

/// The delta of every event of `events` but the first against the event
/// before it, in nanoseconds and in the order of the events.
pub open spec fn completion_deltas(interval: Interval, events: Seq<Event>) -> Seq<i128> {
    Seq::new(
        delta_count(events.len() as int) as nat,
        |i: int| delta_between(interval, events[i], events[i + 1]) as i128,
    )
}

/// The nanoseconds of each of `deltas`.
pub open spec fn delta_values(deltas: Seq<DayDelta>) -> Seq<i128> {
    Seq::new(deltas.len(), |i: int| deltas[i].nanoseconds)
}

/// For each event of `events` after the first, how far it fell from the time
/// the chore was due: one interval after the event before it. `events` is
/// the history of the chore, the earliest event first.
///
/// There is one delta for every event but the first, in the order of the
/// events.
pub fn calculate_completion_delta_days(chore: &Chore, events: &Vec<Event>) -> (deltas: Vec<
    DayDelta,
>)
    requires
        chore.wf(),
        forall|i: int| 0 <= i < events@.len() ==> (#[trigger] events@[i]).wf(),
    ensures
        deltas@.len() == delta_count(events@.len() as int),
        forall|i: int|
            0 <= i < deltas@.len() ==> (#[trigger] deltas@[i]).nanoseconds == delta_between(
                chore.interval,
                events@[i],
                events@[i + 1],
            ),
        forall|i: int| 0 <= i < deltas@.len() ==> (#[trigger] deltas@[i]).wf(),
        delta_values(deltas@) == completion_deltas(chore.interval, events@),
{
    let mut deltas: Vec<DayDelta> = Vec::new();
    let mut i: usize = 1;
    while i < events.len()
        invariant
            1 <= i,
            i <= events.len() || events.len() == 0,
            chore.wf(),
            forall|k: int| 0 <= k < events@.len() ==> (#[trigger] events@[k]).wf(),
            deltas@.len() == delta_count(if events@.len() == 0 {
                0
            } else {
                i as int
            }),
            forall|k: int|
                0 <= k < deltas@.len() ==> (#[trigger] deltas@[k]).nanoseconds == delta_between(
                    chore.interval,
                    events@[k],
                    events@[k + 1],
                ),
            forall|k: int| 0 <= k < deltas@.len() ==> (#[trigger] deltas@[k]).wf(),
        decreases events.len() - i,
    {
        let previous = &events[i - 1];
        let actual = &events[i];
        assert(events@[i - 1].wf() && events@[i as int].wf());
        let expected = add_interval(&previous.timestamp, &chore.interval);
        let elapsed = actual.timestamp.since(&expected);
        let nanoseconds: i128 = elapsed.total_clock_nanoseconds();
        deltas.push(DayDelta { nanoseconds });
        i += 1;
    }
    proof {
        assert(delta_values(deltas@) =~= completion_deltas(chore.interval, events@));
    }
    deltas
}

} // verus!
