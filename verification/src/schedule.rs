//! The scheduling rules: how long until a chore is due again, in what order
//! chores are shown, and how urgent each of them is.
//!
//! Everything here is computed from a reference instant `now` that the
//! caller supplies, so the same inputs always give the same answer.

use crate::calendar::{add_interval, civil_date_of, date_of, moment_after};
use crate::db::types::ChoreEvent;
use crate::order::{arranged, is_stable_order, stable_order};
use crate::time::{Interval, Moment, NANOS_PER_DAY};
use vstd::prelude::*;

verus! {

/// How urgent a chore is.
#[derive(Clone, Copy, Debug, PartialEq, Eq, Structural)]
pub enum Urgency {
    /// The chore was completed today.
    Done,
    /// The chore is overdue, or due within a day.
    Due,
    /// The chore is due within three days.
    DueSoon,
    /// The chore is not due for a while.
    DueLater,
}

impl Urgency {
    /// The name of the style that marks a chore of this urgency.
    pub fn css_class(&self) -> (class: &'static str)
        ensures
            class@ == match *self {
                Urgency::Done => "chore-done"@,
                Urgency::Due => "chore-due"@,
                Urgency::DueSoon => "chore-due-soon"@,
                Urgency::DueLater => "chore-due-later"@,
            },
    {
        match self {
            Urgency::Done => "chore-done",
            Urgency::Due => "chore-due",
            Urgency::DueSoon => "chore-due-soon",
            Urgency::DueLater => "chore-due-later",
        }
    }
}

/// The number of days of twenty-four hours in `nanoseconds`, rounded up to a
/// whole number.
pub open spec fn ceil_days(nanoseconds: int) -> int {
    if nanoseconds >= 0 {
        (nanoseconds + NANOS_PER_DAY - 1) / NANOS_PER_DAY as int
    } else {
        -((-nanoseconds) / NANOS_PER_DAY as int)
    }
}

/// The number of days of twenty-four hours in `nanoseconds`, rounded down to
/// a whole number.
pub open spec fn floor_days(nanoseconds: int) -> int {
    if nanoseconds >= 0 {
        nanoseconds / NANOS_PER_DAY as int
    } else {
        -((-nanoseconds + NANOS_PER_DAY - 1) / NANOS_PER_DAY as int)
    }
}

/// [`ceil_days`] is the least whole number of days that covers the time, and
/// [`floor_days`] the greatest that the time covers.
pub proof fn lemma_days_round_as_named(nanoseconds: int)
    ensures
        (ceil_days(nanoseconds) - 1) * NANOS_PER_DAY < nanoseconds <= ceil_days(nanoseconds)
            * NANOS_PER_DAY,
        floor_days(nanoseconds) * NANOS_PER_DAY <= nanoseconds < (floor_days(nanoseconds) + 1)
            * NANOS_PER_DAY,
{
    let day = NANOS_PER_DAY as int;
    if nanoseconds >= 0 {
        vstd::arithmetic::div_mod::lemma_fundamental_div_mod(nanoseconds + day - 1, day);
        vstd::arithmetic::div_mod::lemma_mod_bound(nanoseconds + day - 1, day);
        vstd::arithmetic::div_mod::lemma_fundamental_div_mod(nanoseconds, day);
        vstd::arithmetic::div_mod::lemma_mod_bound(nanoseconds, day);
    } else {
        vstd::arithmetic::div_mod::lemma_fundamental_div_mod(-nanoseconds, day);
        vstd::arithmetic::div_mod::lemma_mod_bound(-nanoseconds, day);
        vstd::arithmetic::div_mod::lemma_fundamental_div_mod(-nanoseconds + day - 1, day);
        vstd::arithmetic::div_mod::lemma_mod_bound(-nanoseconds + day - 1, day);
    }
}

/// The time in nanoseconds from `now` until `chore` is due again: one
/// interval after its latest completion. A chore that was never completed is
/// due at once. Negative when the chore is overdue.
pub open spec fn nanoseconds_until_next(now: Moment, chore: ChoreEvent) -> int {
    match chore.timestamp {
        Some(last) => moment_after(last, chore.interval).nanosecond - now.nanosecond,
        None => 0,
    }
}

/// The instant at which `chore` is due again: one interval after its latest
/// completion, or `now` where it was never completed.
pub open spec fn next_due(now: Moment, chore: ChoreEvent) -> Moment {
    match chore.timestamp {
        Some(last) => moment_after(last, chore.interval),
        None => now,
    }
}

/// The urgency of a chore that is due every `interval`, is due next at
/// `next_due` and was last completed at `last_completed`, seen from `now`.
///
/// A chore completed on the calendar date of `now` is done, whatever else
/// holds. Otherwise it is due where it is overdue or due within a day, due
/// soon where it is due within three days, and due later in any other case;
/// a chore whose interval is shorter than a day is never softened to due or
/// due soon by the count of days.
pub open spec fn urgency_of(
    now: Moment,
    next_due: Moment,
    interval: Interval,
    last_completed: Option<Moment>,
) -> Urgency {
    let is_daily = interval.is_under_one_day();
    let due_days = ceil_days(next_due.nanosecond - now.nanosecond);
    if last_completed is Some && civil_date_of(last_completed->0) == civil_date_of(now) {
        Urgency::Done
    } else if next_due.nanosecond < now.nanosecond || (due_days <= 1 && !is_daily) {
        Urgency::Due
    } else if due_days <= 3 && !is_daily {
        Urgency::DueSoon
    } else {
        Urgency::DueLater
    }
}

/// The number of whole days in `nanoseconds`, rounded up.
pub fn days_rounded_up(nanoseconds: i128) -> (days: i64)
    requires
        -0x4000_0000_0000_0000_0000_0000 <= nanoseconds <= 0x4000_0000_0000_0000_0000_0000,
    ensures
        days == ceil_days(nanoseconds as int),
        (days - 1) * NANOS_PER_DAY < nanoseconds <= days * NANOS_PER_DAY,
{
    proof {
        lemma_days_round_as_named(nanoseconds as int);
    }
    if nanoseconds >= 0 {
        ((nanoseconds + NANOS_PER_DAY - 1) / NANOS_PER_DAY) as i64
    } else {
        let magnitude: i128 = -nanoseconds;
        let days: i128 = magnitude / NANOS_PER_DAY;
        (-days) as i64
    }
}

/// The number of whole days in `nanoseconds`, rounded down.
pub fn days_rounded_down(nanoseconds: i128) -> (days: i64)
    requires
        -0x4000_0000_0000_0000_0000_0000 <= nanoseconds <= 0x4000_0000_0000_0000_0000_0000,
    ensures
        days == floor_days(nanoseconds as int),
        days * NANOS_PER_DAY <= nanoseconds < (days + 1) * NANOS_PER_DAY,
{
    proof {
        lemma_days_round_as_named(nanoseconds as int);
    }
    if nanoseconds >= 0 {
        (nanoseconds / NANOS_PER_DAY) as i64
    } else {
        let magnitude: i128 = -nanoseconds;
        let days: i128 = (magnitude + NANOS_PER_DAY - 1) / NANOS_PER_DAY;
        (-days) as i64
    }
}

/// The time from `now` until `chore_event` is due again, as a span of clock
/// units. The span of a chore that was never completed is zero.
pub fn time_until_next_chore(now: &Moment, chore_event: &ChoreEvent) -> (until: Interval)
    requires
        now.wf(),
        chore_event.wf(),
    ensures
        until == Interval::balanced(nanoseconds_until_next(*now, *chore_event)),
        until.wf(),
        until.is_clock_only(),
        until.clock_nanoseconds() == nanoseconds_until_next(*now, *chore_event),
{
    match chore_event.timestamp {
        None => Interval::zero(),
        Some(last_chore) => {
            let next_chore = add_interval(&last_chore, &chore_event.interval);
            next_chore.since(now)
        },
    }
}

/// The urgency keys of `chores` seen from `now`: for each chore the time in
/// nanoseconds until it is due again.
pub open spec fn urgency_keys(chores: Seq<ChoreEvent>, now: Moment) -> Seq<i128> {
    Seq::new(chores.len(), |i: int| nanoseconds_until_next(now, chores[i]) as i128)
}

/// Sorts `chores` by the time until each is due again, the most overdue
/// first. Chores that are due at the same instant stay in the order they
/// came in.
pub fn sort_chores(chores: Vec<ChoreEvent>, now: &Moment) -> (sorted: Vec<ChoreEvent>)
    requires
        now.wf(),
        forall|i: int| 0 <= i < chores@.len() ==> (#[trigger] chores@[i]).wf(),
    ensures
        sorted@.len() == chores@.len(),
        exists|order: Seq<usize>|
            is_stable_order(urgency_keys(chores@, *now), order) && sorted@ == arranged(
                chores@,
                order,
            ),
{
    let mut keys: Vec<i128> = Vec::new();
    let mut i: usize = 0;
    while i < chores.len()
        invariant
            i <= chores.len(),
            now.wf(),
            forall|k: int| 0 <= k < chores@.len() ==> (#[trigger] chores@[k]).wf(),
            keys@ == urgency_keys(chores@.take(i as int), *now),
        decreases chores.len() - i,
    {
        assert(chores@[i as int].wf());
        let until = time_until_next_chore(now, &chores[i]);
        keys.push(until.total_clock_nanoseconds());
        proof {
            assert(keys@ =~= urgency_keys(chores@.take(i + 1), *now));
        }
        i += 1;
    }
    proof {
        assert(chores@.take(i as int) =~= chores@);
    }
    let order = stable_order(&keys);
    let mut sorted: Vec<ChoreEvent> = Vec::new();
    let mut k: usize = 0;
    while k < order.len()
        invariant
            k <= order.len(),
            keys@.len() == chores@.len(),
            is_stable_order(keys@, order@),
            sorted@ == arranged(chores@, order@.take(k as int)),
        decreases order.len() - k,
    {
        assert(0 <= order@[k as int] < chores@.len());
        sorted.push(chores[order[k]].clone());
        assert(sorted@ =~= arranged(chores@, order@.take(k + 1)));
        k += 1;
    }
    proof {
        assert(order@.take(k as int) =~= order@);
        assert(is_stable_order(urgency_keys(chores@, *now), order@) && sorted@ == arranged(
            chores@,
            order@,
        ));
    }
    sorted
}

/// The urgency of a chore that is due every `interval`, is due next at
/// `next_due` and was last completed at `last_completed`, seen from `now`.
pub fn classify(
    now: &Moment,
    next_due: &Moment,
    interval: &Interval,
    last_completed: &Option<Moment>,
) -> (urgency: Urgency)
    requires
        now.wf(),
        next_due.wf(),
        interval.wf(),
        last_completed matches Some(last) ==> last.wf(),
    ensures
        urgency == urgency_of(*now, *next_due, *interval, *last_completed),
{
    let is_daily = interval.is_daily();
    if let Some(last_completed) = last_completed {
        if date_of(last_completed) == date_of(now) {
            return Urgency::Done;
        }
    }
    let until_due = next_due.since(now);
    let due_days = days_rounded_up(until_due.total_clock_nanoseconds());
    if next_due.is_before(now) || (due_days <= 1 && !is_daily) {
        Urgency::Due
    } else if due_days <= 3 && !is_daily {
        Urgency::DueSoon
    } else {
        Urgency::DueLater
    }
}

/// What is shown of one chore.
#[derive(Clone, Copy, Debug, PartialEq, Eq, Structural)]
pub struct ChoreStatus {
    /// Whole days since the latest completion, rounded down; -1 where the
    /// chore was never completed.
    pub days_since_last: i64,
    /// Whole days until the chore is due again, rounded up; negative where
    /// it is overdue.
    pub next_days: i64,
    /// How urgent the chore is.
    pub urgency: Urgency,
}

/// What is shown of `chore` seen from `now`.
pub open spec fn status_of(now: Moment, chore: ChoreEvent) -> ChoreStatus {
    ChoreStatus {
        days_since_last: match chore.timestamp {
            Some(last) => floor_days(now.nanosecond - last.nanosecond) as i64,
            None => -1i64,
        },
        next_days: ceil_days(nanoseconds_until_next(now, chore)) as i64,
        urgency: urgency_of(
            now,
            Moment {
                nanosecond: next_due(now, chore).nanosecond,
                offset_seconds: now.offset_seconds,
            },
            chore.interval,
            chore.timestamp,
        ),
    }
}

/// What is shown of `chore_event` seen from `now`: the days since it was
/// last completed, the days until it is due again, and its urgency.
pub fn chore_status(now: &Moment, chore_event: &ChoreEvent) -> (status: ChoreStatus)
    requires
        now.wf(),
        chore_event.wf(),
    ensures
        status == status_of(*now, *chore_event),
{
    let days_since_last: i64 = match chore_event.timestamp {
        Some(last) => days_rounded_down(now.since(&last).total_clock_nanoseconds()),
        None => -1,
    };
    let next_chore = match chore_event.timestamp {
        Some(last) => add_interval(&last, &chore_event.interval),
        None => *now,
    };
    let next = next_chore.since(now).total_clock_nanoseconds();
    let due = Moment { nanosecond: next_chore.nanosecond, offset_seconds: now.offset_seconds };
    let urgency = classify(now, &due, &chore_event.interval, &chore_event.timestamp);
    ChoreStatus { days_since_last, next_days: days_rounded_up(next), urgency }
}

} // verus!
