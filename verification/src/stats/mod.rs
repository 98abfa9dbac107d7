//! Statistics of how timely the completions of a chore were.
//!
//! A completion is overdue where it came at least one whole day after it was
//! due. The mean, the median and the variance describe the overdue
//! completions only, in days; with no overdue completion each of them is
//! zero.

pub mod completion_delta;
pub mod utils;

use crate::db::ledger::events_of;
use crate::db::types::{Chore, ChoreId, Event};
use crate::db::Db;
use crate::order::{arranged, is_stable_order, stable_order, Ranked};
use crate::stats::completion_delta::{
    calculate_completion_delta_days, completion_deltas, delta_values, DayDelta,
};
use crate::stats::utils::{
    lemma_ascending_keeps_bounds, lemma_bounded_values_add_up, mean, mean_of, median, median_of,
    variance, variance_of, zero_fraction, Fraction,
};
use crate::text::{
    lemma_text_order_is_total, lemma_text_order_is_transitive, text_comes_before, text_precedes,
};
use crate::time::{Interval, MAX_INSTANT, MIN_INSTANT, NANOS_PER_DAY};
use vstd::prelude::*;

verus! {

/// The square of [`NANOS_PER_DAY`].
pub const SQUARE_NANOS_PER_DAY: i128 = 7_464_960_000_000_000_000_000_000_000;

/// The greatest number of completions for which the mean is certain to be
/// held: so many deltas add up in 128 bits whatever they are.
pub const MAX_COMPLETIONS_FOR_MEAN: u64 = 0x0100_0000_0000_0000;

/// The timeliness of the completions of one chore.
#[derive(Clone, Copy, Debug, PartialEq, Eq, Structural)]
pub struct ChoreStats {
    /// How many times the chore was completed.
    pub num_completed: usize,
    /// How many of the completions were overdue.
    pub num_overdue: usize,
    /// How many of the completions were not overdue. The first completion
    /// has nothing to be measured against and counts as on time.
    pub num_completed_on_time_or_early: usize,
    /// The mean lateness of the overdue completions, in days; `None` where
    /// their latenesses cannot be added up in 128 bits, which takes more than
    /// [`MAX_COMPLETIONS_FOR_MEAN`] of them.
    pub mean_overdue_days: Option<Fraction>,
    /// The median lateness of the overdue completions, in days. It is always
    /// there for a history of well-formed events.
    pub median_overdue_days: Option<Fraction>,
    /// The population variance of the lateness of the overdue completions,
    /// in square days; `None` where it cannot be held as a fraction of two
    /// 128-bit integers.
    pub variance_overdue_days: Option<Fraction>,
}

/// Those of `deltas`, in nanoseconds, that are overdue: at least one day.
pub open spec fn overdue_of(deltas: Seq<i128>) -> Seq<i128> {
    deltas.filter(|delta: i128| delta >= NANOS_PER_DAY)
}

/// A fraction of nanoseconds as a fraction of days; zero stays as it is.
pub open spec fn in_days(nanoseconds: Fraction) -> Fraction {
    if nanoseconds.numerator == 0 {
        zero_fraction()
    } else {
        Fraction {
            numerator: nanoseconds.numerator,
            denominator: (nanoseconds.denominator * NANOS_PER_DAY) as i128,
        }
    }
}

/// A fraction of square nanoseconds as a fraction of square days, where its
/// denominator can be held; zero stays as it is.
pub open spec fn in_square_days(nanoseconds: Fraction) -> Option<Fraction> {
    if nanoseconds.numerator == 0 {
        Some(zero_fraction())
    } else if nanoseconds.denominator * SQUARE_NANOS_PER_DAY <= i128::MAX {
        Some(
            Fraction {
                numerator: nanoseconds.numerator,
                denominator: (nanoseconds.denominator * SQUARE_NANOS_PER_DAY) as i128,
            },
        )
    } else {
        None
    }
}

/// The mean of `overdue`, in days, where it can be held.
pub open spec fn mean_in_days(overdue: Seq<i128>) -> Option<Fraction> {
    match mean_of(overdue) {
        Some(mean) => Some(in_days(mean)),
        None => None,
    }
}

/// The median of `overdue`, in days, where it can be held.
pub open spec fn median_in_days(overdue: Seq<i128>) -> Option<Fraction> {
    match median_of(overdue) {
        Some(median) => Some(in_days(median)),
        None => None,
    }
}

/// The variance of `overdue`, in square days, where it can be held.
pub open spec fn variance_in_days(overdue: Seq<i128>) -> Option<Fraction> {
    match variance_of(overdue) {
        Some(variance) => in_square_days(variance),
        None => None,
    }
}

/// The statistics of a chore that is due every `interval` and was completed
/// at each of `events`, the earliest first.
pub open spec fn stats_of(interval: Interval, events: Seq<Event>) -> ChoreStats {
    let overdue = overdue_of(completion_deltas(interval, events));
    ChoreStats {
        num_completed: events.len() as usize,
        num_overdue: overdue.len() as usize,
        num_completed_on_time_or_early: (events.len() - overdue.len()) as usize,
        mean_overdue_days: mean_in_days(overdue),
        median_overdue_days: median_in_days(overdue),
        variance_overdue_days: variance_in_days(overdue),
    }
}

/// There are no more overdue completions than completions after the first.
pub proof fn lemma_overdue_are_fewer_than_events(interval: Interval, events: Seq<Event>)
    ensures
        overdue_of(completion_deltas(interval, events)).len() <= events.len(),
        events.len() > 0 ==> overdue_of(completion_deltas(interval, events)).len() < events.len(),
{
    completion_deltas(interval, events).lemma_filter_len(|delta: i128| delta >= NANOS_PER_DAY);
}

/// With no overdue completion the mean, the median and the variance are all
/// zero.
pub proof fn law_no_overdue_gives_zero(interval: Interval, events: Seq<Event>)
    requires
        overdue_of(completion_deltas(interval, events)).len() == 0,
    ensures
        stats_of(interval, events).num_overdue == 0,
        stats_of(interval, events).mean_overdue_days == Some(zero_fraction()),
        stats_of(interval, events).median_overdue_days == Some(zero_fraction()),
        stats_of(interval, events).variance_overdue_days == Some(zero_fraction()),
{
}

/// Converts a fraction of nanoseconds to days.
fn to_days(nanoseconds: Fraction) -> (days: Fraction)
    requires
        nanoseconds.wf(),
        nanoseconds.denominator <= 0xffff_ffff_ffff_ffff,
    ensures
        days.wf(),
        days == in_days(nanoseconds),
{
    if nanoseconds.numerator == 0 {
        Fraction { numerator: 0, denominator: 1 }
    } else {
        Fraction {
            numerator: nanoseconds.numerator,
            denominator: nanoseconds.denominator * NANOS_PER_DAY,
        }
    }
}

/// Converts a fraction of square nanoseconds to square days.
fn to_square_days(nanoseconds: Fraction) -> (days: Option<Fraction>)
    requires
        nanoseconds.wf(),
    ensures
        days == in_square_days(nanoseconds),
        days matches Some(fraction) ==> fraction.wf(),
{
    if nanoseconds.numerator == 0 {
        Some(Fraction { numerator: 0, denominator: 1 })
    } else {
        match nanoseconds.denominator.checked_mul(SQUARE_NANOS_PER_DAY) {
            Some(denominator) => {
                assert(denominator > 0) by (nonlinear_arith)
                    requires
                        denominator == nanoseconds.denominator * SQUARE_NANOS_PER_DAY,
                        nanoseconds.denominator > 0,
                        SQUARE_NANOS_PER_DAY > 0,
                ;
                Some(Fraction { numerator: nanoseconds.numerator, denominator })
            },
            None => {
                assert(nanoseconds.denominator * SQUARE_NANOS_PER_DAY > i128::MAX) by (nonlinear_arith)
                    requires
                        nanoseconds.denominator * SQUARE_NANOS_PER_DAY > i128::MAX
                            || nanoseconds.denominator * SQUARE_NANOS_PER_DAY < i128::MIN,
                        nanoseconds.denominator > 0,
                        SQUARE_NANOS_PER_DAY > 0,
                ;
                None
            },
        }
    }
}

/// The overdue ones of `deltas`, in nanoseconds.
fn overdue_nanoseconds(deltas: &Vec<DayDelta>) -> (overdue: Vec<i128>)
    requires
        forall|i: int| 0 <= i < deltas@.len() ==> (#[trigger] deltas@[i]).wf(),
    ensures
        overdue@ == overdue_of(delta_values(deltas@)),
        overdue@.len() <= deltas@.len(),
        forall|i: int|
            0 <= i < overdue@.len() ==> 0 <= #[trigger] overdue@[i] <= MAX_INSTANT - MIN_INSTANT,
{
    let mut overdue: Vec<i128> = Vec::new();
    let mut i: usize = 0;
    proof {
        reveal(Seq::filter);
        assert(delta_values(deltas@).take(0) =~= Seq::<i128>::empty());
    }
    while i < deltas.len()
        invariant
            i <= deltas.len(),
            forall|k: int| 0 <= k < deltas@.len() ==> (#[trigger] deltas@[k]).wf(),
            overdue@ == overdue_of(delta_values(deltas@).take(i as int)),
            overdue@.len() <= i,
            forall|k: int|
                0 <= k < overdue@.len() ==> 0 <= #[trigger] overdue@[k] <= MAX_INSTANT
                    - MIN_INSTANT,
        decreases deltas.len() - i,
    {
        proof {
            reveal(Seq::filter);
            let values = delta_values(deltas@);
            assert(values.take(i + 1).drop_last() =~= values.take(i as int));
            assert(values.take(i + 1).last() == deltas@[i as int].nanoseconds);
            assert(deltas@[i as int].wf());
        }
        if deltas[i].is_overdue() {
            overdue.push(deltas[i].nanoseconds);
        }
        i += 1;
    }
    proof {
        assert(delta_values(deltas@).take(i as int) =~= delta_values(deltas@));
    }
    overdue
}

/// The statistics of `chore` from `events`, its history with the earliest
/// event first.
///
/// The median is always there. The mean is there where the history has no
/// more than [`MAX_COMPLETIONS_FOR_MEAN`] events.
pub fn summarize(chore: &Chore, events: &Vec<Event>) -> (stats: ChoreStats)
    requires
        chore.wf(),
        forall|i: int| 0 <= i < events@.len() ==> (#[trigger] events@[i]).wf(),
    ensures
        stats == stats_of(chore.interval, events@),
        stats.num_completed == events@.len(),
        stats.num_overdue + stats.num_completed_on_time_or_early == stats.num_completed,
        stats.num_overdue == overdue_of(completion_deltas(chore.interval, events@)).len(),
        stats.median_overdue_days is Some,
        events@.len() <= MAX_COMPLETIONS_FOR_MEAN ==> stats.mean_overdue_days is Some,
        stats.num_overdue == 0 ==> stats.mean_overdue_days == Some(zero_fraction())
            && stats.median_overdue_days == Some(zero_fraction()) && stats.variance_overdue_days
            == Some(zero_fraction()),
{
    let deltas = calculate_completion_delta_days(chore, events);
    let overdue = overdue_nanoseconds(&deltas);
    proof {
        lemma_overdue_are_fewer_than_events(chore.interval, events@);
        if overdue@.len() == 0 {
            law_no_overdue_gives_zero(chore.interval, events@);
        }
        let span = MAX_INSTANT - MIN_INSTANT;
        lemma_ascending_keeps_bounds(overdue@, 0, span);
        if events@.len() <= MAX_COMPLETIONS_FOR_MEAN {
            assert(overdue@.len() * span <= i128::MAX) by (nonlinear_arith)
                requires
                    overdue@.len() <= 0x0100_0000_0000_0000,
                    span == 631_107_230_401_999_999_999,
            ;
            lemma_bounded_values_add_up(overdue@, span);
        }
    }
    let num_completed: usize = events.len();
    let num_overdue: usize = overdue.len();
    let mean_overdue_days = match mean(&overdue) {
        Some(average) => Some(to_days(average)),
        None => None,
    };
    let median_overdue_days = match median(&overdue) {
        Some(middle) => Some(to_days(middle)),
        None => None,
    };
    let variance_overdue_days = match variance(&overdue) {
        Some(spread) => to_square_days(spread),
        None => None,
    };
    ChoreStats {
        num_completed,
        num_overdue,
        num_completed_on_time_or_early: num_completed - num_overdue,
        mean_overdue_days,
        median_overdue_days,
        variance_overdue_days,
    }
}

/// Whether `stats` are the statistics of `chore` from its events on record
/// in `db`, taken the earliest first and, among events of the same instant,
/// in the order they were recorded.
pub open spec fn is_stats_of(db: Db, chore: Chore, stats: ChoreStats) -> bool {
    exists|order: Seq<usize>|
        {
            &&& is_stable_order(events_of(db.ledger().events, chore.id), order)
            &&& stats == #[trigger] stats_of(
                chore.interval,
                arranged(events_of(db.ledger().events, chore.id), order),
            )
        }
}

/// The statistics of the chore `chore_id` from its events on record, or
/// `None` where the store holds no chore of that ID. A chore without events
/// has statistics, all of them zero.
pub fn get_stats(db: &Db, chore_id: ChoreId) -> (found: Option<ChoreStats>)
    requires
        db.wf(),
    ensures
        match found {
            Some(stats) => exists|chore: Chore|
                {
                    &&& #[trigger] db.chores().contains(chore)
                    &&& chore.id == chore_id
                    &&& is_stats_of(*db, chore, stats)
                },
            None => !db.has_chore(chore_id),
        },
{
    match db.get_chore(chore_id) {
        None => None,
        Some(chore) => {
            let events = db.get_chore_completions(chore_id);
            proof {
                let at = choose|i: int| 0 <= i < db.chores().len() && db.chores()[i] == chore;
                assert(db.chores()[at].wf());
            }
            let stats = summarize(&chore, &events);
            Some(stats)
        },
    }
}

/// A chore with its statistics.
#[derive(Clone, Debug)]
pub struct ChoreReport {
    pub chore: Chore,
    pub stats: ChoreStats,
}

/// Reports rank by the number of completions, the most first; then by the
/// number of overdue completions, the most first; then by the name of the
/// chore, in the order of texts.
impl Ranked for ChoreReport {
    open spec fn precedes(&self, other: &Self) -> bool {
        if self.stats.num_completed != other.stats.num_completed {
            self.stats.num_completed > other.stats.num_completed
        } else if self.stats.num_overdue != other.stats.num_overdue {
            self.stats.num_overdue > other.stats.num_overdue
        } else {
            text_precedes(self.chore.name@, other.chore.name@)
        }
    }

    fn comes_before(&self, other: &Self) -> (before: bool) {
        if self.stats.num_completed != other.stats.num_completed {
            self.stats.num_completed > other.stats.num_completed
        } else if self.stats.num_overdue != other.stats.num_overdue {
            self.stats.num_overdue > other.stats.num_overdue
        } else {
            text_comes_before(self.chore.name.as_str(), other.chore.name.as_str())
        }
    }

    proof fn lemma_total(a: &Self, b: &Self) {
        lemma_text_order_is_total(a.chore.name@, b.chore.name@);
    }

    proof fn lemma_transitive(a: &Self, b: &Self, c: &Self) {
        if a.stats.num_completed == b.stats.num_completed && b.stats.num_completed
            == c.stats.num_completed && a.stats.num_overdue == b.stats.num_overdue
            && b.stats.num_overdue == c.stats.num_overdue {
            lemma_text_order_is_transitive(a.chore.name@, b.chore.name@, c.chore.name@);
        }
    }
}

/// Whether `reports` hold every chore of `db` in table order, each with its
/// statistics.
pub open spec fn are_reports_of(db: Db, reports: Seq<ChoreReport>) -> bool {
    &&& reports.len() == db.chores().len()
    &&& forall|i: int|
        0 <= i < reports.len() ==> (#[trigger] reports[i]).chore == db.chores()[i] && is_stats_of(
            db,
            db.chores()[i],
            reports[i].stats,
        )
}

/// Every chore of the store with its statistics, ranked: the chore most
/// often completed first, then the one most often overdue, then by name.
/// Chores that rank the same stay in table order.
pub fn stats_report(db: &Db) -> (ranked: Vec<ChoreReport>)
    requires
        db.wf(),
    ensures
        exists|reports: Seq<ChoreReport>, order: Seq<usize>|
            {
                &&& are_reports_of(*db, reports)
                &&& is_stable_order(reports, order)
                &&& ranked@ == #[trigger] arranged(reports, order)
            },
{
    let chores = db.table();
    let mut reports: Vec<ChoreReport> = Vec::new();
    let mut i: usize = 0;
    while i < chores.len()
        invariant
            db.wf(),
            chores@ == db.chores(),
            i <= chores@.len(),
            reports@.len() == i,
            forall|k: int|
                0 <= k < i ==> (#[trigger] reports@[k]).chore == db.chores()[k] && is_stats_of(
                    *db,
                    db.chores()[k],
                    reports@[k].stats,
                ),
        decreases chores@.len() - i,
    {
        let chore = chores[i].clone();
        assert(db.chores()[i as int].wf());
        let events = db.get_chore_completions(chore.id);
        let stats = summarize(&chore, &events);
        reports.push(ChoreReport { chore, stats });
        i += 1;
    }
    let order = stable_order(&reports);
    let mut ranked: Vec<ChoreReport> = Vec::new();
    let mut k: usize = 0;
    while k < order.len()
        invariant
            k <= order.len(),
            is_stable_order(reports@, order@),
            ranked@ == arranged(reports@, order@.take(k as int)),
        decreases order.len() - k,
    {
        assert(0 <= order@[k as int] < reports@.len());
        let report = &reports[order[k]];
        ranked.push(ChoreReport { chore: report.chore.clone(), stats: report.stats });
        assert(ranked@ =~= arranged(reports@, order@.take(k + 1)));
        k += 1;
    }
    proof {
        assert(order@.take(k as int) =~= order@);
        assert(are_reports_of(*db, reports@));
        assert(ranked@ == arranged(reports@, order@));
    }
    ranked
}

} // verus!
