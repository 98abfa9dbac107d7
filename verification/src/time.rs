//! Plain-value models of calendar time: a span of calendar and clock units,
//! an instant with its offset from UTC, and a civil date.
//!
//! The calendar itself is not computed here. These types carry exactly the
//! integers that the calendar routines read and produce, so that everything
//! built on top of them can be reasoned about with ordinary arithmetic.

use crate::calendar::{
    current_moment, elapsed_since, moment_text, parsed_instant, parsed_offset, print_moment,
    read_instant, read_offset,
};
use vstd::prelude::*;

verus! {

/// Nanoseconds in one microsecond.
pub const NANOS_PER_MICRO: i128 = 1_000;

/// Nanoseconds in one millisecond.
pub const NANOS_PER_MILLI: i128 = 1_000_000;

/// Nanoseconds in one second.
pub const NANOS_PER_SECOND: i128 = 1_000_000_000;

/// Nanoseconds in one minute.
pub const NANOS_PER_MINUTE: i128 = 60_000_000_000;

/// Nanoseconds in one hour.
pub const NANOS_PER_HOUR: i128 = 3_600_000_000_000;

/// Nanoseconds in one day of exactly twenty-four hours.
pub const NANOS_PER_DAY: i128 = 86_400_000_000_000;

/// Largest magnitude of the `years` unit of an [`Interval`].
pub const MAX_YEARS: i64 = 19_998;

/// Largest magnitude of the `months` unit of an [`Interval`].
pub const MAX_MONTHS: i64 = 239_976;

/// Largest magnitude of the `weeks` unit of an [`Interval`].
pub const MAX_WEEKS: i64 = 1_043_497;

/// Largest magnitude of the `days` unit of an [`Interval`].
pub const MAX_DAYS: i64 = 7_304_484;

/// Largest magnitude of the `hours` unit of an [`Interval`].
pub const MAX_HOURS: i64 = 175_307_616;

/// Largest magnitude of the `minutes` unit of an [`Interval`].
pub const MAX_MINUTES: i64 = 10_518_456_960;

/// Largest magnitude of the `seconds` unit of an [`Interval`].
pub const MAX_SECONDS: i64 = 631_107_417_600;

/// Largest magnitude of the `milliseconds` unit of an [`Interval`].
pub const MAX_MILLISECONDS: i64 = 631_107_417_600_000;

/// Largest magnitude of the `microseconds` unit of an [`Interval`].
pub const MAX_MICROSECONDS: i64 = 631_107_417_600_000_000;

/// Largest magnitude of the `nanoseconds` unit of an [`Interval`].
pub const MAX_NANOSECONDS: i64 = 9_223_372_036_854_775_807;

/// Earliest instant, in nanoseconds since the Unix epoch.
pub const MIN_INSTANT: i128 = -377_705_023_201_000_000_000;

/// Latest instant, in nanoseconds since the Unix epoch.
pub const MAX_INSTANT: i128 = 253_402_207_200_999_999_999;

/// Largest magnitude of an offset from UTC, in seconds (25:59:59).
pub const MAX_OFFSET_SECONDS: i32 = 93_599;

/// A calendar-aware span of time: a number of each unit from years down to
/// nanoseconds. Months and years have no fixed length, so a span with
/// calendar units only becomes a length of time once it is added to an
/// instant.
///
/// All units of a well-formed interval share one sign.
#[derive(Clone, Copy, Debug, PartialEq, Eq, Structural)]
pub struct Interval {
    pub years: i64,
    pub months: i64,
    pub weeks: i64,
    pub days: i64,
    pub hours: i64,
    pub minutes: i64,
    pub seconds: i64,
    pub milliseconds: i64,
    pub microseconds: i64,
    pub nanoseconds: i64,
}

impl Interval {
    /// Every unit lies within the calendar's limit for it.
    pub open spec fn in_range(self) -> bool {
        &&& -MAX_YEARS <= self.years <= MAX_YEARS
        &&& -MAX_MONTHS <= self.months <= MAX_MONTHS
        &&& -MAX_WEEKS <= self.weeks <= MAX_WEEKS
        &&& -MAX_DAYS <= self.days <= MAX_DAYS
        &&& -MAX_HOURS <= self.hours <= MAX_HOURS
        &&& -MAX_MINUTES <= self.minutes <= MAX_MINUTES
        &&& -MAX_SECONDS <= self.seconds <= MAX_SECONDS
        &&& -MAX_MILLISECONDS <= self.milliseconds <= MAX_MILLISECONDS
        &&& -MAX_MICROSECONDS <= self.microseconds <= MAX_MICROSECONDS
        &&& -MAX_NANOSECONDS <= self.nanoseconds <= MAX_NANOSECONDS
    }

    /// No unit is negative.
    pub open spec fn non_negative(self) -> bool {
        &&& self.years >= 0
        &&& self.months >= 0
        &&& self.weeks >= 0
        &&& self.days >= 0
        &&& self.hours >= 0
        &&& self.minutes >= 0
        &&& self.seconds >= 0
        &&& self.milliseconds >= 0
        &&& self.microseconds >= 0
        &&& self.nanoseconds >= 0
    }

    /// No unit is positive.
    pub open spec fn non_positive(self) -> bool {
        &&& self.years <= 0
        &&& self.months <= 0
        &&& self.weeks <= 0
        &&& self.days <= 0
        &&& self.hours <= 0
        &&& self.minutes <= 0
        &&& self.seconds <= 0
        &&& self.milliseconds <= 0
        &&& self.microseconds <= 0
        &&& self.nanoseconds <= 0
    }

    /// Well-formedness: every unit is in range and all units share a sign.
    pub open spec fn wf(self) -> bool {
        self.in_range() && (self.non_negative() || self.non_positive())
    }

    /// The years, months, weeks and days are all zero, so the interval is a
    /// fixed length of time.
    pub open spec fn is_clock_only(self) -> bool {
        self.years == 0 && self.months == 0 && self.weeks == 0 && self.days == 0
    }

    /// The milliseconds, microseconds and nanoseconds each stay below the
    /// next unit: together they are a fraction of one second, written in one
    /// way only.
    pub open spec fn has_balanced_fraction(self) -> bool {
        &&& -1000 < self.milliseconds < 1000
        &&& -1000 < self.microseconds < 1000
        &&& -1000 < self.nanoseconds < 1000
    }

    /// The span with every unit of this one negated.
    pub open spec fn negated(self) -> Interval {
        Interval {
            years: (-self.years) as i64,
            months: (-self.months) as i64,
            weeks: (-self.weeks) as i64,
            days: (-self.days) as i64,
            hours: (-self.hours) as i64,
            minutes: (-self.minutes) as i64,
            seconds: (-self.seconds) as i64,
            milliseconds: (-self.milliseconds) as i64,
            microseconds: (-self.microseconds) as i64,
            nanoseconds: (-self.nanoseconds) as i64,
        }
    }

    /// The span of clock units that measures a time that is not negative
    /// with every unit below the next one: as many whole hours as fit, then
    /// minutes, and so on down to nanoseconds.
    pub open spec fn balanced_length(nanoseconds: int) -> Interval {
        let below_hour = nanoseconds % NANOS_PER_HOUR as int;
        let below_minute = below_hour % NANOS_PER_MINUTE as int;
        let below_second = below_minute % NANOS_PER_SECOND as int;
        let below_milli = below_second % NANOS_PER_MILLI as int;
        Interval {
            years: 0,
            months: 0,
            weeks: 0,
            days: 0,
            hours: (nanoseconds / NANOS_PER_HOUR as int) as i64,
            minutes: (below_hour / NANOS_PER_MINUTE as int) as i64,
            seconds: (below_minute / NANOS_PER_SECOND as int) as i64,
            milliseconds: (below_second / NANOS_PER_MILLI as int) as i64,
            microseconds: (below_milli / NANOS_PER_MICRO as int) as i64,
            nanoseconds: (below_milli % NANOS_PER_MICRO as int) as i64,
        }
    }

    /// The span of clock units that measures `nanoseconds` with every unit
    /// below the next one, all units of the sign of `nanoseconds`.
    pub open spec fn balanced(nanoseconds: int) -> Interval {
        if nanoseconds < 0 {
            Interval::balanced_length(-nanoseconds).negated()
        } else {
            Interval::balanced_length(nanoseconds)
        }
    }

    /// The balanced span of a time that lies between two instants is
    /// well-formed, holds clock units only, and measures exactly that time.
    pub proof fn lemma_balanced_measures(nanoseconds: int)
        requires
            MIN_INSTANT - MAX_INSTANT <= nanoseconds <= MAX_INSTANT - MIN_INSTANT,
        ensures
            Interval::balanced(nanoseconds).wf(),
            Interval::balanced(nanoseconds).is_clock_only(),
            Interval::balanced(nanoseconds).has_balanced_fraction(),
            Interval::balanced(nanoseconds).clock_nanoseconds() == nanoseconds,
    {
        let total = if nanoseconds < 0 {
            -nanoseconds
        } else {
            nanoseconds
        };
        let hour = NANOS_PER_HOUR as int;
        let minute = NANOS_PER_MINUTE as int;
        let second = NANOS_PER_SECOND as int;
        let milli = NANOS_PER_MILLI as int;
        let micro = NANOS_PER_MICRO as int;
        let below_hour = total % hour;
        let below_minute = below_hour % minute;
        let below_second = below_minute % second;
        let below_milli = below_second % milli;
        vstd::arithmetic::div_mod::lemma_fundamental_div_mod(total, hour);
        vstd::arithmetic::div_mod::lemma_mod_bound(total, hour);
        vstd::arithmetic::div_mod::lemma_fundamental_div_mod(below_hour, minute);
        vstd::arithmetic::div_mod::lemma_mod_bound(below_hour, minute);
        vstd::arithmetic::div_mod::lemma_fundamental_div_mod(below_minute, second);
        vstd::arithmetic::div_mod::lemma_mod_bound(below_minute, second);
        vstd::arithmetic::div_mod::lemma_fundamental_div_mod(below_second, milli);
        vstd::arithmetic::div_mod::lemma_mod_bound(below_second, milli);
        vstd::arithmetic::div_mod::lemma_fundamental_div_mod(below_milli, micro);
        vstd::arithmetic::div_mod::lemma_mod_bound(below_milli, micro);
        let hours = total / hour;
        let minutes = below_hour / minute;
        let seconds = below_minute / second;
        let millis = below_second / milli;
        let micros = below_milli / micro;
        let nanos = below_milli % micro;
        assert(0 <= hours <= MAX_HOURS) by (nonlinear_arith)
            requires
                0 <= total <= 631_107_230_401_999_999_999,
                hour == 3_600_000_000_000,
                total == hour * hours + below_hour,
                0 <= below_hour < hour,
        ;
        assert(0 <= minutes < 60) by (nonlinear_arith)
            requires
                0 <= below_hour < 3_600_000_000_000,
                minute == 60_000_000_000,
                below_hour == minute * minutes + below_minute,
                0 <= below_minute < minute,
        ;
        assert(0 <= seconds < 60) by (nonlinear_arith)
            requires
                0 <= below_minute < 60_000_000_000,
                second == 1_000_000_000,
                below_minute == second * seconds + below_second,
                0 <= below_second < second,
        ;
        assert(0 <= millis < 1000) by (nonlinear_arith)
            requires
                0 <= below_second < 1_000_000_000,
                milli == 1_000_000,
                below_second == milli * millis + below_milli,
                0 <= below_milli < milli,
        ;
        assert(0 <= micros < 1000) by (nonlinear_arith)
            requires
                0 <= below_milli < 1_000_000,
                micro == 1_000,
                below_milli == micro * micros + nanos,
                0 <= nanos < micro,
        ;
        let length = Interval::balanced_length(total);
        assert(length.hours == hours);
        assert(length.minutes == minutes);
        assert(length.seconds == seconds);
        assert(length.milliseconds == millis);
        assert(length.microseconds == micros);
        assert(length.nanoseconds == nanos);
        assert(length.clock_nanoseconds() == total);
    }

    /// The length of the clock units (hours and smaller), in nanoseconds.
    pub open spec fn clock_nanoseconds(self) -> int {
        self.hours * NANOS_PER_HOUR + self.minutes * NANOS_PER_MINUTE + self.seconds
            * NANOS_PER_SECOND + self.milliseconds * NANOS_PER_MILLI + self.microseconds
            * NANOS_PER_MICRO + self.nanoseconds
    }

    /// Whether the interval is shorter than one day, whatever date it is
    /// counted from. An interval with a positive calendar unit spans at least
    /// a day; one with a negative calendar unit is negative altogether; and
    /// one of clock units only is compared with twenty-four hours.
    pub open spec fn is_under_one_day(self) -> bool {
        &&& self.years <= 0 && self.months <= 0 && self.weeks <= 0 && self.days <= 0
        &&& !self.is_clock_only() || self.clock_nanoseconds() < NANOS_PER_DAY
    }

    /// The interval of no time at all.
    pub open spec fn spec_zero() -> Interval {
        Interval {
            years: 0,
            months: 0,
            weeks: 0,
            days: 0,
            hours: 0,
            minutes: 0,
            seconds: 0,
            milliseconds: 0,
            microseconds: 0,
            nanoseconds: 0,
        }
    }

    /// The interval of no time at all.
    #[verifier::when_used_as_spec(spec_zero)]
    pub fn zero() -> (interval: Interval)
        ensures
            interval.wf(),
            interval.is_clock_only(),
            interval.clock_nanoseconds() == 0,
            interval == Interval::spec_zero(),
    {
        Interval {
            years: 0,
            months: 0,
            weeks: 0,
            days: 0,
            hours: 0,
            minutes: 0,
            seconds: 0,
            milliseconds: 0,
            microseconds: 0,
            nanoseconds: 0,
        }
    }

    /// Decides well-formedness at run time.
    pub fn is_valid(&self) -> (valid: bool)
        ensures
            valid == self.wf(),
    {
        let in_range = -MAX_YEARS <= self.years && self.years <= MAX_YEARS && -MAX_MONTHS
            <= self.months && self.months <= MAX_MONTHS && -MAX_WEEKS <= self.weeks && self.weeks
            <= MAX_WEEKS && -MAX_DAYS <= self.days && self.days <= MAX_DAYS && -MAX_HOURS
            <= self.hours && self.hours <= MAX_HOURS && -MAX_MINUTES <= self.minutes
            && self.minutes <= MAX_MINUTES && -MAX_SECONDS <= self.seconds && self.seconds
            <= MAX_SECONDS && -MAX_MILLISECONDS <= self.milliseconds && self.milliseconds
            <= MAX_MILLISECONDS && -MAX_MICROSECONDS <= self.microseconds && self.microseconds
            <= MAX_MICROSECONDS && -MAX_NANOSECONDS <= self.nanoseconds && self.nanoseconds
            <= MAX_NANOSECONDS;
        let non_negative = self.years >= 0 && self.months >= 0 && self.weeks >= 0 && self.days
            >= 0 && self.hours >= 0 && self.minutes >= 0 && self.seconds >= 0
            && self.milliseconds >= 0 && self.microseconds >= 0 && self.nanoseconds >= 0;
        let non_positive = self.years <= 0 && self.months <= 0 && self.weeks <= 0 && self.days
            <= 0 && self.hours <= 0 && self.minutes <= 0 && self.seconds <= 0
            && self.milliseconds <= 0 && self.microseconds <= 0 && self.nanoseconds <= 0;
        in_range && (non_negative || non_positive)
    }

    /// The length of the clock units, in nanoseconds.
    pub fn total_clock_nanoseconds(&self) -> (total: i128)
        requires
            self.in_range(),
        ensures
            total == self.clock_nanoseconds(),
    {
        let hours: i128 = self.hours as i128 * NANOS_PER_HOUR;
        let minutes: i128 = self.minutes as i128 * NANOS_PER_MINUTE;
        let seconds: i128 = self.seconds as i128 * NANOS_PER_SECOND;
        let millis: i128 = self.milliseconds as i128 * NANOS_PER_MILLI;
        let micros: i128 = self.microseconds as i128 * NANOS_PER_MICRO;
        hours + minutes + seconds + millis + micros + self.nanoseconds as i128
    }

    /// Whether the interval is shorter than one day.
    pub fn is_daily(&self) -> (daily: bool)
        requires
            self.in_range(),
        ensures
            daily == self.is_under_one_day(),
    {
        if self.years > 0 || self.months > 0 || self.weeks > 0 || self.days > 0 {
            false
        } else if self.years < 0 || self.months < 0 || self.weeks < 0 || self.days < 0 {
            true
        } else {
            self.total_clock_nanoseconds() < NANOS_PER_DAY
        }
    }
}

/// An instant on the time line together with the offset from UTC that was in
/// force where and when it was observed.
///
/// A moment keeps the offset, not the rules of a time zone. A span with
/// calendar units is therefore added at that one offset: one day after 08:00
/// on the day before the clocks change is twenty-four hours later, not 08:00
/// by the changed clock. In return the sum never depends on the time zone
/// data of the machine.
#[derive(Clone, Copy, Debug, PartialEq, Eq, Structural)]
pub struct Moment {
    /// Nanoseconds since the Unix epoch.
    pub nanosecond: i128,
    /// Seconds east of UTC.
    pub offset_seconds: i32,
}

impl Moment {
    /// Well-formedness: the instant and the offset lie within the calendar's
    /// limits.
    pub open spec fn wf(self) -> bool {
        &&& MIN_INSTANT <= self.nanosecond <= MAX_INSTANT
        &&& -MAX_OFFSET_SECONDS <= self.offset_seconds <= MAX_OFFSET_SECONDS
    }

    /// The offset is a whole number of minutes.
    pub open spec fn has_minute_offset(self) -> bool {
        self.offset_seconds % 60 == 0
    }

    /// Decides well-formedness at run time.
    pub fn is_valid(&self) -> (valid: bool)
        ensures
            valid == self.wf(),
    {
        MIN_INSTANT <= self.nanosecond && self.nanosecond <= MAX_INSTANT && -MAX_OFFSET_SECONDS
            <= self.offset_seconds && self.offset_seconds <= MAX_OFFSET_SECONDS
    }

    /// The moment that a text stands for: the instant read from it at the
    /// offset written in it, or `None` where the text gives no instant or no
    /// offset. A time zone named in the text plays no part.
    pub open spec fn parsed(text: Seq<char>) -> Option<Moment> {
        match (parsed_instant(text), parsed_offset(text)) {
            (Some(nanosecond), Some(Some(offset_seconds))) => Some(
                Moment { nanosecond, offset_seconds },
            ),
            _ => None,
        }
    }

    /// Reads a moment from a text such as `2024-06-10T14:00:00+02:00`.
    pub fn parse(text: &str) -> (outcome: Option<Moment>)
        ensures
            outcome == Moment::parsed(text@),
            outcome matches Some(moment) ==> moment.wf(),
    {
        let nanosecond = match read_instant(text) {
            Ok(nanosecond) => nanosecond,
            Err(_) => {
                return None;
            },
        };
        match read_offset(text) {
            Ok(Some(offset_seconds)) => Some(Moment { nanosecond, offset_seconds }),
            _ => None,
        }
    }

    /// Writes the moment as a text: the civil date and time at its offset,
    /// then the offset in hours and minutes.
    ///
    /// A moment whose offset is a whole number of minutes is read back from
    /// its text unchanged.
    pub fn to_text(&self) -> (text: String)
        requires
            self.wf(),
        ensures
            text@ == moment_text(*self),
            self.has_minute_offset() ==> Moment::parsed(text@) == Some(*self),
    {
        print_moment(self)
    }

    /// The current time with the offset in force in the system's time zone,
    /// or `None` where the clock of the machine stands outside the calendar.
    pub fn now() -> (outcome: Option<Moment>)
        ensures
            outcome matches Some(moment) ==> moment.wf(),
    {
        match current_moment() {
            Ok(moment) => Some(moment),
            Err(_) => None,
        }
    }

    /// The time elapsed from `earlier` to this instant, as the balanced span
    /// of clock units. Negative where `earlier` is the later of the two.
    pub fn since(&self, earlier: &Moment) -> (elapsed: Interval)
        requires
            self.wf(),
            earlier.wf(),
        ensures
            elapsed == Interval::balanced(self.nanosecond - earlier.nanosecond),
            elapsed.wf(),
            elapsed.is_clock_only(),
            elapsed.clock_nanoseconds() == self.nanosecond - earlier.nanosecond,
    {
        proof {
            Interval::lemma_balanced_measures(self.nanosecond - earlier.nanosecond);
        }
        elapsed_since(self, earlier)
    }

    /// Whether this instant comes strictly before `other`. Offsets play no
    /// part in the order of instants.
    pub fn is_before(&self, other: &Moment) -> (before: bool)
        ensures
            before == (self.nanosecond < other.nanosecond),
    {
        self.nanosecond < other.nanosecond
    }
}

/// A date on the proleptic Gregorian calendar.
#[derive(Clone, Copy, Debug, PartialEq, Eq, Structural)]
pub struct CivilDate {
    pub year: i16,
    pub month: i8,
    pub day: i8,
}

} // verus!
