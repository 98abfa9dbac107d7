//! The calendar: every call into the `jiff` crate that the library makes.
//!
//! Nothing in this file is proved. Each function hands plain values to
//! `jiff` and turns what comes back into plain values again; its contract
//! says what the rest of the library takes on trust about that call.

use crate::time::{
    CivilDate, Interval, Moment, MAX_INSTANT, MAX_OFFSET_SECONDS, MIN_INSTANT,
};
use jiff::fmt::temporal::Pieces;
use jiff::tz::{Offset, TimeZone};
use jiff::{Span, Timestamp, Zoned};
use vstd::prelude::*;

verus! {

/// The error that `jiff` reports when a text cannot be read.
#[verifier::external_type_specification]
#[verifier::external_body]
pub struct ExCalendarError(jiff::Error);

/// The text that `jiff` prints for a span (`Display` of `jiff::Span`, the
/// ISO 8601 duration form).
pub uninterp spec fn interval_text(interval: Interval) -> Seq<char>;

/// The span that `jiff` reads from a text (`FromStr` of `jiff::Span`), or
/// `None` where it rejects the text.
pub uninterp spec fn parsed_interval(text: Seq<char>) -> Option<Interval>;

/// The text that `jiff` prints for an instant at an offset
/// (`Timestamp::display_with_offset`, the RFC 3339 form: the civil date and
/// time at the offset, then the offset in hours and minutes).
pub uninterp spec fn moment_text(moment: Moment) -> Seq<char>;

/// The instant that `jiff` reads from a text, in nanoseconds since the Unix
/// epoch (`FromStr` of `jiff::Timestamp`), or `None` where it rejects the
/// text.
pub uninterp spec fn parsed_instant(text: Seq<char>) -> Option<i128>;

/// The offset from UTC that `jiff` finds written in a text, in seconds
/// (`Pieces::parse`, then `Pieces::to_numeric_offset`): `None` where it
/// rejects the text, `Some(None)` where the text gives no offset.
pub uninterp spec fn parsed_offset(text: Seq<char>) -> Option<Option<i32>>;

/// The instant that `jiff` reaches by adding a span to a zoned instant in a
/// fixed-offset time zone (`Zoned::saturating_add`).
pub uninterp spec fn moment_after(moment: Moment, interval: Interval) -> Moment;

/// The civil date that `jiff` gives for a zoned instant in a fixed-offset
/// time zone (`Zoned::date`).
pub uninterp spec fn civil_date_of(moment: Moment) -> CivilDate;

/// Calls `Display` of `jiff::Span`.
///
/// Trusted: the text is a function of the span's units alone. `jiff` prints
/// one whole number per non-zero unit from years to seconds, and the
/// sub-second units as the fraction of the seconds; reading that text gives
/// the same units back where the sub-second units each stay below the next
/// unit, since the fraction is read back in that form.
#[verifier::external_body]
pub(crate) fn print_interval(interval: &Interval) -> (text: String)
    requires
        interval.wf(),
    ensures
        text@ == interval_text(*interval),
        interval.has_balanced_fraction() ==> parsed_interval(text@) == Some(*interval),
{
    let i = interval;
    let span = Span::new().years(i.years).months(i.months).weeks(i.weeks).days(i.days)
        .hours(i.hours).minutes(i.minutes).seconds(i.seconds).milliseconds(i.milliseconds)
        .microseconds(i.microseconds).nanoseconds(i.nanoseconds);
    span.to_string()
}

/// Calls `FromStr` of `jiff::Span`.
///
/// Trusted: whether the text is accepted and the span read from it are
/// functions of the text alone, and every span that `jiff` returns has its
/// units within `jiff`'s limits and of one sign.
#[verifier::external_body]
pub(crate) fn read_interval(text: &str) -> (outcome: Result<Interval, jiff::Error>)
    ensures
        match outcome {
            Ok(interval) => interval.wf() && parsed_interval(text@) == Some(interval),
            Err(_) => parsed_interval(text@) is None,
        },
{
    let s: Span = text.parse()?;
    Ok(Interval {
        years: s.get_years() as i64,
        months: s.get_months() as i64,
        weeks: s.get_weeks() as i64,
        days: s.get_days() as i64,
        hours: s.get_hours() as i64,
        minutes: s.get_minutes(),
        seconds: s.get_seconds(),
        milliseconds: s.get_milliseconds(),
        microseconds: s.get_microseconds(),
        nanoseconds: s.get_nanoseconds(),
    })
}

/// Calls `Timestamp::display_with_offset`.
///
/// Trusted: the text is a function of the instant and the offset alone. It
/// gives the civil date and time at the offset to the nanosecond, and the
/// offset rounded to the minute; so where the offset is a whole number of
/// minutes, `jiff` reads the same instant and the same offset back from it.
#[verifier::external_body]
pub(crate) fn print_moment(moment: &Moment) -> (text: String)
    requires
        moment.wf(),
    ensures
        text@ == moment_text(*moment),
        moment.has_minute_offset() ==> parsed_instant(text@) == Some(moment.nanosecond)
            && parsed_offset(text@) == Some(Some(moment.offset_seconds)),
{
    let instant = Timestamp::from_nanosecond(moment.nanosecond).unwrap();
    let offset = Offset::from_seconds(moment.offset_seconds).unwrap();
    instant.display_with_offset(offset).to_string()
}

/// Calls `FromStr` of `jiff::Timestamp`.
///
/// Trusted: whether the text is accepted and the instant read from it are
/// functions of the text alone (a time zone named in the text is passed
/// over, the offset written in it is used), and an instant that `jiff`
/// returns lies within its limits.
#[verifier::external_body]
pub(crate) fn read_instant(text: &str) -> (outcome: Result<i128, jiff::Error>)
    ensures
        match outcome {
            Ok(nanosecond) => MIN_INSTANT <= nanosecond <= MAX_INSTANT && parsed_instant(text@)
                == Some(nanosecond),
            Err(_) => parsed_instant(text@) is None,
        },
{
    let instant: Timestamp = text.parse()?;
    Ok(instant.as_nanosecond())
}

/// Calls `Pieces::parse` and then `Pieces::to_numeric_offset`.
///
/// Trusted: whether the text is accepted and the offset found in it are
/// functions of the text alone (no time zone is looked up), and an offset
/// that `jiff` returns lies within its limits.
#[verifier::external_body]
pub(crate) fn read_offset(text: &str) -> (outcome: Result<Option<i32>, jiff::Error>)
    ensures
        match outcome {
            Ok(Some(seconds)) => -MAX_OFFSET_SECONDS <= seconds <= MAX_OFFSET_SECONDS
                && parsed_offset(text@) == Some(Some(seconds)),
            Ok(None) => parsed_offset(text@) == Some(None::<i32>),
            Err(_) => parsed_offset(text@) is None,
        },
{
    let pieces = Pieces::parse(text)?;
    Ok(match pieces.to_numeric_offset() {
        Some(offset) => Some(offset.seconds()),
        None => None,
    })
}

/// Calls `Zoned::saturating_add` on the instant in the fixed-offset time
/// zone of its offset.
///
/// Trusted: the sum is a function of the instant, the offset and the span's
/// units alone; it lies within `jiff`'s limits (the sum saturates at them)
/// and stays in the same time zone.
#[verifier::external_body]
pub(crate) fn add_interval(moment: &Moment, interval: &Interval) -> (sum: Moment)
    requires
        moment.wf(),
        interval.wf(),
    ensures
        sum == moment_after(*moment, *interval),
        sum.wf(),
        sum.offset_seconds == moment.offset_seconds,
{
    let i = interval;
    let span = Span::new().years(i.years).months(i.months).weeks(i.weeks).days(i.days)
        .hours(i.hours).minutes(i.minutes).seconds(i.seconds).milliseconds(i.milliseconds)
        .microseconds(i.microseconds).nanoseconds(i.nanoseconds);
    let instant = Timestamp::from_nanosecond(moment.nanosecond).unwrap();
    let zone = TimeZone::fixed(Offset::from_seconds(moment.offset_seconds).unwrap());
    let sum = Zoned::new(instant, zone).saturating_add(span);
    Moment { nanosecond: sum.timestamp().as_nanosecond(), offset_seconds: sum.offset().seconds() }
}

/// Calls `Zoned::since` with its default configuration.
///
/// Trusted: the call never fails with that configuration, and the span it
/// returns is the time elapsed from `earlier` to `later` in balanced form,
/// with hours as its largest unit.
#[verifier::external_body]
pub(crate) fn elapsed_since(later: &Moment, earlier: &Moment) -> (elapsed: Interval)
    requires
        later.wf(),
        earlier.wf(),
    ensures
        elapsed == Interval::balanced(later.nanosecond - earlier.nanosecond),
{
    let a = Timestamp::from_nanosecond(later.nanosecond).unwrap().to_zoned(TimeZone::UTC);
    let b = Timestamp::from_nanosecond(earlier.nanosecond).unwrap().to_zoned(TimeZone::UTC);
    let s = a.since(&b).unwrap();
    Interval {
        years: s.get_years() as i64,
        months: s.get_months() as i64,
        weeks: s.get_weeks() as i64,
        days: s.get_days() as i64,
        hours: s.get_hours() as i64,
        minutes: s.get_minutes(),
        seconds: s.get_seconds(),
        milliseconds: s.get_milliseconds(),
        microseconds: s.get_microseconds(),
        nanoseconds: s.get_nanoseconds(),
    }
}

/// Calls `Zoned::date` on the instant in the fixed-offset time zone of its
/// offset.
///
/// Trusted: the date is a function of the instant and the offset alone.
#[verifier::external_body]
pub(crate) fn date_of(moment: &Moment) -> (date: CivilDate)
    requires
        moment.wf(),
    ensures
        date == civil_date_of(*moment),
{
    let instant = Timestamp::from_nanosecond(moment.nanosecond).unwrap();
    let zone = TimeZone::fixed(Offset::from_seconds(moment.offset_seconds).unwrap());
    let date = Zoned::new(instant, zone).date();
    CivilDate { year: date.year(), month: date.month(), day: date.day() }
}

/// The date that `jiff` reads from a text (`FromStr` of
/// `jiff::civil::Date`), or `None` where it rejects the text.
pub uninterp spec fn parsed_date(text: Seq<char>) -> Option<CivilDate>;

/// Calls `FromStr` of `jiff::civil::Date`.
///
/// Trusted: whether the text is accepted and the date read from it are
/// functions of the text alone.
#[verifier::external_body]
pub(crate) fn read_date(text: &str) -> (outcome: Result<CivilDate, jiff::Error>)
    ensures
        match outcome {
            Ok(date) => parsed_date(text@) == Some(date),
            Err(_) => parsed_date(text@) is None,
        },
{
    let date: jiff::civil::Date = text.parse()?;
    Ok(CivilDate { year: date.year(), month: date.month(), day: date.day() })
}

/// Calls `Date::to_zoned` with the system's time zone: the first instant of
/// the date in that zone, kept as the instant and the offset in force at it.
///
/// Trusted: an instant that `jiff` returns lies within its limits, and so
/// does the offset. The time zone is the machine's, so nothing is said of
/// which instant it is, nor of when the call succeeds.
#[verifier::external_body]
pub(crate) fn start_of_day_here(date: &CivilDate) -> (outcome: Result<Moment, jiff::Error>)
    ensures
        outcome matches Ok(moment) ==> moment.wf(),
{
    let date = jiff::civil::Date::new(date.year, date.month, date.day)?;
    let zoned = date.to_zoned(TimeZone::system())?;
    Ok(Moment {
        nanosecond: zoned.timestamp().as_nanosecond(),
        offset_seconds: zoned.offset().seconds(),
    })
}

/// Calls `SystemTime::now` and `Zoned::try_from` on it: the current time in
/// the system's time zone, kept as the instant and the offset in force at
/// it. Fails where the clock of the machine stands outside `jiff`'s limits.
///
/// Trusted: an instant that `jiff` returns lies within its limits, and so
/// does the offset. Nothing is said of which instant it is, nor of when the
/// call succeeds.
#[verifier::external_body]
pub(crate) fn current_moment() -> (outcome: Result<Moment, jiff::Error>)
    ensures
        outcome matches Ok(now) ==> now.wf(),
{
    let zoned = Zoned::try_from(std::time::SystemTime::now())?;
    Ok(Moment {
        nanosecond: zoned.timestamp().as_nanosecond(),
        offset_seconds: zoned.offset().seconds(),
    })
}

} // verus!
