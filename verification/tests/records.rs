use chordle::db::types::{Chore, ChoreId, DbChore, DbEvent, Event, ParseError};
use chordle::time::{Interval, Moment};
use jiff::Timestamp;

fn noon() -> i128 {
    let instant: Timestamp = "2024-06-10T12:00:00Z".parse().unwrap();
    instant.as_nanosecond()
}

#[test]
fn chore_id_wraps_the_stored_id() {
    let id = ChoreId::from(12);
    assert_eq!(id.0, 12);
    assert_eq!(id.into(), 12);
    assert_eq!(id, ChoreId(12));
}

#[test]
fn chore_is_written_with_its_interval_as_text() {
    let chore = Chore {
        id: ChoreId::from(3),
        name: "Laundry".to_string(),
        interval: Interval { weeks: 1, ..Interval::zero() },
    };
    let row = DbChore::from(chore);
    assert_eq!(row.id, 3);
    assert_eq!(row.name, "Laundry");
    assert_eq!(row.interval, "P1W");
}

#[test]
fn interval_text_names_every_unit() {
    let chore = Chore {
        id: ChoreId::from(1),
        name: "Everything".to_string(),
        interval: Interval {
            years: 1,
            months: 2,
            weeks: 3,
            days: 4,
            hours: 5,
            minutes: 6,
            seconds: 7,
            milliseconds: 0,
            microseconds: 0,
            nanoseconds: 0,
        },
    };
    assert_eq!(DbChore::from(chore).interval, "P1Y2M3W4DT5H6M7S");
}

#[test]
fn negative_interval_is_written_with_a_sign() {
    let chore = Chore {
        id: ChoreId::from(1),
        name: "Backwards".to_string(),
        interval: Interval { days: -5, hours: -10, ..Interval::zero() },
    };
    assert_eq!(DbChore::from(chore).interval, "-P5DT10H");
}

#[test]
fn chore_round_trips_through_its_row() {
    let chore = Chore {
        id: ChoreId::from(8),
        name: "Descale the kettle".to_string(),
        interval: Interval { months: 2, days: 10, hours: 2, minutes: 30, ..Interval::zero() },
    };
    let read = Chore::try_from(DbChore::from(chore.clone())).expect("the row reads back");
    assert_eq!(read.id, chore.id);
    assert_eq!(read.name, chore.name);
    assert_eq!(read.interval, chore.interval);
}

#[test]
fn zero_interval_round_trips() {
    let chore = Chore { id: ChoreId::from(8), name: "Always".to_string(), interval: Interval::zero() };
    let row = DbChore::from(chore);
    assert_eq!(row.interval, "PT0S");
    assert_eq!(Chore::try_from(row).unwrap().interval, Interval::zero());
}

#[test]
fn sub_second_units_come_back_spread_differently() {
    let chore = Chore {
        id: ChoreId::from(8),
        name: "Blink".to_string(),
        interval: Interval { milliseconds: 1500, ..Interval::zero() },
    };
    let row = DbChore::from(chore);
    assert_eq!(row.interval, "PT1.5S");
    let read = Chore::try_from(row).unwrap();
    assert_eq!(read.interval, Interval { seconds: 1, milliseconds: 500, ..Interval::zero() });
}

#[test]
fn chore_is_read_from_friendly_interval_text() {
    let row = DbChore { id: 4, name: "Bins".to_string(), interval: "2 weeks 3 days".to_string() };
    let chore = Chore::try_from(row).unwrap();
    assert_eq!(chore.id, ChoreId::from(4));
    assert_eq!(chore.name, "Bins");
    assert_eq!(chore.interval, Interval { weeks: 2, days: 3, ..Interval::zero() });
}

#[test]
fn chore_with_unreadable_interval_is_a_parse_error() {
    let row = DbChore { id: 4, name: "Bins".to_string(), interval: "every so often".to_string() };
    match Chore::try_from(row) {
        Err(error) => assert_eq!(error, ParseError::Interval { chore: 4 }),
        Ok(_) => panic!("the interval is not a span of time"),
    }
}

#[test]
fn event_is_written_with_its_timestamp_as_text() {
    let event = Event {
        chore_id: ChoreId::from(5),
        timestamp: Moment { nanosecond: noon(), offset_seconds: 7200 },
    };
    let row = DbEvent::from(event);
    assert_eq!(row.chore_id, 5);
    assert_eq!(row.timestamp, "2024-06-10T14:00:00+02:00");
}

#[test]
fn event_in_utc_is_written_with_a_zero_offset() {
    let event = Event {
        chore_id: ChoreId::from(5),
        timestamp: Moment { nanosecond: noon() + 123_000_000, offset_seconds: 0 },
    };
    assert_eq!(DbEvent::from(event).timestamp, "2024-06-10T12:00:00.123+00:00");
}

#[test]
fn event_round_trips_through_its_row() {
    for offset_seconds in [0, 7200, -18000, 20700, -93540, 93540] {
        let event = Event {
            chore_id: ChoreId::from(5),
            timestamp: Moment { nanosecond: noon() + 987_654_321, offset_seconds },
        };
        assert_eq!(Event::try_from(DbEvent::from(event)), Ok(event));
    }
}

#[test]
fn earliest_and_latest_instants_round_trip() {
    for nanosecond in [chordle::time::MIN_INSTANT, chordle::time::MAX_INSTANT, 0, -1] {
        let event = Event {
            chore_id: ChoreId::from(1),
            timestamp: Moment { nanosecond, offset_seconds: 3600 },
        };
        assert!(event.timestamp.is_valid());
        assert_eq!(Event::try_from(DbEvent::from(event)), Ok(event));
    }
}

#[test]
fn offset_with_seconds_does_not_round_trip() {
    let event = Event {
        chore_id: ChoreId::from(5),
        timestamp: Moment { nanosecond: noon(), offset_seconds: 30 },
    };
    let read = Event::try_from(DbEvent::from(event));
    assert_ne!(read, Ok(event));
}

#[test]
fn event_with_unreadable_timestamp_is_a_parse_error() {
    let row = DbEvent { chore_id: 9, timestamp: "the other day".to_string() };
    assert_eq!(Event::try_from(row), Err(ParseError::Timestamp { chore: 9 }));
}

#[test]
fn event_without_an_offset_is_a_parse_error() {
    let row = DbEvent { chore_id: 9, timestamp: "2024-06-10T12:00:00".to_string() };
    assert_eq!(Event::try_from(row), Err(ParseError::Timestamp { chore: 9 }));
    let row = DbEvent { chore_id: 9, timestamp: "2024-06-10T12:00:00[Europe/Paris]".to_string() };
    assert_eq!(Event::try_from(row), Err(ParseError::Timestamp { chore: 9 }));
    let row = DbEvent { chore_id: 9, timestamp: "2024-06-10".to_string() };
    assert_eq!(Event::try_from(row), Err(ParseError::Timestamp { chore: 9 }));
}

#[test]
fn event_is_read_at_the_offset_written_in_its_text() {
    let read = |text: &str| {
        Event::try_from(DbEvent { chore_id: 9, timestamp: text.to_string() }).map(|e| e.timestamp)
    };
    let utc = Moment { nanosecond: noon(), offset_seconds: 0 };
    assert_eq!(read("2024-06-10T12:00:00Z"), Ok(utc));
    assert_eq!(read("2024-06-10T12:00:00+00:00"), Ok(utc));
    assert_eq!(read("2024-06-10T12:00:00+00:00[UTC]"), Ok(utc));
    let east = Moment { nanosecond: noon(), offset_seconds: 7200 };
    assert_eq!(read("2024-06-10T14:00:00+02:00"), Ok(east));
    assert_eq!(read("2024-06-10 14:00+02"), Ok(east));
    assert_eq!(read("2024-06-10T14:00:00+02:00[+02:00]"), Ok(east));
    // A named time zone is passed over; no zone data is looked up.
    assert_eq!(read("2024-06-10T14:00:00+02:00[Europe/Paris]"), Ok(east));
    assert_eq!(read("2024-06-10T14:00:00+02:00[Nowhere/At_All]"), Ok(east));
}

#[test]
fn moment_is_written_and_read_as_text() {
    let moment = Moment { nanosecond: noon() + 5, offset_seconds: -34_200 };
    let text = moment.to_text();
    assert_eq!(text, "2024-06-10T02:30:00.000000005-09:30");
    assert_eq!(Moment::parse(&text), Some(moment));
    assert_eq!(Moment::parse("noon"), None);
    assert_eq!(Moment::parse(""), None);
}

#[test]
fn the_clock_gives_a_moment() {
    let now = Moment::now().expect("the clock of this machine is within the calendar");
    assert!(now.is_valid());
    assert!(now.nanosecond > 1_577_836_800_000_000_000);
}

#[test]
fn limits_of_intervals_and_moments_are_decided() {
    assert!(Interval::zero().is_valid());
    assert!(Interval { years: 19_998, ..Interval::zero() }.is_valid());
    assert!(!Interval { years: 19_999, ..Interval::zero() }.is_valid());
    assert!(Interval { nanoseconds: -i64::MAX, ..Interval::zero() }.is_valid());
    assert!(!Interval { nanoseconds: i64::MIN, ..Interval::zero() }.is_valid());
    assert!(!Interval { weeks: 1, seconds: -1, ..Interval::zero() }.is_valid());
    assert!(Interval { weeks: -1, seconds: -1, ..Interval::zero() }.is_valid());
    assert!(Moment { nanosecond: 0, offset_seconds: 93_599 }.is_valid());
    assert!(!Moment { nanosecond: 0, offset_seconds: 93_600 }.is_valid());
    assert!(!Moment { nanosecond: chordle::time::MAX_INSTANT + 1, offset_seconds: 0 }.is_valid());
    assert!(!Moment { nanosecond: chordle::time::MIN_INSTANT - 1, offset_seconds: 0 }.is_valid());
}

#[test]
fn clock_units_add_up_in_nanoseconds() {
    let interval = Interval {
        hours: 1,
        minutes: 2,
        seconds: 3,
        milliseconds: 4,
        microseconds: 5,
        nanoseconds: 6,
        ..Interval::zero()
    };
    assert_eq!(interval.total_clock_nanoseconds(), 3_723_004_005_006);
    let negative = Interval { hours: -2, nanoseconds: -1, ..Interval::zero() };
    assert_eq!(negative.total_clock_nanoseconds(), -7_200_000_000_001);
}

fn round_trip(interval: Interval) -> Interval {
    let chore = Chore { id: ChoreId::from(1), name: "Any".to_string(), interval };
    Chore::try_from(DbChore::from(chore)).expect("the row reads back").interval
}

#[test]
fn intervals_with_a_balanced_fraction_round_trip() {
    let intervals = [
        Interval { seconds: 5, milliseconds: 999, microseconds: 999, nanoseconds: 999, ..Interval::zero() },
        Interval { milliseconds: 500, ..Interval::zero() },
        Interval { microseconds: 1, ..Interval::zero() },
        Interval { nanoseconds: 1, ..Interval::zero() },
        Interval { nanoseconds: -999, ..Interval::zero() },
        Interval { hours: -3, seconds: -7, milliseconds: -20, ..Interval::zero() },
        Interval { years: 1, months: 2, weeks: 3, days: 4, hours: 5, minutes: 6, seconds: 7, milliseconds: 8, microseconds: 9, nanoseconds: 10 },
        Interval { minutes: 59, microseconds: 250, ..Interval::zero() },
    ];
    for interval in intervals {
        assert!(interval.is_valid());
        assert_eq!(round_trip(interval), interval);
    }
}

#[test]
fn intervals_at_the_limits_round_trip() {
    let largest = Interval {
        years: 19_998,
        months: 239_976,
        weeks: 1_043_497,
        days: 7_304_484,
        hours: 175_307_616,
        minutes: 10_518_456_960,
        seconds: 631_107_417_600,
        milliseconds: 999,
        microseconds: 999,
        nanoseconds: 999,
    };
    assert!(largest.is_valid());
    assert_eq!(round_trip(largest), largest);
    let smallest = Interval {
        years: -19_998,
        months: -239_976,
        weeks: -1_043_497,
        days: -7_304_484,
        hours: -175_307_616,
        minutes: -10_518_456_960,
        seconds: -631_107_417_600,
        milliseconds: 0,
        microseconds: 0,
        nanoseconds: 0,
    };
    assert!(smallest.is_valid());
    assert_eq!(round_trip(smallest), smallest);
    for one_unit in [
        Interval { years: 19_998, ..Interval::zero() },
        Interval { months: -239_976, ..Interval::zero() },
        Interval { weeks: 1_043_497, ..Interval::zero() },
        Interval { days: -7_304_484, ..Interval::zero() },
        Interval { hours: 175_307_616, ..Interval::zero() },
        Interval { minutes: -10_518_456_960, ..Interval::zero() },
        Interval { seconds: 631_107_417_600, ..Interval::zero() },
    ] {
        assert_eq!(round_trip(one_unit), one_unit);
    }
}

#[test]
fn time_between_two_instants_is_a_balanced_span() {
    let earlier = Moment { nanosecond: noon(), offset_seconds: 7200 };
    let later = Moment { nanosecond: noon() + 3_723_004_005_006, offset_seconds: -3600 };
    let forward = Interval {
        hours: 1,
        minutes: 2,
        seconds: 3,
        milliseconds: 4,
        microseconds: 5,
        nanoseconds: 6,
        ..Interval::zero()
    };
    let backward = Interval {
        hours: -1,
        minutes: -2,
        seconds: -3,
        milliseconds: -4,
        microseconds: -5,
        nanoseconds: -6,
        ..Interval::zero()
    };
    assert_eq!(later.since(&earlier), forward);
    assert_eq!(earlier.since(&later), backward);
    assert_eq!(earlier.since(&earlier), Interval::zero());
}

#[test]
fn time_between_the_earliest_and_the_latest_instant_is_in_hours() {
    let earliest = Moment { nanosecond: chordle::time::MIN_INSTANT, offset_seconds: 0 };
    let latest = Moment { nanosecond: chordle::time::MAX_INSTANT, offset_seconds: 0 };
    let span = latest.since(&earliest);
    assert!(span.is_valid());
    assert_eq!(
        span,
        Interval {
            hours: 175_307_564,
            minutes: 0,
            seconds: 1,
            milliseconds: 999,
            microseconds: 999,
            nanoseconds: 999,
            ..Interval::zero()
        }
    );
    assert_eq!(
        span.total_clock_nanoseconds(),
        chordle::time::MAX_INSTANT - chordle::time::MIN_INSTANT
    );
    assert_eq!(earliest.since(&latest).total_clock_nanoseconds(), -span.total_clock_nanoseconds());
}
