use chordle::db::types::{Chore, ChoreId, Event};
use chordle::stats::completion_delta::{calculate_completion_delta_days, DayDelta};
use chordle::time::{Interval, Moment, NANOS_PER_DAY};
use jiff::tz::TimeZone;
use jiff::{Span, Timestamp, Zoned};

fn moment_of(zoned: &Zoned) -> Moment {
    Moment {
        nanosecond: zoned.timestamp().as_nanosecond(),
        offset_seconds: zoned.offset().seconds(),
    }
}

fn create_test_data() -> (Chore, Vec<Event>) {
    let interval = Span::new().weeks(1);
    let chore = Chore {
        id: ChoreId::from(1),
        name: "Test Chore".to_string(),
        interval: Interval { weeks: 1, ..Interval::zero() },
    };

    let start_date = Zoned::new(
        Timestamp::new(1735714800, 0).expect("can construct timestamp for Jan 1, 2024 00:00:00"),
        TimeZone::UTC,
    );

    let day_deltas = vec![0, 2, -3, 1, 0];
    let mut last_event_timestamp = start_date.clone();

    let mut events = vec![Event { chore_id: chore.id, timestamp: moment_of(&start_date) }];
    for day_delta in day_deltas.into_iter() {
        let delta_span = Span::new().days(day_delta);
        let interval_span = interval
            .checked_add((delta_span, &last_event_timestamp))
            .expect("can add delta days to interval");

        let timestamp = last_event_timestamp.saturating_add(interval_span);
        last_event_timestamp = timestamp.clone();
        events.push(Event { chore_id: chore.id, timestamp: moment_of(&timestamp) });
    }

    (chore, events)
}

#[test]
fn can_calculate_completion_delta_days() {
    let (chore, events) = create_test_data();
    let delta_days: Vec<i64> = calculate_completion_delta_days(&chore, &events)
        .into_iter()
        .map(|d| d.whole_days() as i64)
        .collect();

    assert_eq!(delta_days, vec![0, 2, -3, 1, 0]);
}

#[test]
fn completion_deltas_are_exact_in_nanoseconds() {
    let (chore, events) = create_test_data();
    let deltas = calculate_completion_delta_days(&chore, &events);
    let expected: Vec<DayDelta> = [0i128, 2, -3, 1, 0]
        .iter()
        .map(|days| DayDelta { nanoseconds: days * NANOS_PER_DAY })
        .collect();
    assert_eq!(deltas, expected);
}

#[test]
fn no_events_give_no_deltas() {
    let (chore, _) = create_test_data();
    assert_eq!(calculate_completion_delta_days(&chore, &Vec::new()), Vec::new());
}

#[test]
fn one_event_gives_no_delta() {
    let (chore, events) = create_test_data();
    let first = vec![events[0]];
    assert_eq!(calculate_completion_delta_days(&chore, &first), Vec::new());
}

#[test]
fn delta_is_measured_from_one_interval_after_the_previous_event() {
    let chore = Chore {
        id: ChoreId::from(7),
        name: "Water plants".to_string(),
        interval: Interval { days: 2, hours: 12, ..Interval::zero() },
    };
    let first = Moment { nanosecond: 1_000_000_000_000_000_000, offset_seconds: 3600 };
    // Two and a half days later plus ninety minutes: ninety minutes late.
    let late = 90 * 60 * 1_000_000_000i128;
    let second = Moment {
        nanosecond: first.nanosecond + 60 * 3_600_000_000_000 + late,
        offset_seconds: 3600,
    };
    let events = vec![
        Event { chore_id: chore.id, timestamp: first },
        Event { chore_id: chore.id, timestamp: second },
    ];
    let deltas = calculate_completion_delta_days(&chore, &events);
    assert_eq!(deltas, vec![DayDelta { nanoseconds: late }]);
    assert_eq!(deltas[0].whole_days(), 0);
    assert!(!deltas[0].is_overdue());
}

#[test]
fn a_month_is_added_on_the_calendar() {
    let chore = Chore {
        id: ChoreId::from(2),
        name: "Pay rent".to_string(),
        interval: Interval { months: 1, ..Interval::zero() },
    };
    let january: Timestamp = "2024-01-31T00:00:00Z".parse().unwrap();
    let march: Timestamp = "2024-03-01T00:00:00Z".parse().unwrap();
    let events = vec![
        Event {
            chore_id: chore.id,
            timestamp: Moment { nanosecond: january.as_nanosecond(), offset_seconds: 0 },
        },
        Event {
            chore_id: chore.id,
            timestamp: Moment { nanosecond: march.as_nanosecond(), offset_seconds: 0 },
        },
    ];
    // One month after the 31st of January 2024 is the 29th of February.
    let deltas = calculate_completion_delta_days(&chore, &events);
    assert_eq!(deltas, vec![DayDelta { nanoseconds: NANOS_PER_DAY }]);
    assert!(deltas[0].is_overdue());
    assert_eq!(deltas[0].whole_days(), 1);
}

#[test]
fn events_centuries_apart_have_their_delta() {
    let chore = Chore {
        id: ChoreId::from(3),
        name: "Repaint".to_string(),
        interval: Interval { days: 1, ..Interval::zero() },
    };
    let early: Timestamp = "1600-01-01T00:00:00Z".parse().unwrap();
    let late: Timestamp = "2000-01-01T00:00:00Z".parse().unwrap();
    let next: Timestamp = "2000-01-02T00:00:00Z".parse().unwrap();
    let at = |t: Timestamp| Moment { nanosecond: t.as_nanosecond(), offset_seconds: 0 };
    let events = vec![
        Event { chore_id: chore.id, timestamp: at(early) },
        Event { chore_id: chore.id, timestamp: at(late) },
        Event { chore_id: chore.id, timestamp: at(next) },
    ];
    let deltas = calculate_completion_delta_days(&chore, &events);
    // Four hundred years have 146097 days; the chore was due after one.
    assert_eq!(
        deltas,
        vec![DayDelta { nanoseconds: 146_096 * NANOS_PER_DAY }, DayDelta { nanoseconds: 0 }]
    );
    assert_eq!(deltas[0].whole_days(), 146_096);
    assert!(deltas[0].is_overdue());
}

#[test]
fn there_is_one_delta_for_every_event_but_the_first() {
    let chore = Chore {
        id: ChoreId::from(3),
        name: "Repaint".to_string(),
        interval: Interval { years: 1, ..Interval::zero() },
    };
    let earliest = Moment { nanosecond: chordle::time::MIN_INSTANT, offset_seconds: 0 };
    let latest = Moment { nanosecond: chordle::time::MAX_INSTANT, offset_seconds: 0 };
    let mut events = Vec::new();
    for count in 0..6 {
        let deltas = calculate_completion_delta_days(&chore, &events);
        assert_eq!(deltas.len(), if count == 0 { 0 } else { count - 1 });
        // Events at the two ends of the calendar, in turn.
        let timestamp = if count % 2 == 0 { earliest } else { latest };
        events.push(Event { chore_id: chore.id, timestamp });
    }
    let deltas = calculate_completion_delta_days(&chore, &events);
    assert_eq!(deltas.len(), 5);
    // From the latest instant the next year is cut off at the latest
    // instant, so the earliest instant falls the whole calendar early.
    assert_eq!(
        deltas[1].nanoseconds,
        chordle::time::MIN_INSTANT - chordle::time::MAX_INSTANT
    );
}

#[test]
fn whole_days_round_toward_zero() {
    let day = NANOS_PER_DAY;
    assert_eq!(DayDelta { nanoseconds: day - 1 }.whole_days(), 0);
    assert_eq!(DayDelta { nanoseconds: -(day - 1) }.whole_days(), 0);
    assert_eq!(DayDelta { nanoseconds: 2 * day + 5 }.whole_days(), 2);
    assert_eq!(DayDelta { nanoseconds: -2 * day - 5 }.whole_days(), -2);
    assert_eq!(DayDelta { nanoseconds: i128::MIN }.whole_days(), i128::MIN / day);
    assert_eq!(DayDelta { nanoseconds: i128::MAX }.whole_days(), i128::MAX / day);
}

#[test]
fn overdue_starts_at_one_whole_day() {
    let day = NANOS_PER_DAY;
    assert!(!DayDelta { nanoseconds: day - 1 }.is_overdue());
    assert!(DayDelta { nanoseconds: day }.is_overdue());
    assert!(!DayDelta { nanoseconds: -day }.is_overdue());
}
