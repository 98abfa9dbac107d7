use chordle::db::types::{
    chores_from_rows, events_from_rows, Chore, ChoreId, DbChore, DbEvent, Event, ParseError,
};
use chordle::db::Db;
use chordle::time::{Interval, Moment};

fn at(second: i64) -> Moment {
    Moment { nanosecond: second as i128 * 1_000_000_000, offset_seconds: 3600 }
}

fn event(chore: i64, second: i64) -> Event {
    Event { chore_id: ChoreId::from(chore), timestamp: at(second) }
}

fn chore(id: i64, name: &str, days: i64) -> Chore {
    Chore {
        id: ChoreId::from(id),
        name: name.to_string(),
        interval: Interval { days, ..Interval::zero() },
    }
}

fn chore_row(id: i64, name: &str, interval: &str) -> DbChore {
    DbChore { id, name: name.to_string(), interval: interval.to_string() }
}

fn event_row(chore_id: i64, timestamp: &str) -> DbEvent {
    DbEvent { chore_id, timestamp: timestamp.to_string() }
}

#[test]
fn chores_are_read_from_their_rows_in_order() {
    let rows = vec![chore_row(2, "Laundry", "P1W"), chore_row(5, "Dishes", "1 day")];
    let chores = chores_from_rows(rows).unwrap();
    assert_eq!(chores.len(), 2);
    assert_eq!(chores[0].id, ChoreId::from(2));
    assert_eq!(chores[0].name, "Laundry");
    assert_eq!(chores[0].interval, Interval { weeks: 1, ..Interval::zero() });
    assert_eq!(chores[1].id, ChoreId::from(5));
    assert_eq!(chores[1].interval, Interval { days: 1, ..Interval::zero() });
}

#[test]
fn one_unreadable_chore_fails_the_whole_table() {
    let rows = vec![
        chore_row(1, "Laundry", "P1W"),
        chore_row(2, "Dishes", "daily"),
        chore_row(3, "Bins", "P2W"),
        chore_row(4, "Windows", "yearly"),
    ];
    match chores_from_rows(rows) {
        Err(error) => assert_eq!(error, ParseError::Interval { chore: 2 }),
        Ok(_) => panic!("the second row is not readable"),
    }
}

#[test]
fn an_empty_table_has_no_chores_and_no_events() {
    assert!(chores_from_rows(Vec::new()).unwrap().is_empty());
    assert_eq!(events_from_rows(Vec::new()), Ok(Vec::new()));
}

#[test]
fn events_are_read_from_their_rows_in_order() {
    let rows = vec![
        event_row(1, "2024-06-10T14:00:00+02:00[+02:00]"),
        event_row(2, "1970-01-01T00:00:01+00:00[UTC]"),
    ];
    let events = events_from_rows(rows).unwrap();
    assert_eq!(
        events,
        vec![
            Event {
                chore_id: ChoreId::from(1),
                timestamp: Moment {
                    nanosecond: 1_718_020_800_000_000_000,
                    offset_seconds: 7200
                },
            },
            Event {
                chore_id: ChoreId::from(2),
                timestamp: Moment { nanosecond: 1_000_000_000, offset_seconds: 0 },
            },
        ]
    );
}

#[test]
fn one_unreadable_event_fails_the_whole_table() {
    let rows = vec![
        event_row(1, "2024-06-10T14:00:00+02:00[+02:00]"),
        event_row(7, "yesterday"),
        event_row(3, "2024-06-10T14:00:00+02:00[+02:00]"),
    ];
    assert_eq!(events_from_rows(rows), Err(ParseError::Timestamp { chore: 7 }));
}

#[test]
fn store_is_restored_from_its_contents() {
    let db = Db::restore(
        vec![chore(1, "Laundry", 7), chore(4, "Dishes", 1)],
        vec![event(1, 100), event(4, 300), event(9, 200)],
        vec![event(1, 400)],
        6,
    );
    let mut db = db.expect("the contents are consistent");
    assert_eq!(db.next_chore_id(), 6);
    assert_eq!(db.get_chore(ChoreId::from(4)).unwrap().name, "Dishes");
    assert_eq!(db.next_to_undo(), Some(event(4, 300)));
    assert_eq!(db.next_to_redo(), Some(event(1, 400)));
    assert_eq!(db.create_chore("Bins", Interval { weeks: 2, ..Interval::zero() }), Ok(ChoreId(6)));
}

#[test]
fn store_is_not_restored_from_inconsistent_contents() {
    let chores = || vec![chore(1, "Laundry", 7), chore(4, "Dishes", 1)];
    // The next ID is not past every ID in the table.
    assert!(Db::restore(chores(), Vec::new(), Vec::new(), 4).is_none());
    assert!(Db::restore(chores(), Vec::new(), Vec::new(), 5).is_some());
    // The next ID is not positive.
    assert!(Db::restore(Vec::new(), Vec::new(), Vec::new(), 0).is_none());
    assert!(Db::restore(Vec::new(), Vec::new(), Vec::new(), 1).is_some());
    // An ID is not positive.
    assert!(Db::restore(vec![chore(0, "Laundry", 7)], Vec::new(), Vec::new(), 5).is_none());
    // Two chores share an ID.
    let twice = vec![chore(1, "Laundry", 7), chore(2, "Bins", 14), chore(1, "Dishes", 1)];
    assert!(Db::restore(twice, Vec::new(), Vec::new(), 5).is_none());
    // An interval is out of range.
    assert!(Db::restore(vec![chore(1, "Laundry", 8_000_000)], Vec::new(), Vec::new(), 5).is_none());
    // An instant is out of range.
    let never = Event {
        chore_id: ChoreId::from(1),
        timestamp: Moment { nanosecond: i128::MAX, offset_seconds: 0 },
    };
    assert!(Db::restore(chores(), vec![never], Vec::new(), 5).is_none());
    assert!(Db::restore(chores(), Vec::new(), vec![never], 5).is_none());
}

#[test]
fn store_round_trips_through_its_rows() {
    let mut db = Db::new();
    let laundry = db.create_chore("Laundry", Interval { weeks: 1, ..Interval::zero() }).unwrap();
    let dishes = db.create_chore("Dishes", Interval { hours: 12, ..Interval::zero() }).unwrap();
    db.delete_chore(laundry);
    db.record_chore_event_when(dishes, at(100));
    db.record_chore_event_when(laundry, at(300));
    db.record_chore_event_when(dishes, at(200));
    assert!(db.undo_chore_event());

    let chore_rows = db.chore_rows();
    assert_eq!(chore_rows.len(), 1);
    assert_eq!(chore_rows[0].id, 2);
    assert_eq!(chore_rows[0].name, "Dishes");
    assert_eq!(chore_rows[0].interval, "PT12H");
    let event_rows = db.event_rows();
    assert_eq!(event_rows.len(), 2);
    assert_eq!(event_rows[0].chore_id, 2);
    assert_eq!(event_rows[0].timestamp, "1970-01-01T01:01:40+01:00");
    let redo_rows = db.redo_event_rows();
    assert_eq!(redo_rows.len(), 1);
    assert_eq!(redo_rows[0].chore_id, 1);

    let mut restored = Db::restore(
        chores_from_rows(chore_rows).unwrap(),
        events_from_rows(event_rows).unwrap(),
        events_from_rows(redo_rows).unwrap(),
        db.next_chore_id(),
    )
    .expect("what a store wrote is consistent");
    assert_eq!(restored.next_chore_id(), 3);
    assert_eq!(restored.get_all_chores().len(), 1);
    assert_eq!(restored.get_chore_completions(dishes), vec![event(2, 100), event(2, 200)]);
    assert_eq!(restored.next_to_redo(), Some(event(1, 300)));
    assert!(restored.redo_chore_event());
    assert_eq!(restored.next_to_undo(), Some(event(1, 300)));
    // The ID of the deleted chore is not assigned again.
    assert_eq!(restored.create_chore("Bins", Interval::zero()), Ok(ChoreId::from(3)));
}
