use chordle::db::types::{ChoreId, Event};
use chordle::db::Db;
use chordle::time::Moment;

fn at(second: i64) -> Moment {
    Moment { nanosecond: second as i128 * 1_000_000_000, offset_seconds: 0 }
}

fn event(chore: i64, second: i64) -> Event {
    Event { chore_id: ChoreId::from(chore), timestamp: at(second) }
}

#[test]
fn fresh_store_has_nothing_to_undo_or_redo() {
    let mut db = Db::new();
    assert!(!db.can_undo_chore_event());
    assert!(!db.can_redo_chore_event());
    assert_eq!(db.next_to_undo(), None);
    assert_eq!(db.next_to_redo(), None);
    assert!(!db.undo_chore_event());
    assert!(!db.redo_chore_event());
    assert!(!db.can_undo_chore_event());
    assert!(!db.can_redo_chore_event());
}

#[test]
fn undo_on_empty_ledger_changes_nothing() {
    let mut db = Db::new();
    db.record_chore_event_when(ChoreId::from(1), at(100));
    assert!(db.undo_chore_event());
    // The record is empty now, the undone event can be redone.
    assert!(!db.undo_chore_event());
    assert!(!db.can_undo_chore_event());
    assert!(db.can_redo_chore_event());
    assert_eq!(db.next_to_redo(), Some(event(1, 100)));
}

#[test]
fn redo_on_empty_redo_set_changes_nothing() {
    let mut db = Db::new();
    db.record_chore_event_when(ChoreId::from(1), at(100));
    assert!(!db.redo_chore_event());
    assert!(db.can_undo_chore_event());
    assert!(!db.can_redo_chore_event());
    assert_eq!(db.next_to_undo(), Some(event(1, 100)));
    assert_eq!(db.get_chore_completions(ChoreId::from(1)), vec![event(1, 100)]);
}

#[test]
fn redo_restores_the_event_that_undo_removed() {
    let mut db = Db::new();
    db.record_chore_event_when(ChoreId::from(1), at(100));
    db.record_chore_event_when(ChoreId::from(2), at(300));
    db.record_chore_event_when(ChoreId::from(1), at(200));

    let removed = db.next_to_undo();
    assert_eq!(removed, Some(event(2, 300)));
    assert!(db.undo_chore_event());
    assert!(db.can_redo_chore_event());
    assert_eq!(db.get_chore_completions(ChoreId::from(2)), Vec::new());

    let restored = db.next_to_redo();
    assert_eq!(restored, removed);
    assert!(db.redo_chore_event());
    assert!(!db.can_redo_chore_event());
    assert_eq!(db.get_chore_completions(ChoreId::from(2)), vec![event(2, 300)]);
    assert_eq!(db.get_chore_completions(ChoreId::from(1)), vec![event(1, 100), event(1, 200)]);
}

#[test]
fn recording_after_undo_discards_redo() {
    let mut db = Db::new();
    db.record_chore_event_when(ChoreId::from(1), at(100));
    db.record_chore_event_when(ChoreId::from(1), at(200));
    assert!(db.undo_chore_event());
    assert!(db.can_redo_chore_event());
    db.record_chore_event_when(ChoreId::from(9), at(50));
    assert!(!db.can_redo_chore_event());
    assert!(!db.redo_chore_event());
    assert_eq!(db.get_chore_completions(ChoreId::from(1)), vec![event(1, 100)]);
    assert_eq!(db.get_chore_completions(ChoreId::from(9)), vec![event(9, 50)]);
}

#[test]
fn undo_takes_the_latest_event_of_any_chore() {
    let mut db = Db::new();
    db.record_chore_event_when(ChoreId::from(1), at(500));
    db.record_chore_event_when(ChoreId::from(2), at(100));
    db.record_chore_event_when(ChoreId::from(3), at(300));
    // The event recorded last is not the latest: a backdated one came after.
    assert_eq!(db.next_to_undo(), Some(event(1, 500)));
    assert!(db.undo_chore_event());
    assert_eq!(db.next_to_undo(), Some(event(3, 300)));
    assert!(db.undo_chore_event());
    assert_eq!(db.next_to_undo(), Some(event(2, 100)));
    assert!(db.undo_chore_event());
    assert_eq!(db.next_to_undo(), None);
}

#[test]
fn redo_takes_the_latest_undone_event() {
    let mut db = Db::new();
    db.record_chore_event_when(ChoreId::from(1), at(100));
    db.record_chore_event_when(ChoreId::from(2), at(200));
    db.record_chore_event_when(ChoreId::from(3), at(300));
    assert!(db.undo_chore_event());
    assert!(db.undo_chore_event());
    // Undone: 300, then 200. The latest of them comes back first.
    assert_eq!(db.next_to_redo(), Some(event(3, 300)));
    assert!(db.redo_chore_event());
    assert_eq!(db.next_to_redo(), Some(event(2, 200)));
    assert!(db.redo_chore_event());
    assert!(!db.can_redo_chore_event());
    assert_eq!(db.next_to_undo(), Some(event(3, 300)));
}

#[test]
fn among_events_of_one_instant_undo_takes_the_last_recorded() {
    let mut db = Db::new();
    db.record_chore_event_when(ChoreId::from(1), at(100));
    db.record_chore_event_when(ChoreId::from(2), at(100));
    assert_eq!(db.next_to_undo(), Some(event(2, 100)));
    assert!(db.undo_chore_event());
    assert_eq!(db.next_to_undo(), Some(event(1, 100)));
}

#[test]
fn undo_moves_one_of_two_identical_events() {
    let mut db = Db::new();
    db.record_chore_event_when(ChoreId::from(1), at(100));
    db.record_chore_event_when(ChoreId::from(1), at(100));
    assert!(db.undo_chore_event());
    assert_eq!(db.get_chore_completions(ChoreId::from(1)), vec![event(1, 100)]);
    assert_eq!(db.next_to_redo(), Some(event(1, 100)));
    assert!(db.redo_chore_event());
    assert_eq!(db.get_chore_completions(ChoreId::from(1)), vec![event(1, 100), event(1, 100)]);
}

#[test]
fn order_of_instants_ignores_offsets() {
    let mut db = Db::new();
    let east = Moment { nanosecond: 1_000, offset_seconds: 7200 };
    let west = Moment { nanosecond: 2_000, offset_seconds: -18000 };
    db.record_chore_event_when(ChoreId::from(1), west);
    db.record_chore_event_when(ChoreId::from(1), east);
    assert_eq!(db.next_to_undo(), Some(Event { chore_id: ChoreId::from(1), timestamp: west }));
}

#[test]
fn recording_now_adds_an_event_and_discards_redo() {
    let mut db = Db::new();
    db.record_chore_event_when(ChoreId::from(1), at(100));
    assert!(db.undo_chore_event());
    assert_eq!(db.record_chore_event(ChoreId::from(4)), Ok(()));
    assert!(!db.can_redo_chore_event());
    let completions = db.get_chore_completions(ChoreId::from(4));
    assert_eq!(completions.len(), 1);
    assert_eq!(completions[0].chore_id, ChoreId::from(4));
    assert!(completions[0].timestamp.is_valid());
    // The clock of this machine is past the year 2020.
    assert!(completions[0].timestamp.nanosecond > 1_577_836_800_000_000_000);
}

#[test]
fn completions_come_earliest_first() {
    let mut db = Db::new();
    db.record_chore_event_when(ChoreId::from(1), at(300));
    db.record_chore_event_when(ChoreId::from(2), at(150));
    db.record_chore_event_when(ChoreId::from(1), at(100));
    db.record_chore_event_when(ChoreId::from(1), at(200));
    assert_eq!(
        db.get_chore_completions(ChoreId::from(1)),
        vec![event(1, 100), event(1, 200), event(1, 300)]
    );
    assert_eq!(db.get_chore_completions(ChoreId::from(2)), vec![event(2, 150)]);
    assert_eq!(db.get_chore_completions(ChoreId::from(3)), Vec::new());
}
