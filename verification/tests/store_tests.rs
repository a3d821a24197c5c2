use chrono::Utc;
use reminder_app::error::AppError;
use reminder_app::reminder::{ListType, Reminder, Urgency};
use reminder_app::storage::merge::ReminderStore;
use reminder_app::storage::{Persist, Storage};

fn create_test_reminder(id: i64, list_type: ListType, sort_order: i64) -> Reminder {
    Reminder {
        id,
        message: format!("Task {}", id),
        urgency: Urgency::Today,
        list_type,
        created_at: Utc::now().to_rfc3339(),
        is_completed: false,
        completed_at: None,
        sort_order,
    }
}

fn storage_with(pending: Vec<Reminder>, completed: Vec<Reminder>) -> Storage {
    Storage::new("/tmp/test".to_string(), ReminderStore { pending, completed })
}

fn new_item(message: &str, list_type: ListType) -> Reminder {
    Reminder::new_at(
        message.to_string(),
        Urgency::Now,
        list_type,
        "2024-01-01T00:00:00+00:00".to_string(),
    )
}

fn find(storage: &Storage, id: i64) -> &Reminder {
    storage.data.pending.iter().find(|r| r.id == id).unwrap()
}

fn actual_count(storage: &Storage) -> usize {
    storage.data.pending.iter().filter(|r| r.list_type == ListType::Actual).count()
}

#[test]
fn test_promote_from_backlog_when_room() {
    let mut store = ReminderStore::default();

    for i in 0..5 {
        store.pending.push(create_test_reminder(i, ListType::Actual, i));
    }

    store.pending.push(create_test_reminder(100, ListType::Backlog, 0));
    store.pending.push(create_test_reminder(101, ListType::Backlog, 1));

    let mut storage = Storage::new("/tmp/test".to_string(), store);

    storage.promote_from_backlog_if_room();

    let actual_count = storage
        .data
        .pending
        .iter()
        .filter(|r| r.list_type == ListType::Actual)
        .count();

    assert_eq!(actual_count, 6);
}

#[test]
fn test_promoted_task_goes_to_end() {
    let mut store = ReminderStore::default();

    for i in 0..3 {
        store.pending.push(create_test_reminder(i, ListType::Actual, i));
    }

    store.pending.push(create_test_reminder(100, ListType::Backlog, 0));

    let mut storage = Storage::new("/tmp/test".to_string(), store);

    storage.promote_from_backlog_if_room();

    let promoted = storage.data.pending.iter().find(|r| r.id == 100).unwrap();

    assert_eq!(promoted.list_type, ListType::Actual);
    assert_eq!(promoted.sort_order, 3); // After 0, 1, 2
}

#[test]
fn promotion_takes_the_top_of_the_backlog() {
    let mut storage = storage_with(
        vec![
            create_test_reminder(1, ListType::Actual, 4),
            create_test_reminder(2, ListType::Backlog, 7),
            create_test_reminder(3, ListType::Backlog, -2),
            create_test_reminder(4, ListType::Backlog, -2),
        ],
        vec![],
    );
    storage.promote_from_backlog_if_room();
    assert_eq!(find(&storage, 3).list_type, ListType::Actual);
    assert_eq!(find(&storage, 3).sort_order, 5);
    assert_eq!(find(&storage, 4).list_type, ListType::Backlog);
    assert_eq!(find(&storage, 2).list_type, ListType::Backlog);
}

#[test]
fn promotion_into_empty_actual_starts_at_zero() {
    let mut storage = storage_with(vec![create_test_reminder(9, ListType::Backlog, 12)], vec![]);
    storage.promote_from_backlog_if_room();
    assert_eq!(find(&storage, 9).list_type, ListType::Actual);
    assert_eq!(find(&storage, 9).sort_order, 0);
}

#[test]
fn promotion_does_nothing_at_capacity() {
    let mut pending: Vec<Reminder> =
        (0..6).map(|i| create_test_reminder(i, ListType::Actual, i)).collect();
    pending.push(create_test_reminder(100, ListType::Backlog, 0));
    let mut storage = storage_with(pending, vec![]);
    storage.promote_from_backlog_if_room();
    assert_eq!(find(&storage, 100).list_type, ListType::Backlog);
    assert_eq!(actual_count(&storage), 6);
}

#[test]
fn promotion_is_skipped_when_no_order_is_left() {
    let mut storage = storage_with(
        vec![
            create_test_reminder(1, ListType::Actual, i64::MAX),
            create_test_reminder(2, ListType::Backlog, 0),
        ],
        vec![],
    );
    storage.promote_from_backlog_if_room();
    assert_eq!(find(&storage, 2).list_type, ListType::Backlog);
    assert_eq!(find(&storage, 2).sort_order, 0);
}

#[test]
fn first_id_is_one() {
    let mut storage = storage_with(vec![], vec![]);
    assert_eq!(storage.next_id(), Some(1));
    let id = storage.add_reminder(new_item("first", ListType::Actual)).unwrap();
    assert_eq!(id, 1);
    assert_eq!(storage.data.pending.len(), 1);
    assert_eq!(storage.data.pending[0].message, "first");
    assert_eq!(storage.data.pending[0].sort_order, 0);
    assert_eq!(storage.unsaved, Persist::LocalAndCloud);
}

#[test]
fn next_id_follows_the_largest_id_of_both_lists() {
    let mut done = create_test_reminder(41, ListType::Actual, 0);
    done.is_completed = true;
    let mut storage = storage_with(vec![create_test_reminder(7, ListType::Actual, 0)], vec![done]);
    assert_eq!(storage.next_id(), Some(42));
    assert_eq!(storage.add_reminder(new_item("x", ListType::Backlog)).unwrap(), 42);
}

#[test]
fn add_fails_when_no_id_is_left() {
    let mut storage = storage_with(vec![create_test_reminder(i64::MAX, ListType::Backlog, 0)], vec![]);
    assert_eq!(storage.next_id(), None);
    let res = storage.add_reminder(new_item("x", ListType::Backlog));
    assert!(matches!(res, Err(AppError::Validation(_))));
    assert_eq!(storage.data.pending.len(), 1);
    assert_eq!(storage.unsaved, Persist::Nothing);
}

#[test]
fn add_fails_when_an_actual_item_cannot_move_down() {
    let mut storage = storage_with(vec![create_test_reminder(1, ListType::Actual, i64::MAX)], vec![]);
    let res = storage.add_reminder(new_item("x", ListType::Actual));
    assert!(matches!(res, Err(AppError::Validation(_))));
    assert_eq!(storage.data.pending.len(), 1);
    assert_eq!(find(&storage, 1).sort_order, i64::MAX);
}

#[test]
fn add_to_actual_at_capacity_evicts_the_last_item() {
    // Six Actual items with sort orders 0..5, and an empty Backlog.
    let pending: Vec<Reminder> =
        (0..6).map(|i| create_test_reminder(i + 1, ListType::Actual, i)).collect();
    let mut storage = storage_with(pending, vec![]);
    let id = storage.add_reminder(new_item("new", ListType::Actual)).unwrap();
    assert_eq!(id, 7);
    // The item that had sort order 5 is now the only Backlog item, at 0.
    assert_eq!(find(&storage, 6).list_type, ListType::Backlog);
    assert_eq!(find(&storage, 6).sort_order, 0);
    // The others moved one place down.
    for i in 0..5 {
        assert_eq!(find(&storage, i + 1).list_type, ListType::Actual);
        assert_eq!(find(&storage, i + 1).sort_order, i + 1);
    }
    // The new item is at the top.
    assert_eq!(find(&storage, 7).list_type, ListType::Actual);
    assert_eq!(find(&storage, 7).sort_order, 0);
    assert_eq!(find(&storage, 7).urgency, Urgency::Now);
    assert_eq!(actual_count(&storage), 6);
}

#[test]
fn eviction_goes_above_the_backlog() {
    let mut pending: Vec<Reminder> =
        (0..6).map(|i| create_test_reminder(i + 1, ListType::Actual, i)).collect();
    pending.push(create_test_reminder(50, ListType::Backlog, 0));
    pending.push(create_test_reminder(51, ListType::Backlog, 3));
    let mut storage = storage_with(pending, vec![]);
    storage.add_reminder(new_item("new", ListType::Actual)).unwrap();
    assert_eq!(find(&storage, 6).list_type, ListType::Backlog);
    assert_eq!(find(&storage, 6).sort_order, -1);
    assert_eq!(find(&storage, 50).sort_order, 0);
    assert_eq!(actual_count(&storage), 6);
}

#[test]
fn eviction_takes_the_last_of_equal_sort_orders() {
    let mut pending: Vec<Reminder> =
        (0..6).map(|i| create_test_reminder(i + 1, ListType::Actual, 2)).collect();
    pending.push(create_test_reminder(50, ListType::Backlog, 10));
    let mut storage = storage_with(pending, vec![]);
    assert!(storage.bump_least_important_to_backlog().is_ok());
    assert_eq!(find(&storage, 6).list_type, ListType::Backlog);
    assert_eq!(find(&storage, 6).sort_order, 9);
    assert_eq!(find(&storage, 5).list_type, ListType::Actual);
}

#[test]
fn eviction_fails_below_the_smallest_order() {
    let mut storage = storage_with(
        vec![
            create_test_reminder(1, ListType::Actual, 0),
            create_test_reminder(2, ListType::Backlog, i64::MIN),
        ],
        vec![],
    );
    assert!(matches!(
        storage.bump_least_important_to_backlog(),
        Err(AppError::Validation(_))
    ));
    assert_eq!(find(&storage, 1).list_type, ListType::Actual);
}

#[test]
fn add_to_backlog_goes_to_its_top() {
    let mut storage = storage_with(
        vec![
            create_test_reminder(1, ListType::Backlog, 4),
            create_test_reminder(2, ListType::Backlog, -3),
            create_test_reminder(3, ListType::Actual, -9),
        ],
        vec![],
    );
    let id = storage.add_reminder(new_item("later", ListType::Backlog)).unwrap();
    assert_eq!(id, 4);
    assert_eq!(find(&storage, 4).sort_order, -4);
    assert_eq!(find(&storage, 4).list_type, ListType::Backlog);
    assert_eq!(find(&storage, 3).sort_order, -9);
}

#[test]
fn capacity_holds_after_every_command() {
    let mut storage = storage_with(vec![], vec![]);
    for i in 0..20 {
        storage.add_reminder(new_item(&format!("t{}", i), ListType::Actual)).unwrap();
        assert!(actual_count(&storage) <= 6);
    }
    assert_eq!(storage.data.pending.len(), 20);
    for id in [3, 20, 19, 1] {
        storage.delete_reminder(id);
        assert!(actual_count(&storage) <= 6);
    }
    for id in [18, 5, 17, 16, 15, 14, 13, 12] {
        storage.complete_reminder(id);
        assert!(actual_count(&storage) <= 6);
    }
    for id in [18, 5, 17] {
        storage.uncomplete_reminder(id).unwrap();
        assert!(actual_count(&storage) <= 6);
    }
    let mut ids: Vec<i64> = storage
        .data
        .pending
        .iter()
        .chain(storage.data.completed.iter())
        .map(|r| r.id)
        .collect();
    let count = ids.len();
    ids.sort();
    ids.dedup();
    assert_eq!(ids.len(), count);
}

#[test]
fn update_changes_message_and_urgency() {
    let mut storage = storage_with(vec![create_test_reminder(1, ListType::Actual, 0)], vec![]);
    storage.update_reminder(1, "changed".to_string(), Urgency::Soon);
    assert_eq!(find(&storage, 1).message, "changed");
    assert_eq!(find(&storage, 1).urgency, Urgency::Soon);
    assert_eq!(storage.unsaved, Persist::LocalAndCloud);
}

#[test]
fn update_of_unknown_id_does_nothing() {
    let mut storage = storage_with(vec![create_test_reminder(1, ListType::Actual, 0)], vec![]);
    storage.update_reminder(2, "changed".to_string(), Urgency::Soon);
    assert_eq!(find(&storage, 1).message, "Task 1");
    assert_eq!(storage.unsaved, Persist::Nothing);
}

#[test]
fn set_urgency_stays_local() {
    let mut storage = storage_with(vec![create_test_reminder(1, ListType::Actual, 0)], vec![]);
    storage.set_urgency(1, Urgency::Whenever);
    assert_eq!(find(&storage, 1).urgency, Urgency::Whenever);
    assert_eq!(storage.unsaved, Persist::LocalOnly);
    storage.set_urgency(5, Urgency::Now);
    assert_eq!(storage.unsaved, Persist::LocalOnly);
}

#[test]
fn move_to_backlog_goes_to_its_top() {
    let mut storage = storage_with(
        vec![
            create_test_reminder(1, ListType::Actual, 0),
            create_test_reminder(2, ListType::Backlog, 3),
        ],
        vec![],
    );
    storage.move_reminder(1, ListType::Backlog).unwrap();
    assert_eq!(find(&storage, 1).list_type, ListType::Backlog);
    assert_eq!(find(&storage, 1).sort_order, 2);
    assert_eq!(storage.unsaved, Persist::LocalOnly);
}

#[test]
fn move_to_actual_at_capacity_evicts() {
    let mut pending: Vec<Reminder> =
        (0..6).map(|i| create_test_reminder(i + 1, ListType::Actual, i)).collect();
    pending.push(create_test_reminder(50, ListType::Backlog, 0));
    let mut storage = storage_with(pending, vec![]);
    storage.move_reminder(50, ListType::Actual).unwrap();
    assert_eq!(find(&storage, 50).list_type, ListType::Actual);
    assert_eq!(find(&storage, 50).sort_order, 0);
    assert_eq!(find(&storage, 6).list_type, ListType::Backlog);
    assert_eq!(find(&storage, 6).sort_order, -1);
    assert_eq!(find(&storage, 1).sort_order, 1);
    assert_eq!(actual_count(&storage), 6);
}

#[test]
fn move_within_the_same_list_does_nothing() {
    let mut storage = storage_with(vec![create_test_reminder(1, ListType::Actual, 4)], vec![]);
    storage.move_reminder(1, ListType::Actual).unwrap();
    assert_eq!(find(&storage, 1).sort_order, 4);
    assert_eq!(storage.unsaved, Persist::Nothing);
    storage.move_reminder(9, ListType::Backlog).unwrap();
    assert_eq!(storage.unsaved, Persist::Nothing);
}

#[test]
fn move_fails_below_the_smallest_order() {
    let mut storage = storage_with(
        vec![
            create_test_reminder(1, ListType::Actual, 0),
            create_test_reminder(2, ListType::Backlog, i64::MIN),
        ],
        vec![],
    );
    assert!(matches!(
        storage.move_reminder(1, ListType::Backlog),
        Err(AppError::Validation(_))
    ));
    assert_eq!(find(&storage, 1).list_type, ListType::Actual);
}

#[test]
fn delete_of_an_actual_item_promotes() {
    let mut storage = storage_with(
        vec![
            create_test_reminder(1, ListType::Actual, 0),
            create_test_reminder(2, ListType::Actual, 8),
            create_test_reminder(3, ListType::Backlog, 5),
            create_test_reminder(4, ListType::Backlog, 1),
        ],
        vec![],
    );
    storage.delete_reminder(1);
    assert_eq!(storage.data.pending.len(), 3);
    assert_eq!(find(&storage, 4).list_type, ListType::Actual);
    assert_eq!(find(&storage, 4).sort_order, 9);
    assert_eq!(find(&storage, 3).list_type, ListType::Backlog);
    assert_eq!(storage.unsaved, Persist::LocalAndCloud);
}

#[test]
fn delete_of_a_backlog_item_does_not_promote() {
    let mut storage = storage_with(
        vec![
            create_test_reminder(1, ListType::Actual, 0),
            create_test_reminder(3, ListType::Backlog, 5),
            create_test_reminder(4, ListType::Backlog, 1),
        ],
        vec![],
    );
    storage.delete_reminder(3);
    assert_eq!(storage.data.pending.len(), 2);
    assert_eq!(find(&storage, 4).list_type, ListType::Backlog);
}

#[test]
fn delete_removes_from_completed_too() {
    let mut done = create_test_reminder(5, ListType::Actual, 0);
    done.is_completed = true;
    let mut storage = storage_with(vec![create_test_reminder(1, ListType::Actual, 0)], vec![done]);
    storage.delete_reminder(5);
    assert!(storage.data.completed.is_empty());
    assert_eq!(storage.data.pending.len(), 1);
}

#[test]
fn complete_moves_the_item_and_promotes() {
    let mut storage = storage_with(
        vec![
            create_test_reminder(1, ListType::Actual, 0),
            create_test_reminder(2, ListType::Backlog, 0),
        ],
        vec![],
    );
    storage.complete_reminder_at(1, "2024-03-01T10:00:00+00:00".to_string());
    assert_eq!(storage.data.pending.len(), 1);
    assert_eq!(storage.data.completed.len(), 1);
    let done = &storage.data.completed[0];
    assert_eq!(done.id, 1);
    assert!(done.is_completed);
    assert_eq!(done.completed_at.as_deref(), Some("2024-03-01T10:00:00+00:00"));
    assert_eq!(find(&storage, 2).list_type, ListType::Actual);
    assert_eq!(find(&storage, 2).sort_order, 0);
    assert_eq!(storage.unsaved, Persist::LocalAndCloud);
}

#[test]
fn complete_stamps_the_current_time() {
    let mut storage = storage_with(vec![create_test_reminder(1, ListType::Backlog, 0)], vec![]);
    let before = Utc::now();
    storage.complete_reminder(1);
    let after = Utc::now();
    let stamp = storage.data.completed[0].completed_at.clone().unwrap();
    let at = chrono::DateTime::parse_from_rfc3339(&stamp).unwrap();
    assert!(before <= at && at <= after);
}

#[test]
fn complete_of_unknown_id_does_nothing() {
    let mut storage = storage_with(vec![create_test_reminder(1, ListType::Backlog, 0)], vec![]);
    storage.complete_reminder(7);
    assert_eq!(storage.data.pending.len(), 1);
    assert!(storage.data.completed.is_empty());
    assert_eq!(storage.unsaved, Persist::Nothing);
}

#[test]
fn uncomplete_returns_to_the_top_of_actual() {
    let mut done = create_test_reminder(5, ListType::Backlog, 3);
    done.is_completed = true;
    done.completed_at = Some("2024-03-01T10:00:00+00:00".to_string());
    let mut storage = storage_with(vec![create_test_reminder(1, ListType::Actual, 0)], vec![done]);
    storage.uncomplete_reminder(5).unwrap();
    assert!(storage.data.completed.is_empty());
    assert_eq!(find(&storage, 5).list_type, ListType::Actual);
    assert_eq!(find(&storage, 5).sort_order, 0);
    assert!(!find(&storage, 5).is_completed);
    assert_eq!(find(&storage, 5).completed_at, None);
    assert_eq!(find(&storage, 1).sort_order, 1);
}

#[test]
fn uncomplete_goes_to_the_backlog_at_capacity() {
    let mut done = create_test_reminder(50, ListType::Actual, 3);
    done.is_completed = true;
    let mut pending: Vec<Reminder> =
        (0..6).map(|i| create_test_reminder(i + 1, ListType::Actual, i)).collect();
    pending.push(create_test_reminder(60, ListType::Backlog, -5));
    let mut storage = storage_with(pending, vec![done]);
    storage.uncomplete_reminder(50).unwrap();
    assert_eq!(find(&storage, 50).list_type, ListType::Backlog);
    assert_eq!(find(&storage, 50).sort_order, -6);
    assert_eq!(find(&storage, 1).sort_order, 0);
    assert_eq!(actual_count(&storage), 6);
}

#[test]
fn reorder_gives_places_as_sort_orders() {
    let mut storage = storage_with(
        vec![
            create_test_reminder(3, ListType::Actual, 10),
            create_test_reminder(5, ListType::Actual, 11),
            create_test_reminder(7, ListType::Backlog, 12),
            create_test_reminder(8, ListType::Backlog, 13),
        ],
        vec![],
    );
    storage.reorder_reminders(vec![5, 3, 7]);
    assert_eq!(find(&storage, 5).sort_order, 0);
    assert_eq!(find(&storage, 3).sort_order, 1);
    assert_eq!(find(&storage, 7).sort_order, 2);
    assert_eq!(find(&storage, 8).sort_order, 13);
    assert_eq!(storage.unsaved, Persist::LocalOnly);
}

#[test]
fn reorder_passes_over_unknown_ids() {
    let mut storage = storage_with(vec![create_test_reminder(3, ListType::Actual, 10)], vec![]);
    storage.reorder_reminders(vec![99, 3, 98]);
    assert_eq!(find(&storage, 3).sort_order, 1);
    assert_eq!(storage.data.pending.len(), 1);
}

#[test]
fn new_reminder_is_stamped_now() {
    let before = Utc::now();
    let r = Reminder::new("m".to_string(), Urgency::Soon, ListType::Backlog);
    let after = Utc::now();
    assert_eq!(r.id, 0);
    assert_eq!(r.message, "m");
    assert_eq!(r.urgency, Urgency::Soon);
    assert_eq!(r.list_type, ListType::Backlog);
    assert!(!r.is_completed);
    assert_eq!(r.completed_at, None);
    assert_eq!(r.sort_order, 0);
    let at = chrono::DateTime::parse_from_rfc3339(&r.created_at).unwrap();
    assert!(before <= at && at <= after);
}

#[test]
fn clone_keeps_every_field() {
    let mut r = create_test_reminder(4, ListType::Backlog, -2);
    r.completed_at = Some("x".to_string());
    r.is_completed = true;
    let c = r.clone();
    assert_eq!(c.id, 4);
    assert_eq!(c.message, r.message);
    assert_eq!(c.urgency, r.urgency);
    assert_eq!(c.list_type, ListType::Backlog);
    assert_eq!(c.created_at, r.created_at);
    assert!(c.is_completed);
    assert_eq!(c.completed_at.as_deref(), Some("x"));
    assert_eq!(c.sort_order, -2);
}
