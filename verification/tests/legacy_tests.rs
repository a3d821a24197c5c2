use reminder_app::clock::Instant;
use reminder_app::reminder::{ListType, Urgency};
use reminder_app::storage::legacy::{
    migrate_legacy_reminder, migrate_legacy_reminder_at, try_migrate_legacy_data,
    try_migrate_legacy_data_at, urgency_for_hours, LegacyReminder, LegacyReminderStore,
};
use reminder_app::storage::local::{load_local, load_snapshot_at, Snapshot};
use reminder_app::storage::merge::ReminderStore;

fn legacy(id: i64, due_time: &str) -> LegacyReminder {
    LegacyReminder {
        id,
        message: format!("Old {}", id),
        due_time: due_time.to_string(),
        created_at: "2023-12-31T00:00:00Z".to_string(),
        recurrence: "daily".to_string(),
        is_completed: false,
        is_snoozed: true,
        original_due_time: None,
        completed_at: None,
        sort_order: id * 2,
    }
}

// 2024-01-01T00:00:00Z
fn new_year() -> Instant {
    Instant { secs: 1_704_067_200, nanos: 0, offset: 0 }
}

#[test]
fn urgency_follows_the_hours_left() {
    assert_eq!(urgency_for_hours(Some(-100)), Urgency::Now);
    assert_eq!(urgency_for_hours(Some(0)), Urgency::Now);
    assert_eq!(urgency_for_hours(Some(1)), Urgency::Now);
    assert_eq!(urgency_for_hours(Some(2)), Urgency::Today);
    assert_eq!(urgency_for_hours(Some(24)), Urgency::Today);
    assert_eq!(urgency_for_hours(Some(25)), Urgency::Soon);
    assert_eq!(urgency_for_hours(Some(168)), Urgency::Soon);
    assert_eq!(urgency_for_hours(Some(169)), Urgency::Whenever);
    assert_eq!(urgency_for_hours(None), Urgency::Whenever);
}

#[test]
fn migration_maps_due_times_to_urgencies() {
    let now = new_year();
    let half_hour = migrate_legacy_reminder_at(legacy(1, "2024-01-01T00:30:00Z"), now);
    assert_eq!(half_hour.urgency, Urgency::Now);
    let ten_hours = migrate_legacy_reminder_at(legacy(2, "2024-01-01T10:00:00Z"), now);
    assert_eq!(ten_hours.urgency, Urgency::Today);
    let five_days = migrate_legacy_reminder_at(legacy(3, "2024-01-06T00:00:00Z"), now);
    assert_eq!(five_days.urgency, Urgency::Soon);
    let thirty_days = migrate_legacy_reminder_at(legacy(4, "2024-01-31T00:00:00Z"), now);
    assert_eq!(thirty_days.urgency, Urgency::Whenever);
}

#[test]
fn migration_counts_whole_hours_toward_zero() {
    let now = new_year();
    // One hour and 59 minutes are one whole hour.
    let r = migrate_legacy_reminder_at(legacy(1, "2024-01-01T01:59:59Z"), now);
    assert_eq!(r.urgency, Urgency::Now);
    let r = migrate_legacy_reminder_at(legacy(1, "2024-01-01T02:00:00Z"), now);
    assert_eq!(r.urgency, Urgency::Today);
    // The offset of the due time is taken into account: 03:00 at +02:00 is 01:00 UTC.
    let r = migrate_legacy_reminder_at(legacy(1, "2024-01-01T03:00:00+02:00"), now);
    assert_eq!(r.urgency, Urgency::Now);
    // Long overdue.
    let r = migrate_legacy_reminder_at(legacy(1, "2020-01-01T00:00:00Z"), now);
    assert_eq!(r.urgency, Urgency::Now);
    let r = migrate_legacy_reminder_at(legacy(1, "2024-01-08T00:00:00Z"), now);
    assert_eq!(r.urgency, Urgency::Soon);
    let r = migrate_legacy_reminder_at(legacy(1, "2024-01-08T01:00:00Z"), now);
    assert_eq!(r.urgency, Urgency::Whenever);
}

#[test]
fn migration_of_an_unreadable_due_time_is_whenever() {
    let r = migrate_legacy_reminder_at(legacy(1, "tomorrow"), new_year());
    assert_eq!(r.urgency, Urgency::Whenever);
    let r = migrate_legacy_reminder_at(legacy(1, ""), new_year());
    assert_eq!(r.urgency, Urgency::Whenever);
}

#[test]
fn migration_keeps_the_other_fields() {
    let mut old = legacy(7, "2024-01-01T00:30:00Z");
    old.is_completed = true;
    old.completed_at = Some("2024-01-01T00:10:00Z".to_string());
    let r = migrate_legacy_reminder_at(old, new_year());
    assert_eq!(r.id, 7);
    assert_eq!(r.message, "Old 7");
    assert_eq!(r.list_type, ListType::Actual);
    assert_eq!(r.created_at, "2023-12-31T00:00:00Z");
    assert!(r.is_completed);
    assert_eq!(r.completed_at.as_deref(), Some("2024-01-01T00:10:00Z"));
    assert_eq!(r.sort_order, 14);
}

#[test]
fn migration_reads_the_clock() {
    let soon = (chrono::Utc::now() + chrono::Duration::minutes(30)).to_rfc3339();
    assert_eq!(migrate_legacy_reminder(legacy(1, &soon)).urgency, Urgency::Now);
    let later = (chrono::Utc::now() + chrono::Duration::hours(10)).to_rfc3339();
    assert_eq!(migrate_legacy_reminder(legacy(1, &later)).urgency, Urgency::Today);
    let days = (chrono::Utc::now() + chrono::Duration::days(5)).to_rfc3339();
    assert_eq!(migrate_legacy_reminder(legacy(1, &days)).urgency, Urgency::Soon);
    let month = (chrono::Utc::now() + chrono::Duration::days(30)).to_rfc3339();
    assert_eq!(migrate_legacy_reminder(legacy(1, &month)).urgency, Urgency::Whenever);
}

#[test]
fn migration_keeps_order_and_lists() {
    let store = LegacyReminderStore {
        pending: vec![
            legacy(1, "2024-01-01T00:30:00Z"),
            legacy(2, "2024-01-02T00:00:00Z"),
            legacy(3, "2024-03-01T00:00:00Z"),
        ],
        completed: vec![legacy(4, "bad")],
    };
    let migrated = try_migrate_legacy_data_at(Some(store), false, new_year()).unwrap();
    assert_eq!(migrated.pending.len(), 3);
    assert_eq!(migrated.pending[0].id, 1);
    assert_eq!(migrated.pending[0].urgency, Urgency::Now);
    assert_eq!(migrated.pending[1].id, 2);
    assert_eq!(migrated.pending[1].urgency, Urgency::Today);
    assert_eq!(migrated.pending[2].id, 3);
    assert_eq!(migrated.pending[2].urgency, Urgency::Whenever);
    assert_eq!(migrated.completed.len(), 1);
    assert_eq!(migrated.completed[0].id, 4);
    assert_eq!(migrated.completed[0].urgency, Urgency::Whenever);
}

#[test]
fn migration_may_exceed_the_capacity_of_actual() {
    let pending: Vec<LegacyReminder> = (0..9).map(|i| legacy(i, "x")).collect();
    let store = LegacyReminderStore { pending, completed: vec![] };
    let migrated = try_migrate_legacy_data_at(Some(store), false, new_year()).unwrap();
    assert_eq!(migrated.pending.len(), 9);
    assert!(migrated.pending.iter().all(|r| r.list_type == ListType::Actual));
}

#[test]
fn nothing_is_migrated_that_reads_as_current() {
    let store = LegacyReminderStore { pending: vec![legacy(1, "x")], completed: vec![] };
    assert!(try_migrate_legacy_data_at(Some(store), true, new_year()).is_none());
    assert!(try_migrate_legacy_data_at(None, false, new_year()).is_none());
    assert!(try_migrate_legacy_data(None, false).is_none());
    let store = LegacyReminderStore { pending: vec![legacy(1, "x")], completed: vec![] };
    assert!(try_migrate_legacy_data(Some(store), true).is_none());
    let store = LegacyReminderStore { pending: vec![legacy(1, "x")], completed: vec![] };
    assert_eq!(try_migrate_legacy_data(Some(store), false).unwrap().pending.len(), 1);
}

#[test]
fn test_load_nonexistent_returns_empty() {
    let loaded = load_local(None);
    assert!(loaded.store.pending.is_empty());
    assert!(loaded.store.completed.is_empty());
    assert!(!loaded.migrated);
}

#[test]
fn current_content_is_loaded_as_it_is() {
    let current = ReminderStore {
        pending: vec![migrate_legacy_reminder_at(legacy(1, "x"), new_year())],
        completed: vec![],
    };
    let legacy_reading = LegacyReminderStore { pending: vec![legacy(9, "x")], completed: vec![] };
    let loaded = load_snapshot_at(
        Some(Snapshot { current: Some(current), legacy: Some(legacy_reading) }),
        new_year(),
    );
    assert_eq!(loaded.store.pending.len(), 1);
    assert_eq!(loaded.store.pending[0].id, 1);
    assert!(!loaded.migrated);
}

#[test]
fn legacy_content_is_migrated_on_load() {
    let legacy_reading = LegacyReminderStore {
        pending: vec![legacy(9, "2024-01-01T05:00:00Z")],
        completed: vec![],
    };
    let loaded =
        load_snapshot_at(Some(Snapshot { current: None, legacy: Some(legacy_reading) }), new_year());
    assert_eq!(loaded.store.pending.len(), 1);
    assert_eq!(loaded.store.pending[0].id, 9);
    assert_eq!(loaded.store.pending[0].urgency, Urgency::Today);
    assert!(loaded.migrated);
}

#[test]
fn unreadable_content_gives_the_empty_store() {
    let loaded = load_snapshot_at(Some(Snapshot { current: None, legacy: None }), new_year());
    assert!(loaded.store.pending.is_empty());
    assert!(loaded.store.completed.is_empty());
    assert!(!loaded.migrated);
}
