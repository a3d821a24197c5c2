use reminder_app::reminder::{ListType, Reminder, Urgency};
use reminder_app::storage::merge::{merge_stores, ReminderStore};

fn make_reminder(id: i64, created_at: &str) -> Reminder {
    Reminder {
        id,
        message: format!("Task {}", id),
        urgency: Urgency::Today,
        list_type: ListType::Actual,
        created_at: created_at.to_string(),
        is_completed: false,
        completed_at: None,
        sort_order: 0,
    }
}

fn make_done(id: i64, completed_at: &str) -> Reminder {
    let mut r = make_reminder(id, "2024-01-01T00:00:00Z");
    r.is_completed = true;
    r.completed_at = Some(completed_at.to_string());
    r
}

fn ids(list: &Vec<Reminder>) -> Vec<i64> {
    let mut ids: Vec<i64> = list.iter().map(|r| r.id).collect();
    ids.sort();
    ids
}

#[test]
fn test_merge_adds_new_tasks_from_cloud() {
    let local = ReminderStore {
        pending: vec![make_reminder(1, "2024-01-01T00:00:00Z")],
        completed: vec![],
    };
    let cloud = ReminderStore {
        pending: vec![
            make_reminder(1, "2024-01-01T00:00:00Z"),
            make_reminder(2, "2024-01-02T00:00:00Z"),
        ],
        completed: vec![],
    };

    let merged = merge_stores(&local, &cloud);
    assert_eq!(merged.pending.len(), 2);
}

#[test]
fn test_merge_keeps_newer_version() {
    let local = ReminderStore {
        pending: vec![make_reminder(1, "2024-01-01T00:00:00Z")],
        completed: vec![],
    };
    let mut newer = make_reminder(1, "2024-01-02T00:00:00Z");
    newer.message = "Updated".to_string();
    let cloud = ReminderStore {
        pending: vec![newer],
        completed: vec![],
    };

    let merged = merge_stores(&local, &cloud);
    assert_eq!(merged.pending.len(), 1);
    assert_eq!(merged.pending[0].message, "Updated");
}

#[test]
fn merge_keeps_the_local_version_when_the_cloud_is_older() {
    let mut ours = make_reminder(1, "2024-01-02T00:00:00Z");
    ours.message = "Ours".to_string();
    let local = ReminderStore { pending: vec![ours], completed: vec![] };
    let cloud = ReminderStore {
        pending: vec![make_reminder(1, "2024-01-01T00:00:00Z")],
        completed: vec![],
    };
    let merged = merge_stores(&local, &cloud);
    assert_eq!(merged.pending.len(), 1);
    assert_eq!(merged.pending[0].message, "Ours");
}

#[test]
fn merge_keeps_the_local_version_on_equal_times() {
    let mut ours = make_reminder(1, "2024-01-01T00:00:00Z");
    ours.message = "Ours".to_string();
    let mut theirs = make_reminder(1, "2024-01-01T01:00:00+01:00");
    theirs.message = "Theirs".to_string();
    let local = ReminderStore { pending: vec![ours], completed: vec![] };
    let cloud = ReminderStore { pending: vec![theirs], completed: vec![] };
    let merged = merge_stores(&local, &cloud);
    assert_eq!(merged.pending[0].message, "Ours");
}

#[test]
fn merge_compares_moments_not_texts() {
    // 23:30 at +02:00 is 21:30 UTC, which is before 22:00 UTC.
    let mut ours = make_reminder(1, "2024-01-01T22:00:00Z");
    ours.message = "Ours".to_string();
    let mut theirs = make_reminder(1, "2024-01-01T23:30:00+02:00");
    theirs.message = "Theirs".to_string();
    let local = ReminderStore { pending: vec![ours], completed: vec![] };
    let cloud = ReminderStore { pending: vec![theirs], completed: vec![] };
    assert_eq!(merge_stores(&local, &cloud).pending[0].message, "Ours");

    // The other way round the cloud's version is later by the fraction of a second.
    let mut ours = make_reminder(1, "2024-01-01T23:30:00+02:00");
    ours.message = "Ours".to_string();
    let mut theirs = make_reminder(1, "2024-01-01T21:30:00.000000001Z");
    theirs.message = "Theirs".to_string();
    let local = ReminderStore { pending: vec![ours], completed: vec![] };
    let cloud = ReminderStore { pending: vec![theirs], completed: vec![] };
    assert_eq!(merge_stores(&local, &cloud).pending[0].message, "Theirs");
}

#[test]
fn merge_keeps_the_local_version_when_a_time_cannot_be_read() {
    let mut ours = make_reminder(1, "yesterday");
    ours.message = "Ours".to_string();
    let mut theirs = make_reminder(1, "2024-01-02T00:00:00Z");
    theirs.message = "Theirs".to_string();
    let local = ReminderStore { pending: vec![ours], completed: vec![] };
    let cloud = ReminderStore { pending: vec![theirs], completed: vec![] };
    assert_eq!(merge_stores(&local, &cloud).pending[0].message, "Ours");
}

#[test]
fn merge_with_itself_keeps_the_ids() {
    let store = ReminderStore {
        pending: vec![
            make_reminder(1, "2024-01-01T00:00:00Z"),
            make_reminder(2, "2024-01-02T00:00:00Z"),
            make_reminder(3, "not a time"),
        ],
        completed: vec![make_done(4, "2024-01-03T00:00:00Z"), make_done(5, "2024-01-04T00:00:00Z")],
    };
    let merged = merge_stores(&store, &store);
    assert_eq!(ids(&merged.pending), vec![1, 2, 3]);
    assert_eq!(ids(&merged.completed), vec![4, 5]);
}

#[test]
fn merge_of_disjoint_stores_keeps_every_item() {
    let a = ReminderStore {
        pending: vec![make_reminder(1, "2024-01-01T00:00:00Z"), make_reminder(2, "x")],
        completed: vec![make_done(3, "2024-01-03T00:00:00Z")],
    };
    let b = ReminderStore {
        pending: vec![make_reminder(10, "2024-01-01T00:00:00Z")],
        completed: vec![make_done(11, "2024-01-03T00:00:00Z"), make_done(12, "y")],
    };
    let merged = merge_stores(&a, &b);
    assert_eq!(merged.pending.len(), 3);
    assert_eq!(merged.completed.len(), 3);
    assert_eq!(ids(&merged.pending), vec![1, 2, 10]);
    assert_eq!(ids(&merged.completed), vec![3, 11, 12]);
}

#[test]
fn merge_lets_completed_win_over_pending() {
    // Completed locally, still pending in the cloud.
    let local = ReminderStore {
        pending: vec![make_reminder(2, "2024-01-01T00:00:00Z")],
        completed: vec![make_done(1, "2024-01-05T00:00:00Z")],
    };
    let cloud = ReminderStore {
        pending: vec![make_reminder(1, "2024-01-01T00:00:00Z")],
        completed: vec![],
    };
    let merged = merge_stores(&local, &cloud);
    assert_eq!(ids(&merged.pending), vec![2]);
    assert_eq!(ids(&merged.completed), vec![1]);

    // Completed in the cloud, still pending locally.
    let merged = merge_stores(&cloud, &local);
    assert_eq!(ids(&merged.pending), vec![2]);
    assert_eq!(ids(&merged.completed), vec![1]);
}

#[test]
fn merge_takes_completed_items_from_the_local_copy_first() {
    let mut ours = make_done(1, "2024-01-05T00:00:00Z");
    ours.message = "Ours".to_string();
    let mut theirs = make_done(1, "2024-01-06T00:00:00Z");
    theirs.message = "Theirs".to_string();
    let local = ReminderStore { pending: vec![], completed: vec![ours] };
    let cloud = ReminderStore { pending: vec![], completed: vec![theirs, make_done(2, "z")] };
    let merged = merge_stores(&local, &cloud);
    assert_eq!(ids(&merged.completed), vec![1, 2]);
    let one = merged.completed.iter().find(|r| r.id == 1).unwrap();
    assert_eq!(one.message, "Ours");
}

#[test]
fn merge_of_empty_stores_is_empty() {
    let merged = merge_stores(&ReminderStore::default(), &ReminderStore::default());
    assert!(merged.pending.is_empty());
    assert!(merged.completed.is_empty());
}

#[test]
fn store_clone_keeps_both_lists() {
    let store = ReminderStore {
        pending: vec![make_reminder(1, "a"), make_reminder(2, "b")],
        completed: vec![make_done(3, "c")],
    };
    let copy = store.clone();
    assert_eq!(copy.pending.len(), 2);
    assert_eq!(copy.pending[1].created_at, "b");
    assert_eq!(copy.completed[0].completed_at.as_deref(), Some("c"));
}

#[test]
fn merge_takes_the_last_of_repeated_local_ids() {
    let mut first = make_reminder(1, "2024-01-01T00:00:00Z");
    first.message = "First".to_string();
    let mut last = make_reminder(1, "2024-01-01T00:00:00Z");
    last.message = "Last".to_string();
    let local = ReminderStore {
        pending: vec![first, make_reminder(2, "x"), last],
        completed: vec![],
    };
    let merged = merge_stores(&local, &ReminderStore::default());
    assert_eq!(ids(&merged.pending), vec![1, 2]);
    let one = merged.pending.iter().find(|r| r.id == 1).unwrap();
    assert_eq!(one.message, "Last");
}

#[test]
fn merge_compares_each_cloud_version_with_what_is_there() {
    let mut ours = make_reminder(1, "2024-01-02T00:00:00Z");
    ours.message = "Ours".to_string();
    let mut older = make_reminder(1, "2024-01-01T00:00:00Z");
    older.message = "Older".to_string();
    let mut newer = make_reminder(1, "2024-01-03T00:00:00Z");
    newer.message = "Newer".to_string();
    let mut newest_but_unreadable = make_reminder(1, "soon");
    newest_but_unreadable.message = "Unreadable".to_string();
    let local = ReminderStore { pending: vec![ours], completed: vec![] };
    let cloud = ReminderStore {
        pending: vec![older, newer, newest_but_unreadable],
        completed: vec![],
    };
    let merged = merge_stores(&local, &cloud);
    assert_eq!(merged.pending.len(), 1);
    assert_eq!(merged.pending[0].message, "Newer");
}

#[test]
fn merge_sees_no_conflict_within_one_copy() {
    // The cloud alone has id 1 both pending and completed: the copies do not
    // disagree, and the id stays where the cloud has it.
    let cloud = ReminderStore {
        pending: vec![make_reminder(1, "2024-01-01T00:00:00Z")],
        completed: vec![make_done(1, "2024-01-05T00:00:00Z")],
    };
    let local = ReminderStore {
        pending: vec![make_reminder(2, "2024-01-01T00:00:00Z")],
        completed: vec![],
    };
    let merged = merge_stores(&local, &cloud);
    assert_eq!(ids(&merged.pending), vec![1, 2]);
    assert_eq!(ids(&merged.completed), vec![1]);
}

#[test]
fn merge_uses_the_completion_time_as_version_time() {
    // A pending item with a completion time is compared by that time.
    let mut ours = make_reminder(1, "2024-01-01T00:00:00Z");
    ours.completed_at = Some("2024-02-01T00:00:00Z".to_string());
    ours.message = "Ours".to_string();
    let mut theirs = make_reminder(1, "2024-01-15T00:00:00Z");
    theirs.message = "Theirs".to_string();
    let local = ReminderStore { pending: vec![ours], completed: vec![] };
    let cloud = ReminderStore { pending: vec![theirs], completed: vec![] };
    assert_eq!(merge_stores(&local, &cloud).pending[0].message, "Ours");
}
