use chrono::{Datelike, Timelike};
use reminder_app::clock::Instant;
use reminder_app::reminder::{ListType, Reminder, Urgency};
use reminder_app::storage::listing::{bytes_less, rank, Ranking};
use reminder_app::storage::merge::ReminderStore;
use reminder_app::storage::stats::{check, count_passing, day_number, weekday_number, Test};
use reminder_app::storage::Storage;
use reminder_app::text::{decimal, from_chars, part, scan_from, to_chars, Stop};

fn item(id: i64, list_type: ListType, sort_order: i64) -> Reminder {
    Reminder {
        id,
        message: format!("Task {}", id),
        urgency: Urgency::Today,
        list_type,
        created_at: "2024-01-01T00:00:00Z".to_string(),
        is_completed: false,
        completed_at: None,
        sort_order,
    }
}

fn done(id: i64, completed_at: Option<&str>) -> Reminder {
    let mut r = item(id, ListType::Actual, 0);
    r.is_completed = true;
    r.completed_at = completed_at.map(String::from);
    r
}

fn ids(list: &Vec<Reminder>) -> Vec<i64> {
    list.iter().map(|r| r.id).collect()
}

fn storage_with(pending: Vec<Reminder>, completed: Vec<Reminder>) -> Storage {
    Storage::new("/tmp/test".to_string(), ReminderStore { pending, completed })
}

#[test]
fn pending_items_come_by_sort_order() {
    let storage = storage_with(
        vec![
            item(1, ListType::Actual, 5),
            item(2, ListType::Backlog, -1),
            item(3, ListType::Actual, 0),
            item(4, ListType::Backlog, 5),
            item(5, ListType::Actual, 0),
        ],
        vec![],
    );
    assert_eq!(ids(&storage.get_pending_reminders()), vec![2, 3, 5, 1, 4]);
    assert_eq!(ids(&storage.get_actual_reminders()), vec![3, 5, 1]);
    assert_eq!(ids(&storage.get_backlog_reminders()), vec![2, 4]);
    // The store itself is not touched.
    assert_eq!(ids(&storage.data.pending), vec![1, 2, 3, 4, 5]);
}

#[test]
fn ranking_agrees_with_a_stable_sort() {
    let orders = [3, -7, 3, 0, 12, 0, 0, -7, i64::MAX, i64::MIN, 5];
    let list: Vec<Reminder> = orders
        .iter()
        .enumerate()
        .map(|(i, o)| item(i as i64, ListType::Actual, *o))
        .collect();
    let mut expected = list.clone();
    expected.sort_by(|a, b| a.sort_order.cmp(&b.sort_order));
    assert_eq!(ids(&rank(&list, Ranking::BySortOrder)), ids(&expected));
}

#[test]
fn completed_items_come_latest_first() {
    let storage = storage_with(
        vec![],
        vec![
            done(1, Some("2024-01-02T00:00:00Z")),
            done(2, None),
            done(3, Some("2024-01-03T00:00:00Z")),
            done(4, Some("2024-01-02T00:00:00Z")),
            done(5, Some("2024-01-02T00:00:00Za")),
        ],
    );
    assert_eq!(ids(&storage.get_completed_reminders()), vec![3, 5, 1, 4, 2]);
    let list = storage.data.completed.clone();
    let mut expected = list.clone();
    expected.sort_by(|a, b| {
        let a_time = a.completed_at.as_deref().unwrap_or("");
        let b_time = b.completed_at.as_deref().unwrap_or("");
        b_time.cmp(a_time)
    });
    assert_eq!(ids(&rank(&list, Ranking::LatestFirst)), ids(&expected));
}

#[test]
fn bytes_are_compared_like_strings() {
    let samples = ["", "a", "ab", "b", "a\u{e9}", "a\u{ff}", "\u{10000}", "Z", "aa"];
    for a in samples {
        for b in samples {
            assert_eq!(bytes_less(a.as_bytes(), b.as_bytes()), a < b, "{:?} < {:?}", a, b);
        }
    }
}

#[test]
fn empty_lists_stay_empty() {
    let storage = storage_with(vec![], vec![]);
    assert!(storage.get_pending_reminders().is_empty());
    assert!(storage.get_actual_reminders().is_empty());
    assert!(storage.get_backlog_reminders().is_empty());
    assert!(storage.get_completed_reminders().is_empty());
}

#[test]
fn days_and_weekdays_agree_with_the_calendar() {
    let samples: [i64; 9] =
        [0, 1, 86_399, 86_400, -1, -86_400, -86_401, 1_704_067_200, 4_102_444_799];
    for secs in samples {
        let dt = chrono::DateTime::from_timestamp(secs, 0).unwrap();
        let epoch = chrono::NaiveDate::from_ymd_opt(1970, 1, 1).unwrap();
        let days = (dt.date_naive() - epoch).num_days();
        assert_eq!(day_number(secs as i128), days as i128, "day of {}", secs);
        assert_eq!(
            weekday_number(days as i128) as u32,
            dt.weekday().num_days_from_monday(),
            "weekday of {}",
            secs
        );
    }
}

#[test]
fn tests_look_at_the_clock_of_the_completion() {
    let texts = [
        "2024-01-01T00:30:00+02:00",
        "2024-01-01T23:30:00-05:00",
        "1969-12-31T23:59:59Z",
        "2024-02-29T12:00:00.5+05:30",
        "2023-06-15T08:15:00-11:00",
    ];
    for text in texts {
        let dt = chrono::DateTime::parse_from_rfc3339(text).unwrap();
        let at = Instant {
            secs: dt.timestamp(),
            nanos: dt.timestamp_subsec_nanos(),
            offset: dt.offset().local_minus_utc(),
        };
        let epoch = chrono::NaiveDate::from_ymd_opt(1970, 1, 1).unwrap();
        let day = (dt.date_naive() - epoch).num_days() as i128;
        let hour = dt.hour() as u8;
        let weekday = dt.weekday().num_days_from_monday() as u8;
        assert!(check(Test::OnDay(day), &Some(at)), "day of {}", text);
        assert!(!check(Test::OnDay(day + 1), &Some(at)));
        assert!(check(Test::InHour(hour), &Some(at)), "hour of {}", text);
        assert!(!check(Test::InHour((hour + 1) % 24), &Some(at)));
        assert!(check(Test::OnWeekday(weekday), &Some(at)), "weekday of {}", text);
        assert!(!check(Test::OnWeekday((weekday + 1) % 7), &Some(at)));
        assert!(check(Test::Since(dt.timestamp() as i128), &Some(at)));
        assert!(!check(Test::Since(dt.timestamp() as i128 + 1), &Some(at)));
    }
    assert!(!check(Test::Since(i128::MIN), &None));
    assert_eq!(count_passing(&vec![None, None], Test::InHour(0)), 0);
}

#[test]
fn completions_are_counted_for_today_and_this_week() {
    // Wednesday 2024-01-03T12:00:00Z; the week began on Monday 2024-01-01.
    let now = Instant { secs: 1_704_283_200, nanos: 0, offset: 0 };
    let storage = storage_with(
        vec![],
        vec![
            done(1, Some("2024-01-03T00:00:00Z")),
            done(2, Some("2024-01-03T11:00:00Z")),
            done(3, Some("2024-01-02T23:59:59Z")),
            done(4, Some("2024-01-01T00:00:00Z")),
            done(5, Some("2023-12-31T23:59:59Z")),
            done(6, Some("2024-01-03T01:00:00+02:00")),
            done(7, Some("not a time")),
            done(8, None),
        ],
    );
    assert_eq!(storage.get_completion_stats_at(now), (2, 5));
}

#[test]
fn completion_stats_read_the_clock() {
    let before = chrono::Utc::now();
    let long_ago = "2000-01-01T00:00:00Z";
    let storage = storage_with(
        vec![],
        vec![done(1, Some(&before.to_rfc3339())), done(2, Some(long_ago)), done(3, None)],
    );
    let stats = storage.get_completion_stats();
    let after = chrono::Utc::now();
    // Unless midnight passed in between, the completion of a moment ago is of today.
    if before.date_naive() == after.date_naive() {
        assert_eq!(stats, (1, 1));
    } else {
        assert!(stats.0 <= 1 && stats.1 <= 1);
    }
}

#[test]
fn history_covers_fourteen_days() {
    // Wednesday 2024-01-03T12:00:00Z.
    let now = Instant { secs: 1_704_283_200, nanos: 0, offset: 0 };
    let storage = storage_with(
        vec![
            item(1, ListType::Backlog, 0),
            item(2, ListType::Backlog, 1),
            item(3, ListType::Actual, 0),
        ],
        vec![
            done(1, Some("2024-01-03T09:15:00Z")),
            done(2, Some("2024-01-03T09:45:00Z")),
            done(3, Some("2024-01-02T23:30:00Z")),
            // Written at +02:00: the first of January, a Monday, at one o'clock.
            done(4, Some("2024-01-01T01:00:00+02:00")),
            done(5, Some("2023-12-21T00:00:00Z")),
            done(6, Some("2023-12-20T23:59:59Z")),
            done(7, Some("garbage")),
            done(8, None),
        ],
    );
    let (days, hourly, weekly, backlog) = storage.get_historical_stats_at(now);
    assert_eq!(days.len(), 14);
    let labels: Vec<&str> = days.iter().map(|d| d.0.as_str()).collect();
    assert_eq!(labels[0], "2023-12-21");
    assert_eq!(labels[10], "2023-12-31");
    assert_eq!(labels[11], "2024-01-01");
    assert_eq!(labels[13], "2024-01-03");
    let counts: Vec<usize> = days.iter().map(|d| d.1).collect();
    assert_eq!(counts, vec![1, 0, 0, 0, 0, 0, 0, 0, 0, 0, 0, 1, 1, 2]);
    assert_eq!(hourly.len(), 24);
    assert_eq!(hourly[9], 2);
    assert_eq!(hourly[23], 2);
    assert_eq!(hourly[1], 1);
    assert_eq!(hourly[0], 1);
    assert_eq!(hourly.iter().sum::<usize>(), 6);
    assert_eq!(weekly.len(), 7);
    // Monday 1, Tuesday 1, Wednesday 2 + 1 (the 20th of December), Thursday 1.
    assert_eq!(weekly, vec![1, 1, 3, 1, 0, 0, 0]);
    assert_eq!(backlog, 2);
}

#[test]
fn history_reads_the_clock() {
    let before = chrono::Utc::now();
    let storage = storage_with(vec![], vec![done(1, Some(&before.to_rfc3339()))]);
    let (days, hourly, weekly, backlog) = storage.get_historical_stats();
    let after = chrono::Utc::now();
    assert_eq!(days.len(), 14);
    assert_eq!(hourly.iter().sum::<usize>(), 1);
    assert_eq!(weekly.iter().sum::<usize>(), 1);
    assert_eq!(backlog, 0);
    // Unless midnight passed in between, the last day is today.
    if before.date_naive() == after.date_naive() {
        assert_eq!(days[13].0, before.format("%Y-%m-%d").to_string());
        assert_eq!(days[0].0, (before - chrono::Duration::days(13)).format("%Y-%m-%d").to_string());
        assert_eq!(days[13].1, 1);
    }
}

#[test]
fn numbers_are_written_in_decimal() {
    assert_eq!(decimal(0), "0");
    assert_eq!(decimal(7), "7");
    assert_eq!(decimal(10), "10");
    assert_eq!(decimal(8085), "8085");
    assert_eq!(decimal(u64::MAX), "18446744073709551615");
}

#[test]
fn text_goes_to_characters_and_back() {
    assert_eq!(to_chars("a\u{e9}\u{1f600}"), vec!['a', '\u{e9}', '\u{1f600}']);
    assert_eq!(from_chars(&vec!['x', '\u{20ac}']), "x\u{20ac}");
    assert_eq!(from_chars(&to_chars("")), "");
}

#[test]
fn scans_stop_where_they_should() {
    let text: Vec<char> = "ab  c=d&e".chars().collect();
    assert_eq!(scan_from(&text, 0, Stop::Space), 2);
    assert_eq!(scan_from(&text, 2, Stop::NonSpace), 4);
    assert_eq!(scan_from(&text, 0, Stop::At('=')), 5);
    assert_eq!(scan_from(&text, 0, Stop::AtEither('&', '=')), 5);
    assert_eq!(scan_from(&text, 6, Stop::AtEither('&', '=')), 7);
    assert_eq!(scan_from(&text, 0, Stop::Unless('a')), 1);
    assert_eq!(scan_from(&text, 0, Stop::At('z')), 9);
    assert_eq!(scan_from(&text, 9, Stop::Space), 9);
    assert_eq!(part(&text, 4, 7), vec!['c', '=', 'd']);
    assert_eq!(part(&text, 3, 3), Vec::<char>::new());
}
