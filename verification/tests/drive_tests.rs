use reminder_app::clock::Instant;
use reminder_app::error::AppError;
use reminder_app::storage::drive::{
    after_search, bearer, classify_status, created_file_id, download_url, load_from_drive,
    load_from_drive_at, multipart_body, search_url, upload_url, DriveError, DriveFileEntry,
    Located, CREATE_CONTENT_TYPE, CREATE_URL,
};
use reminder_app::storage::legacy::{LegacyReminder, LegacyReminderStore};
use reminder_app::storage::local::Snapshot;

#[test]
fn status_401_means_expired() {
    assert!(matches!(classify_status(401), DriveError::AuthExpired));
    assert!(classify_status(401).is_auth_expired());
    assert!(matches!(classify_status(403), DriveError::Api(403)));
    assert!(matches!(classify_status(500), DriveError::Api(500)));
    assert!(!classify_status(400).is_auth_expired());
    assert!(!DriveError::Transport("expired certificate".to_string()).is_auth_expired());
}

#[test]
fn failures_have_messages() {
    assert_eq!(DriveError::AuthExpired.message(), "Token expired");
    assert_eq!(DriveError::Api(404).message(), "Drive API error: 404");
    assert_eq!(DriveError::Api(0).message(), "Drive API error: 0");
    assert_eq!(DriveError::Api(65535).message(), "Drive API error: 65535");
    assert_eq!(DriveError::Transport("dns".to_string()).message(), "dns");
}

#[test]
fn requests_are_addressed() {
    assert_eq!(bearer("tok"), "Bearer tok");
    assert_eq!(
        search_url("abc"),
        "https://www.googleapis.com/drive/v3/files?q=name%3D%27reminders.json%27%20and%20%27abc%27%20in%20parents%20and%20trashed%3Dfalse&fields=files(id)"
    );
    assert_eq!(download_url("f1"), "https://www.googleapis.com/drive/v3/files/f1?alt=media");
    assert_eq!(
        upload_url("f1"),
        "https://www.googleapis.com/upload/drive/v3/files/f1?uploadType=media"
    );
    assert_eq!(
        CREATE_URL,
        "https://www.googleapis.com/upload/drive/v3/files?uploadType=multipart&fields=id"
    );
    assert_eq!(CREATE_CONTENT_TYPE, "multipart/related; boundary=reminder_app_boundary");
}

#[test]
fn upload_has_two_parts() {
    assert_eq!(
        multipart_body("{\"name\":\"reminders.json\"}", "{\"pending\":[]}"),
        "--reminder_app_boundary\r\nContent-Type: application/json; charset=UTF-8\r\n\r\n{\"name\":\"reminders.json\"}\r\n--reminder_app_boundary\r\nContent-Type: application/json\r\n\r\n{\"pending\":[]}\r\n--reminder_app_boundary--"
    );
}

#[test]
fn first_listed_file_is_the_one() {
    let files = vec![
        DriveFileEntry { id: Some("a".to_string()) },
        DriveFileEntry { id: Some("b".to_string()) },
    ];
    assert!(matches!(after_search(files), Located::Found(id) if id == "a"));
    assert!(matches!(after_search(vec![]), Located::Create));
    let files = vec![DriveFileEntry { id: None }, DriveFileEntry { id: Some("b".to_string()) }];
    assert!(matches!(after_search(files), Located::Create));
}

#[test]
fn created_file_needs_an_id() {
    assert_eq!(created_file_id(Some("f".to_string())).unwrap(), "f");
    assert!(matches!(
        created_file_id(None),
        Err(AppError::Drive(m)) if m == "No file ID in response"
    ));
}

#[test]
fn cloud_content_is_read_like_local_content() {
    let now = Instant { secs: 1_704_067_200, nanos: 0, offset: 0 };
    let old = LegacyReminder {
        id: 3,
        message: "m".to_string(),
        due_time: "2024-01-03T00:00:00Z".to_string(),
        created_at: "c".to_string(),
        recurrence: String::new(),
        is_completed: false,
        is_snoozed: false,
        original_due_time: None,
        completed_at: None,
        sort_order: 0,
    };
    let content = Snapshot {
        current: None,
        legacy: Some(LegacyReminderStore { pending: vec![old], completed: vec![] }),
    };
    let store = load_from_drive_at(content, now);
    assert_eq!(store.pending.len(), 1);
    assert_eq!(store.pending[0].id, 3);
    assert_eq!(store.pending[0].urgency, reminder_app::reminder::Urgency::Soon);
    let store = load_from_drive(Snapshot { current: None, legacy: None });
    assert!(store.pending.is_empty() && store.completed.is_empty());
}
