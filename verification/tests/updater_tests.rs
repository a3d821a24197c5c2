use reminder_app::updater::{check_for_update, parse_piece, strip_v, version_is_newer, version_numbers};

#[test]
fn test_version_comparison() {
    assert!(version_is_newer("1.2.0", "1.1.0"));
    assert!(version_is_newer("1.1.14", "1.1.13"));
    assert!(version_is_newer("2.0.0", "1.9.9"));
    assert!(!version_is_newer("1.1.13", "1.1.13"));
    assert!(!version_is_newer("1.1.12", "1.1.13"));
}

#[test]
fn missing_numbers_count_as_zero() {
    assert!(version_is_newer("1.1", "1.0.9"));
    assert!(!version_is_newer("1", "1.0.0"));
    assert!(!version_is_newer("", "0.0.0"));
    assert!(version_is_newer("0.0.1", ""));
    assert!(!version_is_newer("1.2.3.4", "1.2.3"));
}

#[test]
fn pieces_that_are_no_numbers_are_passed_over() {
    // "1.x.3" has the numbers 1 and 3.
    assert!(version_is_newer("1.x.3", "1.2"));
    assert!(!version_is_newer("1.x.3", "1.3.1"));
    // "1.2.3-beta" has the numbers 1 and 2 only.
    assert!(!version_is_newer("1.2.3-beta", "1.2"));
    assert!(version_is_newer("1.2.3-beta", "1.1.9"));
    assert!(!version_is_newer("1.2.3-beta", "1.2.1"));
    assert!(!version_is_newer("v2.0.0", "1.0.0"));
}

#[test]
fn pieces_are_read_like_numbers() {
    let samples = [
        "", "0", "7", "007", "+5", "+", "-5", "5+", " 5", "5 ", "4294967295", "4294967296",
        "99999999999999999999999", "1a", "a1", "\u{661}", "++1", "+0",
    ];
    for s in samples {
        let chars: Vec<char> = s.chars().collect();
        assert_eq!(parse_piece(&chars, 0, chars.len()), s.parse::<u32>().ok(), "piece {:?}", s);
    }
}

#[test]
fn versions_are_read_like_split_and_parse() {
    let samples = ["1.2.3", "", ".", "1..2", "1.2.", ".5", "10.x.+3.4294967296.7", "v1.2"];
    for s in samples {
        let chars: Vec<char> = s.chars().collect();
        let expected: Vec<u32> = s.split('.').filter_map(|p| p.parse().ok()).collect();
        assert_eq!(version_numbers(&chars), expected, "version {:?}", s);
    }
}

#[test]
fn leading_vs_are_stripped() {
    assert_eq!(strip_v("v1.2.3"), "1.2.3");
    assert_eq!(strip_v("vv1"), "1");
    assert_eq!(strip_v("1.v2"), "1.v2");
    assert_eq!(strip_v("v"), "");
    assert_eq!(strip_v(""), "");
}

#[test]
fn newer_release_is_an_update() {
    let info = check_for_update("v1.3.0", "1.2.9").unwrap();
    assert_eq!(info.version, "v1.3.0");
    assert_eq!(info.current_version, "1.2.9");
    assert_eq!(
        info.download_url,
        "https://github.com/JosephIris/reminder-app-tauri/releases/download/v1.3.0/reminder-app.exe"
    );
    assert!(check_for_update("v1.2.9", "1.2.9").is_none());
    assert!(check_for_update("1.2.8", "v1.2.9").is_none());
}
